//! What holds of the record under every edit and of the words taken from it.

use vstd::prelude::*;
use crate::binary32::tolerance::{
    lemma_quotient_restored, lemma_quotient_undone, within_tolerance,
};
use crate::binary32::{
    at_most, is_nan, is_normal, is_proper, negative, product_of, quotient_of, worth,
};
use crate::buffers::{COLLISION_WORDS, RENDER_WORDS};
use crate::edit::{lowered, raised, Control, Edit};
use crate::settings::{in_order, Settings};

verus! {

/// After either end of a velocity range is set, that range is in order,
/// whatever it was before: its lower end is at most its upper end, provided
/// the value set and the end it is held against are numbers.
pub proof fn lemma_velocity_range_ordered(s: Settings, v: u32)
    requires
        !is_nan(v),
    ensures
        !is_nan(s.min_h_velocity) ==> at_most(
            s.applied(Edit::MaxHVelocity(v)).min_h_velocity,
            s.applied(Edit::MaxHVelocity(v)).max_h_velocity,
        ),
        !is_nan(s.max_h_velocity) ==> at_most(
            s.applied(Edit::MinHVelocity(v)).min_h_velocity,
            s.applied(Edit::MinHVelocity(v)).max_h_velocity,
        ),
        !is_nan(s.min_v_velocity) ==> at_most(
            s.applied(Edit::MaxVVelocity(v)).min_v_velocity,
            s.applied(Edit::MaxVVelocity(v)).max_v_velocity,
        ),
        !is_nan(s.max_v_velocity) ==> at_most(
            s.applied(Edit::MinVVelocity(v)).min_v_velocity,
            s.applied(Edit::MinVVelocity(v)).max_v_velocity,
        ),
{
}

/// An edit of one end of a velocity range sets that end to the value given,
/// and moves the other end only where it has to, and then onto that value.
pub proof fn lemma_range_edit_is_least_change(s: Settings, v: u32)
    ensures
        s.applied(Edit::MaxHVelocity(v)).max_h_velocity == v,
        s.applied(Edit::MinHVelocity(v)).min_h_velocity == v,
        s.applied(Edit::MaxVVelocity(v)).max_v_velocity == v,
        s.applied(Edit::MinVVelocity(v)).min_v_velocity == v,
        in_order(s.min_h_velocity, v) ==> s.applied(Edit::MaxHVelocity(v)).min_h_velocity
            == s.min_h_velocity,
        !in_order(s.min_h_velocity, v) ==> s.applied(Edit::MaxHVelocity(v)).min_h_velocity == v,
        in_order(v, s.max_h_velocity) ==> s.applied(Edit::MinHVelocity(v)).max_h_velocity
            == s.max_h_velocity,
        !in_order(v, s.max_h_velocity) ==> s.applied(Edit::MinHVelocity(v)).max_h_velocity == v,
        in_order(s.min_v_velocity, v) ==> s.applied(Edit::MaxVVelocity(v)).min_v_velocity
            == s.min_v_velocity,
        !in_order(s.min_v_velocity, v) ==> s.applied(Edit::MaxVVelocity(v)).min_v_velocity == v,
        in_order(v, s.max_v_velocity) ==> s.applied(Edit::MinVVelocity(v)).max_v_velocity
            == s.max_v_velocity,
        !in_order(v, s.max_v_velocity) ==> s.applied(Edit::MinVVelocity(v)).max_v_velocity == v,
{
}

/// Setting one end of a range and letting the other follow leaves the range
/// in order.
pub proof fn lemma_followed_range_in_order(lo: u32, hi: u32, v: u32)
    ensures
        in_order(lowered(lo, v), v),
        in_order(v, raised(hi, v)),
{
}

/// No edit breaks a well-formed record, whether the interaction surface shows
/// its control or not.
pub proof fn lemma_edits_keep_well_formed(s: Settings, edit: Edit)
    requires
        s.wf(),
    ensures
        s.applied(edit).wf(),
        s.after(edit).wf(),
{
    let t = s.applied(edit);
    if edit == Edit::Reset {
        lemma_presets_well_formed();
    } else if edit.source().is_generation() {
        assert(t == s.regrouped(edit));
        match edit {
            Edit::MaxHVelocity(v) => {
                lemma_followed_range_in_order(s.min_h_velocity, s.max_h_velocity, v);
            },
            Edit::MinHVelocity(v) => {
                lemma_followed_range_in_order(s.min_h_velocity, s.max_h_velocity, v);
            },
            Edit::MaxVVelocity(v) => {
                lemma_followed_range_in_order(s.min_v_velocity, s.max_v_velocity, v);
            },
            Edit::MinVVelocity(v) => {
                lemma_followed_range_in_order(s.min_v_velocity, s.max_v_velocity, v);
            },
            _ => {},
        }
    } else if edit.source().is_runtime() {
        assert(t == s.refreshed(edit));
    } else {
        assert(t == s.retuned(edit));
        assert(t.workgroups == s.workgroups && t.particles == s.particles && t.workgroup_size
            == s.workgroup_size);
        assert(t.min_h_velocity == s.min_h_velocity && t.max_h_velocity == s.max_h_velocity);
        assert(t.min_v_velocity == s.min_v_velocity && t.max_v_velocity == s.max_v_velocity);
    }
}

/// Both presets are well formed.
pub proof fn lemma_presets_well_formed()
    ensures
        Settings::initial().wf(),
        Settings::experiment().wf(),
{
}

/// Under the lock, setting the width sets the height to the width divided by
/// the aspect ratio that the world had before, and setting the height sets
/// the width to the height times that ratio. Without the lock the other bound
/// stays.
pub proof fn lemma_lock_keeps_aspect_ratio(s: Settings, bound: u32)
    ensures
        s.applied(Edit::HorBound(bound)).hor_bound == bound,
        s.applied(Edit::VertBound(bound)).vert_bound == bound,
        s.maintain_ar ==> s.applied(Edit::HorBound(bound)).vert_bound == quotient_of(
            bound,
            quotient_of(s.hor_bound, s.vert_bound),
        ),
        s.maintain_ar ==> s.applied(Edit::VertBound(bound)).hor_bound == product_of(
            bound,
            quotient_of(s.hor_bound, s.vert_bound),
        ),
        !s.maintain_ar ==> s.applied(Edit::HorBound(bound)).vert_bound == s.vert_bound,
        !s.maintain_ar ==> s.applied(Edit::VertBound(bound)).hor_bound == s.hor_bound,
{
}

/// Under the lock, a new width leaves the world's aspect ratio within 2^-22
/// of what it was, and on the same side of zero, provided the bounds and the
/// new width are finite and not zero and neither the ratio nor the new height
/// leaves the normal range.
pub proof fn lemma_width_keeps_ratio(s: Settings, width: u32)
    requires
        s.maintain_ar,
        is_proper(s.hor_bound),
        is_proper(s.vert_bound),
        is_proper(width),
        is_normal(s.aspect_ratio()),
        is_normal(s.applied(Edit::HorBound(width)).vert_bound),
    ensures
        within_tolerance(
            worth(s.applied(Edit::HorBound(width)).hor_bound),
            worth(s.applied(Edit::HorBound(width)).vert_bound),
            worth(s.hor_bound),
            worth(s.vert_bound),
        ),
        (negative(s.applied(Edit::HorBound(width)).hor_bound) != negative(
            s.applied(Edit::HorBound(width)).vert_bound,
        )) == (negative(s.hor_bound) != negative(s.vert_bound)),
{
    let t = s.applied(Edit::HorBound(width));
    assert(t == s.retuned(Edit::HorBound(width)));
    assert(t.hor_bound == width);
    assert(t.vert_bound == quotient_of(width, quotient_of(s.hor_bound, s.vert_bound)));
    lemma_quotient_undone(s.hor_bound, s.vert_bound, width);
}

/// Under the lock, a new height leaves the world's aspect ratio within 2^-22
/// of what it was, and on the same side of zero, provided the bounds and the
/// new height are finite and not zero and neither the ratio nor the new width
/// leaves the normal range.
pub proof fn lemma_height_keeps_ratio(s: Settings, height: u32)
    requires
        s.maintain_ar,
        is_proper(s.hor_bound),
        is_proper(s.vert_bound),
        is_proper(height),
        is_normal(s.aspect_ratio()),
        is_normal(s.applied(Edit::VertBound(height)).hor_bound),
    ensures
        within_tolerance(
            worth(s.applied(Edit::VertBound(height)).hor_bound),
            worth(s.applied(Edit::VertBound(height)).vert_bound),
            worth(s.hor_bound),
            worth(s.vert_bound),
        ),
        (negative(s.applied(Edit::VertBound(height)).hor_bound) != negative(
            s.applied(Edit::VertBound(height)).vert_bound,
        )) == (negative(s.hor_bound) != negative(s.vert_bound)),
{
    let t = s.applied(Edit::VertBound(height));
    assert(t == s.retuned(Edit::VertBound(height)));
    assert(t.vert_bound == height);
    assert(t.hor_bound == product_of(height, quotient_of(s.hor_bound, s.vert_bound)));
    lemma_quotient_restored(s.hor_bound, s.vert_bound, height);
}

/// In a grid with varying radii, after every edit of the holeyness the least
/// radius is the greatest divided by the holeyness. The interaction surface
/// shows the holeyness only there; set elsewhere, it leaves the radii.
pub proof fn lemma_holeyness_sets_least_radius(s: Settings, holeyness: u32)
    ensures
        s.applied(Edit::Holeyness(holeyness)).holeyness == holeyness,
        s.applied(Edit::Holeyness(holeyness)).max_radius == s.max_radius,
        s.derives_radius() ==> s.applied(Edit::Holeyness(holeyness)).min_radius == quotient_of(
            s.max_radius,
            holeyness,
        ),
        !s.derives_radius() ==> s.applied(Edit::Holeyness(holeyness)).min_radius == s.min_radius,
        s.offers(Control::Holeyness) ==> s.derives_radius() && s.after(Edit::Holeyness(holeyness))
            == s.applied(Edit::Holeyness(holeyness)),
{
}

/// The workgroup count after a particle count is set is that count divided
/// by the workgroup size, rounded down, whether it is a multiple or not.
pub proof fn lemma_workgroups_follow_particles(s: Settings, particles: usize)
    requires
        s.workgroup_size > 0,
    ensures
        s.applied(Edit::Particles(particles)).particles == particles,
        s.applied(Edit::Particles(particles)).workgroups * s.workgroup_size <= particles,
        particles < (s.applied(Edit::Particles(particles)).workgroups + 1) * s.workgroup_size,
{
    let size = s.workgroup_size as int;
    let groups = particles as int / size;
    vstd::arithmetic::div_mod::lemma_fundamental_div_mod(particles as int, size);
    vstd::arithmetic::div_mod::lemma_mod_bound(particles as int, size);
    assert(groups * size == size * groups) by (nonlinear_arith);
    assert((groups + 1) * size == size * groups + size) by (nonlinear_arith);
}

/// An edit marks the collision words as stale exactly when it sets a
/// parameter that the collision pass reads; a reset marks them as up to date;
/// every other edit leaves the mark as it is.
pub proof fn lemma_stale_mark(s: Settings, edit: Edit)
    ensures
        edit.source().is_collision() ==> s.applied(edit).changed_collision_settings,
        edit == Edit::Reset ==> !s.applied(edit).changed_collision_settings,
        !edit.source().is_collision() && edit != Edit::Reset ==> s.applied(
            edit,
        ).changed_collision_settings == s.changed_collision_settings,
{
}

/// An edit of a control that the interaction surface does not show changes
/// nothing and signals nothing; while the surface is closed it shows none.
pub proof fn lemma_hidden_controls_are_inert(s: Settings, edit: Edit)
    ensures
        !s.offers(edit.source()) ==> s.after(edit) == s && !s.signals(edit),
        !s.settings_menu ==> !s.offers(edit.source()),
{
}

/// During a two-stage run the interaction surface shows no control of a
/// parameter from which the particles are generated: an edit of one changes
/// nothing and signals nothing.
pub proof fn lemma_two_stage_run_closes_setup(s: Settings, edit: Edit)
    requires
        s.two_part,
        edit.source().is_generation(),
    ensures
        !s.offers(edit.source()),
        s.after(edit) == s,
        !s.signals(edit),
{
}

/// During a two-stage run nothing that the interaction surface reports,
/// short of a reset, changes a setup parameter or calls for the particles to
/// be generated anew.
pub proof fn lemma_two_stage_run_keeps_setup(s: Settings, edit: Edit)
    requires
        s.two_part,
        edit != Edit::Reset,
    ensures
        !s.signals(edit),
        !s.generates_unlike(s.after(edit)),
        s.after(edit).gen_per_frame == s.gen_per_frame,
        s.after(edit).two_part,
{
    let t = s.after(edit);
    if s.offers(edit.source()) {
        assert(!edit.source().is_generation());
        if edit.source().is_runtime() {
            assert(t == s.refreshed(edit));
        } else {
            assert(t == s.retuned(edit));
        }
    }
}

/// A reset leaves the same record whatever the record was, with the
/// interaction surface open and the collision words marked as up to date.
pub proof fn lemma_reset_forgets(s: Settings, t: Settings)
    ensures
        s.applied(Edit::Reset) == t.applied(Edit::Reset),
        s.applied(Edit::Reset).settings_menu,
        s.applied(Edit::Reset).offers(Control::Reset),
        !s.applied(Edit::Reset).changed_collision_settings,
{
}

/// Taking the collision words changes none of them: taken again before any
/// edit, they are the same thirteen words. Taking them clears the stale mark
/// and nothing else.
pub proof fn lemma_collision_words_repeat(s: Settings)
    ensures
        s.collision_words().len() == COLLISION_WORDS,
        s.consumed().collision_words() == s.collision_words(),
        !s.consumed().changed_collision_settings,
        s.consumed().consumed() == s.consumed(),
        s.consumed().render_words() == s.render_words(),
{
    assert(s.consumed().collision_words() =~= s.collision_words());
    assert(s.consumed().render_words() =~= s.render_words());
}

/// The render pass reads eight words, and the last three give back the bit
/// patterns they were made from.
pub proof fn lemma_render_words_keep_bits(s: Settings)
    ensures
        s.render_words().len() == RENDER_WORDS,
        s.render_words()[5] as u32 == s.hor_bound,
        s.render_words()[6] as u32 == s.vert_bound,
        s.render_words()[7] as u32 == s.stiffness,
{
    lemma_round_trip(s.hor_bound);
    lemma_round_trip(s.vert_bound);
    lemma_round_trip(s.stiffness);
}

/// Reading a word as a signed integer and back gives the word.
proof fn lemma_round_trip(w: u32)
    ensures
        (w as i32) as u32 == w,
{
    assert((w as i32) as u32 == w) by (bit_vector);
}

} // verus!
