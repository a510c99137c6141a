//! The two word sequences that the simulation uploads to the GPU: one for the
//! collision pass, one for the render pass. Their order is the layout of the
//! uniform buffers that the shaders declare.

use vstd::prelude::*;
use crate::settings::Settings;

verus! {

/// Number of words that the collision pass reads.
pub const COLLISION_WORDS: usize = 13;

/// Number of words that the render pass reads.
pub const RENDER_WORDS: usize = 8;

/// A switch as the integer that a shader reads: 1 for on, 0 for off.
pub open spec fn flag(on: bool) -> i32 {
    if on {
        1
    } else {
        0
    }
}

/// Reinterprets an integer as a word, with `bytemuck::cast`.
///
/// Taken on trust from the cast's source: the two types have one size, so
/// the cast does not panic, and it hands back the same bits under the other
/// type, which is what `as` does between `i32` and `u32`.
#[verifier::external_body]
fn word_of(x: i32) -> (w: u32)
    ensures
        w == x as u32,
{
    bytemuck::cast(x)
}

/// A switch as the integer that a shader reads.
fn flag_of(on: bool) -> (x: i32)
    ensures
        x == flag(on),
{
    if on {
        1
    } else {
        0
    }
}

impl Settings {
    /// What the collision pass reads, in its order: the world's bounds, then
    /// switches and coefficients interleaved as the shader declares them.
    /// Each word is a single-precision bit pattern or the bits of a switch.
    pub open spec fn collision_words(self) -> Seq<u32> {
        seq![
            self.hor_bound,
            self.vert_bound,
            flag(self.gravity) as u32,
            flag(self.bonds) as u32,
            flag(self.collisions) as u32,
            flag(self.friction) as u32,
            self.friction_coefficient,
            flag(self.rotation) as u32,
            flag(self.linear_contact_bonds) as u32,
            self.gravity_acceleration,
            self.stiffness,
            flag(self.bond_tearing) as u32,
            self.bond_force_limit,
        ]
    }

    /// What the render pass reads, in its order. Bonds are drawn only where
    /// they are simulated. The last three words hold the bits of the world's
    /// bounds and of the stiffness.
    pub open spec fn render_words(self) -> Seq<i32> {
        seq![
            flag(self.circular_particles),
            flag(self.render_rot),
            flag(self.color_code_rot),
            self.colors,
            flag(self.bonds && self.render_bonds),
            self.hor_bound as i32,
            self.vert_bound as i32,
            self.stiffness as i32,
        ]
    }

    /// The record once its collision words have been taken.
    pub open spec fn consumed(self) -> Settings {
        Settings { changed_collision_settings: false, ..self }
    }

    /// Takes the words for the collision pass and marks them as up to date.
    pub fn collison_settings(&mut self) -> (words: Vec<u32>)
        ensures
            words@ == old(self).collision_words(),
            words.len() == COLLISION_WORDS,
            *final(self) == old(self).consumed(),
    {
        self.changed_collision_settings = false;
        let words = vec![
            self.hor_bound,
            self.vert_bound,
            word_of(flag_of(self.gravity)),
            word_of(flag_of(self.bonds)),
            word_of(flag_of(self.collisions)),
            word_of(flag_of(self.friction)),
            self.friction_coefficient,
            word_of(flag_of(self.rotation)),
            word_of(flag_of(self.linear_contact_bonds)),
            self.gravity_acceleration,
            self.stiffness,
            word_of(flag_of(self.bond_tearing)),
            self.bond_force_limit,
        ];
        assert(words@ =~= old(self).collision_words());
        words
    }

    /// The words for the render pass. The record is left as it is.
    pub fn render_settings(&mut self) -> (words: Vec<i32>)
        ensures
            words@ == old(self).render_words(),
            words.len() == RENDER_WORDS,
            *final(self) == *old(self),
    {
        let words = vec![
            flag_of(self.circular_particles),
            flag_of(self.render_rot),
            flag_of(self.color_code_rot),
            self.colors,
            flag_of(self.bonds && self.render_bonds),
            self.hor_bound as i32,
            self.vert_bound as i32,
            self.stiffness as i32,
        ];
        assert(words@ =~= old(self).render_words());
        words
    }
}

} // verus!
