//! Edits reported by the interaction surface, and what each does to the
//! record: which controls are open, which dependent fields follow an edit,
//! and which edits call for the particles to be generated anew.

use vstd::prelude::*;
use crate::binary32::{less, less_than, product, product_of, quotient, quotient_of};
use crate::laws::lemma_edits_keep_well_formed;
use crate::settings::Settings;
use crate::structure::Structure;

verus! {

/// The controls of the interaction surface.
#[derive(Clone, Copy, Debug, PartialEq, Eq, Structural)]
pub enum Control {
    Particles,
    Structure,
    GridWidth,
    VariableRadius,
    Holeyness,
    MaxRadius,
    MinRadius,
    MaxHVelocity,
    MinHVelocity,
    MaxVVelocity,
    MinVVelocity,
    GenPerFrame,
    Gravity,
    GravityAcceleration,
    Bonds,
    Stiffness,
    LinearContactBonds,
    BondTearing,
    BondForceLimit,
    Collisions,
    Friction,
    FrictionCoefficient,
    Rotation,
    MaintainAspectRatio,
    HorBound,
    VertBound,
    Reset,
    CircularParticles,
    RenderRotation,
    ColorCodeRotation,
    Colors,
    RenderBonds,
}

/// One change reported by the interaction surface: a control and the value it
/// was set to. Numbers with a fraction are single-precision bit patterns.
#[derive(Clone, Copy, Debug, PartialEq, Eq)]
pub enum Edit {
    Particles(usize),
    Structure(Structure),
    GridWidth(u32),
    VariableRadius(bool),
    Holeyness(u32),
    MaxRadius(u32),
    MinRadius(u32),
    MaxHVelocity(u32),
    MinHVelocity(u32),
    MaxVVelocity(u32),
    MinVVelocity(u32),
    GenPerFrame(i32),
    Gravity(bool),
    GravityAcceleration(u32),
    Bonds(bool),
    Stiffness(u32),
    LinearContactBonds(bool),
    BondTearing(bool),
    BondForceLimit(u32),
    Collisions(bool),
    Friction(bool),
    FrictionCoefficient(u32),
    Rotation(bool),
    MaintainAspectRatio(bool),
    HorBound(u32),
    VertBound(u32),
    /// The reset button was pressed.
    Reset,
    CircularParticles(bool),
    RenderRotation(bool),
    ColorCodeRotation(bool),
    Colors(i32),
    RenderBonds(bool),
}

impl Control {
    /// Whether the control sets a parameter from which the particles are
    /// generated: their number, the structure and its width, the radii, the
    /// initial velocities.
    pub open spec fn is_generation(self) -> bool {
        matches!(
            self,
            Control::Particles
            | Control::Structure
            | Control::GridWidth
            | Control::VariableRadius
            | Control::Holeyness
            | Control::MaxRadius
            | Control::MinRadius
            | Control::MaxHVelocity
            | Control::MinHVelocity
            | Control::MaxVVelocity
            | Control::MinVVelocity
        )
    }

    /// Whether the control sets a parameter that the collision pass reads:
    /// the forces, the contact model, the world's bounds.
    pub open spec fn is_collision(self) -> bool {
        matches!(
            self,
            Control::Gravity
            | Control::GravityAcceleration
            | Control::Bonds
            | Control::Stiffness
            | Control::LinearContactBonds
            | Control::BondTearing
            | Control::BondForceLimit
            | Control::Collisions
            | Control::Friction
            | Control::FrictionCoefficient
            | Control::Rotation
            | Control::HorBound
            | Control::VertBound
        )
    }

    /// Whether the control sets a parameter that takes effect with the next
    /// frame and calls for nothing: the generation rate or a rendering option.
    pub open spec fn is_runtime(self) -> bool {
        matches!(
            self,
            Control::GenPerFrame
            | Control::CircularParticles
            | Control::RenderRotation
            | Control::ColorCodeRotation
            | Control::Colors
            | Control::RenderBonds
        )
    }

    /// Whether the control sets a parameter from which the particles are
    /// generated.
    pub fn generation(&self) -> (r: bool)
        ensures
            r == self.is_generation(),
    {
        matches!(
            self,
            Control::Particles
            | Control::Structure
            | Control::GridWidth
            | Control::VariableRadius
            | Control::Holeyness
            | Control::MaxRadius
            | Control::MinRadius
            | Control::MaxHVelocity
            | Control::MinHVelocity
            | Control::MaxVVelocity
            | Control::MinVVelocity
        )
    }

    /// Whether the control sets a parameter that the collision pass reads.
    pub fn collision(&self) -> (r: bool)
        ensures
            r == self.is_collision(),
    {
        matches!(
            self,
            Control::Gravity
            | Control::GravityAcceleration
            | Control::Bonds
            | Control::Stiffness
            | Control::LinearContactBonds
            | Control::BondTearing
            | Control::BondForceLimit
            | Control::Collisions
            | Control::Friction
            | Control::FrictionCoefficient
            | Control::Rotation
            | Control::HorBound
            | Control::VertBound
        )
    }

    /// Whether the control sets the generation rate or a rendering option.
    pub fn runtime(&self) -> (r: bool)
        ensures
            r == self.is_runtime(),
    {
        matches!(
            self,
            Control::GenPerFrame
            | Control::CircularParticles
            | Control::RenderRotation
            | Control::ColorCodeRotation
            | Control::Colors
            | Control::RenderBonds
        )
    }

    /// Whether this is the reset button.
    fn is_reset(&self) -> (r: bool)
        ensures
            r == (*self == Control::Reset),
    {
        matches!(self, Control::Reset)
    }
}

impl Edit {
    /// Whether the edit has the workgroup count derived, which divides by the
    /// workgroup size.
    pub open spec fn divides(self) -> bool {
        self is Particles || self is GenPerFrame
    }

    /// The control that reported the edit.
    pub open spec fn source(self) -> Control {
        match self {
            Edit::Particles(_) => Control::Particles,
            Edit::Structure(_) => Control::Structure,
            Edit::GridWidth(_) => Control::GridWidth,
            Edit::VariableRadius(_) => Control::VariableRadius,
            Edit::Holeyness(_) => Control::Holeyness,
            Edit::MaxRadius(_) => Control::MaxRadius,
            Edit::MinRadius(_) => Control::MinRadius,
            Edit::MaxHVelocity(_) => Control::MaxHVelocity,
            Edit::MinHVelocity(_) => Control::MinHVelocity,
            Edit::MaxVVelocity(_) => Control::MaxVVelocity,
            Edit::MinVVelocity(_) => Control::MinVVelocity,
            Edit::GenPerFrame(_) => Control::GenPerFrame,
            Edit::Gravity(_) => Control::Gravity,
            Edit::GravityAcceleration(_) => Control::GravityAcceleration,
            Edit::Bonds(_) => Control::Bonds,
            Edit::Stiffness(_) => Control::Stiffness,
            Edit::LinearContactBonds(_) => Control::LinearContactBonds,
            Edit::BondTearing(_) => Control::BondTearing,
            Edit::BondForceLimit(_) => Control::BondForceLimit,
            Edit::Collisions(_) => Control::Collisions,
            Edit::Friction(_) => Control::Friction,
            Edit::FrictionCoefficient(_) => Control::FrictionCoefficient,
            Edit::Rotation(_) => Control::Rotation,
            Edit::MaintainAspectRatio(_) => Control::MaintainAspectRatio,
            Edit::HorBound(_) => Control::HorBound,
            Edit::VertBound(_) => Control::VertBound,
            Edit::Reset => Control::Reset,
            Edit::CircularParticles(_) => Control::CircularParticles,
            Edit::RenderRotation(_) => Control::RenderRotation,
            Edit::ColorCodeRotation(_) => Control::ColorCodeRotation,
            Edit::Colors(_) => Control::Colors,
            Edit::RenderBonds(_) => Control::RenderBonds,
        }
    }

    /// The control that reported the edit.
    pub fn control(&self) -> (c: Control)
        ensures
            c == self.source(),
    {
        match self {
            Edit::Particles(_) => Control::Particles,
            Edit::Structure(_) => Control::Structure,
            Edit::GridWidth(_) => Control::GridWidth,
            Edit::VariableRadius(_) => Control::VariableRadius,
            Edit::Holeyness(_) => Control::Holeyness,
            Edit::MaxRadius(_) => Control::MaxRadius,
            Edit::MinRadius(_) => Control::MinRadius,
            Edit::MaxHVelocity(_) => Control::MaxHVelocity,
            Edit::MinHVelocity(_) => Control::MinHVelocity,
            Edit::MaxVVelocity(_) => Control::MaxVVelocity,
            Edit::MinVVelocity(_) => Control::MinVVelocity,
            Edit::GenPerFrame(_) => Control::GenPerFrame,
            Edit::Gravity(_) => Control::Gravity,
            Edit::GravityAcceleration(_) => Control::GravityAcceleration,
            Edit::Bonds(_) => Control::Bonds,
            Edit::Stiffness(_) => Control::Stiffness,
            Edit::LinearContactBonds(_) => Control::LinearContactBonds,
            Edit::BondTearing(_) => Control::BondTearing,
            Edit::BondForceLimit(_) => Control::BondForceLimit,
            Edit::Collisions(_) => Control::Collisions,
            Edit::Friction(_) => Control::Friction,
            Edit::FrictionCoefficient(_) => Control::FrictionCoefficient,
            Edit::Rotation(_) => Control::Rotation,
            Edit::MaintainAspectRatio(_) => Control::MaintainAspectRatio,
            Edit::HorBound(_) => Control::HorBound,
            Edit::VertBound(_) => Control::VertBound,
            Edit::Reset => Control::Reset,
            Edit::CircularParticles(_) => Control::CircularParticles,
            Edit::RenderRotation(_) => Control::RenderRotation,
            Edit::ColorCodeRotation(_) => Control::ColorCodeRotation,
            Edit::Colors(_) => Control::Colors,
            Edit::RenderBonds(_) => Control::RenderBonds,
        }
    }
}

/// The lower end of a range after its upper end was set to `hi`: pulled down
/// to `hi` where it lay above.
pub open spec fn lowered(lo: u32, hi: u32) -> u32 {
    if less(hi, lo) {
        hi
    } else {
        lo
    }
}

/// The upper end of a range after its lower end was set to `lo`: pushed up to
/// `lo` where it lay below.
pub open spec fn raised(hi: u32, lo: u32) -> u32 {
    if less(hi, lo) {
        lo
    } else {
        hi
    }
}

impl Settings {
    /// Whether the interaction surface shows the control. Nothing is shown
    /// while the surface is closed; a two-stage run closes every setup
    /// control: those of the parameters from which the particles are
    /// generated, the structure among them, and the generation rate; a
    /// control that tunes a switched-off feature is hidden with it.
    pub open spec fn offers(self, control: Control) -> bool {
        self.settings_menu && match control {
            Control::Particles
            | Control::Structure
            | Control::VariableRadius
            | Control::MaxHVelocity
            | Control::MinHVelocity
            | Control::MaxVVelocity
            | Control::MinVVelocity
            | Control::GenPerFrame => !self.two_part,
            Control::GridWidth => !self.two_part && self.structure == Structure::Grid,
            Control::Holeyness => !self.two_part && self.variable_rad && self.structure
                == Structure::Grid,
            Control::MaxRadius | Control::MinRadius => !self.two_part && self.variable_rad
                && self.structure != Structure::Grid,
            Control::GravityAcceleration => self.gravity,
            Control::Stiffness | Control::LinearContactBonds | Control::BondTearing => self.bonds,
            Control::BondForceLimit => self.bonds && self.bond_tearing,
            Control::Friction => self.collisions,
            Control::FrictionCoefficient | Control::Rotation => self.collisions && self.friction,
            _ => true,
        }
    }

    /// Whether the least radius is derived from the greatest and the
    /// holeyness: in a grid with varying radii.
    pub open spec fn derives_radius(self) -> bool {
        self.variable_rad && self.structure == Structure::Grid
    }

    /// The world's aspect ratio, width by height.
    pub open spec fn aspect_ratio(self) -> u32 {
        quotient_of(self.hor_bound, self.vert_bound)
    }

    /// The record after an edit of a parameter from which the particles are
    /// generated; any other edit leaves it as it is.
    ///
    /// The workgroup count follows the particle count, the least radius
    /// follows the holeyness where it is derived, and the far end of a
    /// velocity range follows the end that was set past it.
    pub open spec fn regrouped(self, edit: Edit) -> Settings {
        match edit {
            Edit::Particles(n) => Settings {
                particles: n,
                workgroups: n / self.workgroup_size,
                ..self
            },
            Edit::Structure(s) => Settings { structure: s, ..self },
            Edit::GridWidth(w) => Settings { grid_width: w, ..self },
            Edit::VariableRadius(on) => Settings { variable_rad: on, ..self },
            Edit::Holeyness(h) => Settings {
                holeyness: h,
                min_radius: if self.derives_radius() {
                    quotient_of(self.max_radius, h)
                } else {
                    self.min_radius
                },
                ..self
            },
            Edit::MaxRadius(r) => Settings { max_radius: r, ..self },
            Edit::MinRadius(r) => Settings { min_radius: r, ..self },
            Edit::MaxHVelocity(v) => Settings {
                max_h_velocity: v,
                min_h_velocity: lowered(self.min_h_velocity, v),
                ..self
            },
            Edit::MinHVelocity(v) => Settings {
                min_h_velocity: v,
                max_h_velocity: raised(self.max_h_velocity, v),
                ..self
            },
            Edit::MaxVVelocity(v) => Settings {
                max_v_velocity: v,
                min_v_velocity: lowered(self.min_v_velocity, v),
                ..self
            },
            Edit::MinVVelocity(v) => Settings {
                min_v_velocity: v,
                max_v_velocity: raised(self.max_v_velocity, v),
                ..self
            },
            _ => self,
        }
    }

    /// The record after an edit of a parameter that the collision pass reads,
    /// or of the lock between the world's bounds; any other edit leaves it as
    /// it is.
    ///
    /// All but the lock mark the collision words as stale. Under the lock,
    /// the bound that was not set follows the one that was, at the aspect
    /// ratio the world had before the edit.
    pub open spec fn retuned(self, edit: Edit) -> Settings {
        match edit {
            Edit::Gravity(on) => Settings { gravity: on, changed_collision_settings: true, ..self },
            Edit::GravityAcceleration(a) => Settings {
                gravity_acceleration: a,
                changed_collision_settings: true,
                ..self
            },
            Edit::Bonds(on) => Settings { bonds: on, changed_collision_settings: true, ..self },
            Edit::Stiffness(k) => Settings {
                stiffness: k,
                changed_collision_settings: true,
                ..self
            },
            Edit::LinearContactBonds(on) => Settings {
                linear_contact_bonds: on,
                changed_collision_settings: true,
                ..self
            },
            Edit::BondTearing(on) => Settings {
                bond_tearing: on,
                changed_collision_settings: true,
                ..self
            },
            Edit::BondForceLimit(f) => Settings {
                bond_force_limit: f,
                changed_collision_settings: true,
                ..self
            },
            Edit::Collisions(on) => Settings {
                collisions: on,
                changed_collision_settings: true,
                ..self
            },
            Edit::Friction(on) => Settings {
                friction: on,
                changed_collision_settings: true,
                ..self
            },
            Edit::FrictionCoefficient(c) => Settings {
                friction_coefficient: c,
                changed_collision_settings: true,
                ..self
            },
            Edit::Rotation(on) => Settings {
                rotation: on,
                changed_collision_settings: true,
                ..self
            },
            Edit::MaintainAspectRatio(on) => Settings { maintain_ar: on, ..self },
            Edit::HorBound(w) => Settings {
                hor_bound: w,
                vert_bound: if self.maintain_ar {
                    quotient_of(w, self.aspect_ratio())
                } else {
                    self.vert_bound
                },
                changed_collision_settings: true,
                ..self
            },
            Edit::VertBound(h) => Settings {
                vert_bound: h,
                hor_bound: if self.maintain_ar {
                    product_of(h, self.aspect_ratio())
                } else {
                    self.hor_bound
                },
                changed_collision_settings: true,
                ..self
            },
            _ => self,
        }
    }

    /// The record after an edit of the generation rate or of a rendering
    /// option; any other edit leaves it as it is. With the generation rate
    /// the workgroup count is derived afresh.
    pub open spec fn refreshed(self, edit: Edit) -> Settings {
        match edit {
            Edit::GenPerFrame(g) => Settings {
                gen_per_frame: g,
                workgroups: self.particles / self.workgroup_size,
                ..self
            },
            Edit::CircularParticles(on) => Settings { circular_particles: on, ..self },
            Edit::RenderRotation(on) => Settings { render_rot: on, ..self },
            Edit::ColorCodeRotation(on) => Settings { color_code_rot: on, ..self },
            Edit::Colors(n) => Settings { colors: n, ..self },
            Edit::RenderBonds(on) => Settings { render_bonds: on, ..self },
            _ => self,
        }
    }

    /// The record after the edit has been made and the fields that depend on
    /// the edited one have followed. A reset replaces the whole record.
    pub open spec fn applied(self, edit: Edit) -> Settings {
        if edit == Edit::Reset {
            Settings::experiment()
        } else if edit.source().is_generation() {
            self.regrouped(edit)
        } else if edit.source().is_runtime() {
            self.refreshed(edit)
        } else {
            self.retuned(edit)
        }
    }

    /// Whether the two records differ in a parameter from which the particles
    /// are generated: their number and grouping, the structure and its width,
    /// the radii, the initial velocities.
    pub open spec fn generates_unlike(self, other: Settings) -> bool {
        ||| self.particles != other.particles
        ||| self.workgroups != other.workgroups
        ||| self.workgroup_size != other.workgroup_size
        ||| self.structure != other.structure
        ||| self.grid_width != other.grid_width
        ||| self.variable_rad != other.variable_rad
        ||| self.holeyness != other.holeyness
        ||| self.max_radius != other.max_radius
        ||| self.min_radius != other.min_radius
        ||| self.max_h_velocity != other.max_h_velocity
        ||| self.min_h_velocity != other.min_h_velocity
        ||| self.max_v_velocity != other.max_v_velocity
        ||| self.min_v_velocity != other.min_v_velocity
    }

    /// Whether the edit calls for the particles to be generated anew: every
    /// edit of a parameter from which they are generated does, and a reset
    /// that changes one of these.
    pub open spec fn regenerates(self, edit: Edit) -> bool {
        if edit == Edit::Reset {
            self.generates_unlike(Settings::experiment())
        } else {
            edit.source().is_generation()
        }
    }

    /// Whether the interaction surface shows the control.
    pub fn offered(&self, control: Control) -> (shown: bool)
        ensures
            shown == self.offers(control),
    {
        self.settings_menu && match control {
            Control::Particles
            | Control::Structure
            | Control::VariableRadius
            | Control::MaxHVelocity
            | Control::MinHVelocity
            | Control::MaxVVelocity
            | Control::MinVVelocity
            | Control::GenPerFrame => !self.two_part,
            Control::GridWidth => !self.two_part && self.structure.is_grid(),
            Control::Holeyness => !self.two_part && self.variable_rad && self.structure.is_grid(),
            Control::MaxRadius | Control::MinRadius => !self.two_part && self.variable_rad
                && !self.structure.is_grid(),
            Control::GravityAcceleration => self.gravity,
            Control::Stiffness | Control::LinearContactBonds | Control::BondTearing => self.bonds,
            Control::BondForceLimit => self.bonds && self.bond_tearing,
            Control::Friction => self.collisions,
            Control::FrictionCoefficient | Control::Rotation => self.collisions && self.friction,
            _ => true,
        }
    }

    /// The largest particle count that the interaction surface offers: a
    /// hundred workgroups, or what a `usize` holds where that is less. The
    /// smallest it offers is one workgroup, and it steps by workgroups.
    pub open spec fn particle_bound(self) -> int {
        if self.workgroup_size * 100 > usize::MAX {
            usize::MAX as int
        } else {
            self.workgroup_size * 100
        }
    }

    /// The largest number of colour buckets that the interaction surface
    /// offers: one less than the particle count, or what an `i32` holds where
    /// that is less. The smallest it offers is zero.
    pub open spec fn color_bound(self) -> int {
        if self.particles - 1 > i32::MAX {
            i32::MAX as int
        } else {
            self.particles - 1
        }
    }

    /// The largest particle count that the interaction surface offers.
    pub fn particle_limit(&self) -> (most: usize)
        ensures
            most == self.particle_bound(),
    {
        if self.workgroup_size > usize::MAX / 100 {
            usize::MAX
        } else {
            self.workgroup_size * 100
        }
    }

    /// The largest number of colour buckets that the interaction surface
    /// offers.
    pub fn color_limit(&self) -> (most: i32)
        ensures
            most == self.color_bound(),
    {
        if self.particles == 0 {
            -1
        } else if self.particles - 1 > 0x7FFF_FFFF {
            i32::MAX
        } else {
            (self.particles - 1) as i32
        }
    }

    /// Whether `self` and `other` differ in a parameter from which the
    /// particles are generated.
    fn differs_in_generation(&self, other: &Settings) -> (unlike: bool)
        ensures
            unlike == self.generates_unlike(*other),
    {
        self.particles != other.particles || self.workgroups != other.workgroups
            || self.workgroup_size != other.workgroup_size || self.structure != other.structure
            || self.grid_width != other.grid_width || self.variable_rad != other.variable_rad
            || self.holeyness != other.holeyness || self.max_radius != other.max_radius
            || self.min_radius != other.min_radius || self.max_h_velocity != other.max_h_velocity
            || self.min_h_velocity != other.min_h_velocity || self.max_v_velocity
            != other.max_v_velocity || self.min_v_velocity != other.min_v_velocity
    }

    /// The record after an edit of a parameter from which the particles are
    /// generated.
    fn regroup(&self, edit: Edit) -> (next: Settings)
        requires
            edit.divides() ==> self.workgroup_size > 0,
        ensures
            next == self.regrouped(edit),
    {
        match edit {
            Edit::Particles(n) => {
                Settings { particles: n, workgroups: n / self.workgroup_size, ..*self }
            },
            Edit::Structure(s) => {
                Settings { structure: s, ..*self }
            },
            Edit::GridWidth(w) => {
                Settings { grid_width: w, ..*self }
            },
            Edit::VariableRadius(on) => {
                Settings { variable_rad: on, ..*self }
            },
            Edit::Holeyness(h) => {
                let least = if self.variable_rad && self.structure.is_grid() {
                    quotient(self.max_radius, h)
                } else {
                    self.min_radius
                };
                Settings { holeyness: h, min_radius: least, ..*self }
            },
            Edit::MaxRadius(r) => {
                Settings { max_radius: r, ..*self }
            },
            Edit::MinRadius(r) => {
                Settings { min_radius: r, ..*self }
            },
            Edit::MaxHVelocity(v) => {
                let least = if less_than(v, self.min_h_velocity) {
                    v
                } else {
                    self.min_h_velocity
                };
                Settings { max_h_velocity: v, min_h_velocity: least, ..*self }
            },
            Edit::MinHVelocity(v) => {
                let most = if less_than(self.max_h_velocity, v) {
                    v
                } else {
                    self.max_h_velocity
                };
                Settings { min_h_velocity: v, max_h_velocity: most, ..*self }
            },
            Edit::MaxVVelocity(v) => {
                let least = if less_than(v, self.min_v_velocity) {
                    v
                } else {
                    self.min_v_velocity
                };
                Settings { max_v_velocity: v, min_v_velocity: least, ..*self }
            },
            Edit::MinVVelocity(v) => {
                let most = if less_than(self.max_v_velocity, v) {
                    v
                } else {
                    self.max_v_velocity
                };
                Settings { min_v_velocity: v, max_v_velocity: most, ..*self }
            },
            _ => *self,
        }
    }

    /// The record after an edit of a parameter that the collision pass reads,
    /// or of the lock between the world's bounds.
    fn retune(&self, edit: Edit) -> (next: Settings)
        ensures
            next == self.retuned(edit),
    {
        match edit {
            Edit::Gravity(on) => {
                Settings { gravity: on, changed_collision_settings: true, ..*self }
            },
            Edit::GravityAcceleration(a) => {
                Settings {
                    gravity_acceleration: a,
                    changed_collision_settings: true,
                    ..*self
                }
            },
            Edit::Bonds(on) => {
                Settings { bonds: on, changed_collision_settings: true, ..*self }
            },
            Edit::Stiffness(k) => {
                Settings { stiffness: k, changed_collision_settings: true, ..*self }
            },
            Edit::LinearContactBonds(on) => {
                Settings {
                    linear_contact_bonds: on,
                    changed_collision_settings: true,
                    ..*self
                }
            },
            Edit::BondTearing(on) => {
                Settings { bond_tearing: on, changed_collision_settings: true, ..*self }
            },
            Edit::BondForceLimit(f) => {
                Settings {
                    bond_force_limit: f,
                    changed_collision_settings: true,
                    ..*self
                }
            },
            Edit::Collisions(on) => {
                Settings { collisions: on, changed_collision_settings: true, ..*self }
            },
            Edit::Friction(on) => {
                Settings { friction: on, changed_collision_settings: true, ..*self }
            },
            Edit::FrictionCoefficient(c) => {
                Settings {
                    friction_coefficient: c,
                    changed_collision_settings: true,
                    ..*self
                }
            },
            Edit::Rotation(on) => {
                Settings { rotation: on, changed_collision_settings: true, ..*self }
            },
            Edit::MaintainAspectRatio(on) => {
                Settings { maintain_ar: on, ..*self }
            },
            Edit::HorBound(w) => {
                let height = if self.maintain_ar {
                    quotient(w, quotient(self.hor_bound, self.vert_bound))
                } else {
                    self.vert_bound
                };
                Settings {
                    hor_bound: w,
                    vert_bound: height,
                    changed_collision_settings: true,
                    ..*self
                }
            },
            Edit::VertBound(h) => {
                let width = if self.maintain_ar {
                    product(h, quotient(self.hor_bound, self.vert_bound))
                } else {
                    self.hor_bound
                };
                Settings {
                    vert_bound: h,
                    hor_bound: width,
                    changed_collision_settings: true,
                    ..*self
                }
            },
            _ => *self,
        }
    }

    /// The record after an edit of the generation rate or of a rendering
    /// option.
    fn refresh(&self, edit: Edit) -> (next: Settings)
        requires
            edit.divides() ==> self.workgroup_size > 0,
        ensures
            next == self.refreshed(edit),
    {
        match edit {
            Edit::GenPerFrame(g) => {
                Settings {
                    gen_per_frame: g,
                    workgroups: self.particles / self.workgroup_size,
                    ..*self
                }
            },
            Edit::CircularParticles(on) => {
                Settings { circular_particles: on, ..*self }
            },
            Edit::RenderRotation(on) => {
                Settings { render_rot: on, ..*self }
            },
            Edit::ColorCodeRotation(on) => {
                Settings { color_code_rot: on, ..*self }
            },
            Edit::Colors(n) => {
                Settings { colors: n, ..*self }
            },
            Edit::RenderBonds(on) => {
                Settings { render_bonds: on, ..*self }
            },
            _ => *self,
        }
    }

    /// Makes the edit, lets the dependent fields follow, and tells whether the
    /// particles must be generated anew.
    pub fn apply(&mut self, edit: Edit) -> (regenerate: bool)
        requires
            edit.divides() ==> old(self).workgroup_size > 0,
        ensures
            *final(self) == old(self).applied(edit),
            regenerate == old(self).regenerates(edit),
            old(self).workgroup_size > 0 ==> final(self).workgroup_size > 0,
            old(self).wf() ==> final(self).wf(),
    {
        proof {
            if self.wf() {
                lemma_edits_keep_well_formed(*self, edit);
            }
        }
        let control = edit.control();
        if control.is_reset() {
            let before = *self;
            self.reset();
            before.differs_in_generation(self)
        } else if control.generation() {
            *self = self.regroup(edit);
            true
        } else if control.runtime() {
            *self = self.refresh(edit);
            false
        } else {
            *self = self.retune(edit);
            false
        }
    }

    /// The record after the interaction surface has reported the edit: the
    /// edit is made where the surface shows its control, and dropped where it
    /// does not.
    pub open spec fn after(self, edit: Edit) -> Settings {
        if self.offers(edit.source()) {
            self.applied(edit)
        } else {
            self
        }
    }

    /// Whether the reported edit calls for the particles to be generated
    /// anew.
    pub open spec fn signals(self, edit: Edit) -> bool {
        self.offers(edit.source()) && self.regenerates(edit)
    }

    /// Takes one edit that the interaction surface reported, and tells
    /// whether the particles must be generated anew.
    pub fn ui(&mut self, edit: Edit) -> (regenerate: bool)
        requires
            edit.divides() && old(self).offers(edit.source()) ==> old(self).workgroup_size > 0,
        ensures
            *final(self) == old(self).after(edit),
            regenerate == old(self).signals(edit),
            old(self).workgroup_size > 0 ==> final(self).workgroup_size > 0,
            old(self).wf() ==> final(self).wf(),
    {
        if self.offered(edit.control()) {
            self.apply(edit)
        } else {
            false
        }
    }
}

} // verus!
