//! The parameter record and its two presets.

use vstd::prelude::*;
use vstd::arithmetic::power2::*;
use crate::binary32::arithmetic::lemma_one_is_neutral;
use crate::binary32::nearest::{lemma_exact, lemma_rounded, nearest};
use crate::binary32::{less, quotient, quotient_of, weight, BINADE, ONE};
use crate::structure::Structure;

verus! {

/// 0.0
pub const ZERO: u32 = 0;

/// 0.03125, the greatest radius of both presets: 0.1 / 3.2.
pub const GREATEST_RADIUS: u32 = 0x3D00_0000;

/// The least radius of both presets: the greatest divided by 1.7, which is
/// 0.018382354 to eight digits.
pub const LEAST_RADIUS: u32 = 0x3C96_9696;

/// 0.1
pub const TENTH: u32 = 0x3DCC_CCCD;

/// 0.5
pub const HALF: u32 = 0x3F00_0000;

/// 1.333
pub const FOUR_THIRDS: u32 = 0x3FAA_9FBE;

/// 1.7
pub const ONE_POINT_SEVEN: u32 = 0x3FD9_999A;

/// 2.0
pub const TWO: u32 = 0x4000_0000;

/// 3.0
pub const THREE: u32 = 0x4040_0000;

/// 3.2
pub const THREE_POINT_TWO: u32 = 0x404C_CCCD;

/// 9.8
pub const STANDARD_GRAVITY: u32 = 0x411C_CCCD;

/// 32.0
pub const THIRTY_TWO: u32 = 0x4200_0000;

/// Every tunable parameter of the simulation. Fields that hold a number with
/// a fraction hold its single-precision bit pattern.
#[derive(Clone, Copy, Debug, PartialEq, Eq)]
pub struct Settings {
    /// Particles generated per frame.
    pub gen_per_frame: i32,
    /// Particle count.
    pub particles: usize,
    /// Workgroup count: `particles / workgroup_size`, rounded down.
    pub workgroups: usize,
    /// Particles per workgroup.
    pub workgroup_size: usize,
    pub max_radius: u32,
    pub min_radius: u32,
    /// Cap on bonds per particle.
    pub max_bonds: usize,
    /// Cap on contacts per particle.
    pub max_contacts: usize,
    pub max_h_velocity: u32,
    pub min_h_velocity: u32,
    pub max_v_velocity: u32,
    pub min_v_velocity: u32,
    pub structure: Structure,
    /// Width of the grid, in particles; read only for `Structure::Grid`.
    pub grid_width: u32,
    /// Whether radii vary between `min_radius` and `max_radius`.
    pub variable_rad: bool,
    /// Whether the interaction surface is open.
    pub settings_menu: bool,
    /// In a grid with varying radii, `max_radius / min_radius`.
    pub holeyness: u32,
    /// Whether an edit of one world bound rescales the other.
    pub maintain_ar: bool,
    pub hor_bound: u32,
    pub vert_bound: u32,
    pub gravity: bool,
    pub gravity_acceleration: u32,
    pub bonds: bool,
    pub bond_tearing: bool,
    /// Force beyond which a bond tears.
    pub bond_force_limit: u32,
    pub stiffness: u32,
    pub collisions: bool,
    pub friction: bool,
    pub friction_coefficient: u32,
    pub rotation: bool,
    pub linear_contact_bonds: bool,
    /// Set by every edit of a parameter that the collision pass reads, cleared
    /// when the collision words are taken.
    pub changed_collision_settings: bool,
    pub scale: u32,
    pub circular_particles: bool,
    pub render_rot: bool,
    pub color_code_rot: bool,
    /// Number of colour buckets.
    pub colors: i32,
    pub render_bonds: bool,
    /// Set while a two-stage run is active; closes every setup control.
    pub two_part: bool,
}

/// `lo` and `hi` are in order as the ends of a range: `hi` is not less than
/// `lo`. This holds of every pair with an end that is "not a number".
pub open spec fn in_order(lo: u32, hi: u32) -> bool {
    !less(hi, lo)
}

/// The quotients that the initial record is made with: 0.1 by 3.2 is
/// 0.03125 exactly, since the two have one significand; that by 1.7 rounds;
/// the scale is one by the height of the world, which is one.
pub proof fn lemma_initial_quotients()
    ensures
        quotient_of(TENTH, THREE_POINT_TWO) == GREATEST_RADIUS,
        quotient_of(GREATEST_RADIUS, ONE_POINT_SEVEN) == LEAST_RADIUS,
        quotient_of(ONE, ONE) == ONE,
{
    lemma_one_is_neutral(ONE);
    lemma2_to64();
    let unit = pow2(246);
    lemma_pow2_pos(246);
    // 0.1 / 3.2
    assert(TENTH / BINADE == 123 && TENTH % BINADE == 0x4C_CCCD);
    assert(THREE_POINT_TWO / BINADE == 128 && THREE_POINT_TWO % BINADE == 0x4C_CCCD);
    assert(GREATEST_RADIUS / BINADE == 122 && GREATEST_RADIUS % BINADE == 0);
    lemma_pow2_adds(122, 149);
    lemma_pow2_adds(121, 127);
    lemma_pow2_adds(2, 246);
    lemma_pow2_adds(23, 248);
    assert(weight(TENTH) * pow2(149) == weight(GREATEST_RADIUS) * weight(THREE_POINT_TWO))
        by (nonlinear_arith)
        requires
            weight(TENTH) == 0xCC_CCCD * pow2(122),
            weight(THREE_POINT_TWO) == 0xCC_CCCD * pow2(127),
            weight(GREATEST_RADIUS) == 0x80_0000 * pow2(121),
            pow2(122) * pow2(149) == pow2(271),
            pow2(121) * pow2(127) == pow2(248),
            pow2(271) == 0x80_0000 * pow2(248),
    ;
    lemma_pow2_pos(127);
    assert(weight(THREE_POINT_TWO) > 0) by (nonlinear_arith)
        requires
            weight(THREE_POINT_TWO) == 0xCC_CCCD * pow2(127),
            pow2(127) > 0,
    ;
    lemma_exact(GREATEST_RADIUS, weight(THREE_POINT_TWO));
    // 0.03125 / 1.7
    let low = (LEAST_RADIUS - 1) as u32;
    let high = (LEAST_RADIUS + 1) as u32;
    assert(ONE_POINT_SEVEN / BINADE == 127 && ONE_POINT_SEVEN % BINADE == 0x59_999A);
    assert(LEAST_RADIUS / BINADE == 121 && LEAST_RADIUS % BINADE == 0x16_9696);
    assert(low / BINADE == 121 && low % BINADE == 0x16_9695);
    assert(high / BINADE == 121 && high % BINADE == 0x16_9697);
    lemma_pow2_adds(121, 149);
    lemma_pow2_adds(24, 246);
    lemma_pow2_adds(120, 126);
    let n = weight(GREATEST_RADIUS) * pow2(149);
    let d = weight(ONE_POINT_SEVEN);
    assert(n == 0x80_0000 * (0x100_0000 * unit)) by (nonlinear_arith)
        requires
            n == (0x80_0000 * pow2(121)) * pow2(149),
            pow2(121) * pow2(149) == pow2(270),
            pow2(270) == 0x100_0000 * unit,
    ;
    lemma_pow2_pos(126);
    assert(d > 0) by (nonlinear_arith)
        requires
            d == 0xD9_999A * pow2(126),
            pow2(126) > 0,
    ;
    assert((weight(LEAST_RADIUS) + weight(high)) * d == (0x12D_2D2D * 0xD9_999A) * unit)
        by (nonlinear_arith)
        requires
            weight(LEAST_RADIUS) == 0x96_9696 * pow2(120),
            weight(high) == 0x96_9697 * pow2(120),
            d == 0xD9_999A * pow2(126),
            pow2(120) * pow2(126) == unit,
    ;
    assert((weight(low) + weight(LEAST_RADIUS)) * d == (0x12D_2D2B * 0xD9_999A) * unit)
        by (nonlinear_arith)
        requires
            weight(LEAST_RADIUS) == 0x96_9696 * pow2(120),
            weight(low) == 0x96_9695 * pow2(120),
            d == 0xD9_999A * pow2(126),
            pow2(120) * pow2(126) == unit,
    ;
    assert(nearest(LEAST_RADIUS, n, d)) by (nonlinear_arith)
        requires
            n == 0x80_0000 * (0x100_0000 * unit),
            (weight(LEAST_RADIUS) + weight(high)) * d == (0x12D_2D2D * 0xD9_999A) * unit,
            (weight(low) + weight(LEAST_RADIUS)) * d == (0x12D_2D2B * 0xD9_999A) * unit,
            unit > 0,
            high == LEAST_RADIUS + 1,
            low == LEAST_RADIUS - 1,
    ;
    lemma_rounded(LEAST_RADIUS, n, d);
}

impl Settings {
    /// The record that `new` returns.
    pub open spec fn initial() -> Settings {
        Settings {
            gen_per_frame: 1,
            particles: 256,
            workgroups: 1,
            workgroup_size: 256,
            max_radius: GREATEST_RADIUS,
            min_radius: LEAST_RADIUS,
            max_bonds: 6,
            max_contacts: 8,
            max_h_velocity: ZERO,
            min_h_velocity: ZERO,
            max_v_velocity: ZERO,
            min_v_velocity: ZERO,
            structure: Structure::Grid,
            grid_width: THIRTY_TWO,
            variable_rad: true,
            settings_menu: false,
            holeyness: ONE_POINT_SEVEN,
            maintain_ar: true,
            hor_bound: FOUR_THIRDS,
            vert_bound: ONE,
            gravity: true,
            gravity_acceleration: STANDARD_GRAVITY,
            bonds: true,
            bond_tearing: false,
            bond_force_limit: HALF,
            stiffness: TENTH,
            collisions: true,
            friction: true,
            friction_coefficient: HALF,
            rotation: true,
            linear_contact_bonds: true,
            changed_collision_settings: false,
            scale: ONE,
            circular_particles: true,
            render_rot: false,
            color_code_rot: false,
            colors: 32,
            render_bonds: true,
            two_part: false,
        }
    }

    /// The record that `reset` leaves: the initial one, set up for the second
    /// experiment in a world of 3 by 2 with the interaction surface open.
    pub open spec fn experiment() -> Settings {
        Settings {
            particles: 1024,
            workgroups: 4,
            max_bonds: 4,
            structure: Structure::Exp2,
            settings_menu: true,
            hor_bound: THREE,
            vert_bound: TWO,
            ..Settings::initial()
        }
    }

    /// The derived fields agree with those they derive from, and each
    /// velocity range is in order.
    pub open spec fn wf(self) -> bool {
        &&& self.workgroup_size > 0
        &&& self.workgroups == self.particles / self.workgroup_size
        &&& in_order(self.min_h_velocity, self.max_h_velocity)
        &&& in_order(self.min_v_velocity, self.max_v_velocity)
    }

    /// The initial record.
    pub fn new() -> (s: Self)
        ensures
            s == Settings::initial(),
            s.wf(),
    {
        proof {
            lemma_initial_quotients();
        }
        let workgroup_size: usize = 256;
        let particles: usize = 256;
        let max_radius = quotient(TENTH, THREE_POINT_TWO);
        let holeyness = ONE_POINT_SEVEN;
        let vert_bound = ONE;
        Settings {
            gen_per_frame: 1,
            particles,
            workgroups: particles / workgroup_size,
            workgroup_size,
            max_radius,
            min_radius: quotient(max_radius, holeyness),
            max_bonds: 6,
            max_contacts: 8,
            max_h_velocity: ZERO,
            min_h_velocity: ZERO,
            max_v_velocity: ZERO,
            min_v_velocity: ZERO,
            structure: Structure::Grid,
            grid_width: THIRTY_TWO,
            variable_rad: true,
            settings_menu: false,
            holeyness,
            maintain_ar: true,
            hor_bound: FOUR_THIRDS,
            vert_bound,
            gravity: true,
            gravity_acceleration: STANDARD_GRAVITY,
            bonds: true,
            bond_tearing: false,
            bond_force_limit: HALF,
            stiffness: TENTH,
            collisions: true,
            friction: true,
            friction_coefficient: HALF,
            rotation: true,
            linear_contact_bonds: true,
            changed_collision_settings: false,
            scale: quotient(ONE, vert_bound),
            circular_particles: true,
            render_rot: false,
            color_code_rot: false,
            colors: 32,
            render_bonds: true,
            two_part: false,
        }
    }

    /// Replaces the whole record by the experiment preset, whatever it held.
    pub fn reset(&mut self)
        ensures
            *final(self) == Settings::experiment(),
            final(self).wf(),
    {
        let mut preset = Settings::new();
        preset.workgroups = 4;
        preset.particles = preset.workgroup_size * preset.workgroups;
        preset.max_bonds = 4;
        preset.structure = Structure::Exp2;
        preset.settings_menu = true;
        preset.hor_bound = THREE;
        preset.vert_bound = TWO;
        *self = preset;
    }
}

impl Default for Settings {
    /// The initial record.
    fn default() -> (s: Self)
        ensures
            s == Settings::initial(),
    {
        Settings::new()
    }
}

} // verus!
