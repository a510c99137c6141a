//! The arrangements in which particles can be generated.

use vstd::prelude::*;

verus! {

/// How the particles are laid out when the simulation is (re)initialised.
#[derive(Clone, Copy, Debug, PartialEq, Eq, Structural)]
pub enum Structure {
    /// A regular grid, `grid_width` particles wide.
    Grid,
    /// Uniformly random positions.
    Random,
    Exp1,
    Exp2,
    Exp3,
    Exp4,
    Exp5,
    Exp6,
}

impl Structure {
    /// Whether this is the grid arrangement, the only one with a width and a
    /// holeyness.
    pub fn is_grid(&self) -> (r: bool)
        ensures
            r == (*self == Structure::Grid),
    {
        match self {
            Structure::Grid => true,
            _ => false,
        }
    }
}

} // verus!
