//! A small 2D physics toy: a handful of circular bodies move under simple
//! kinematics, bounce off the viewport edges, collide elastically with each
//! other and attract each other with a toy gravity law, while a bounded trail
//! of past positions fades behind each body.
//!
//! All coordinates, velocities and radii are fixed-point integers: `SCALE`
//! subunits make one world unit (one pixel of the viewport). Working on
//! integers keeps every update law exact enough to state and prove; the host
//! that draws the scene converts subunits back to screen coordinates.

use vstd::prelude::*;

pub mod body;
pub mod intmath;
pub mod randsrc;
pub mod sim;
pub mod trail;
pub mod vec2d;

verus! {

/// Coordinate subunits per world unit (one viewport pixel).
pub const SCALE: i64 = 1_000_000;

/// Largest magnitude a position component or a radius may take, in subunits
/// (one million world units). The bound keeps every intermediate product of
/// the collision and gravity formulas inside `i128`.
pub const COORD_LIMIT: i64 = 1_000_000_000_000;

/// Largest magnitude a velocity component may take, in subunits per tick
/// (one thousand world units per tick).
pub const VEL_LIMIT: i64 = 1_000_000_000;

/// Largest mass a body may have. Mass carries no unit of its own.
pub const MASS_LIMIT: i64 = 1_000;

/// Gravitational constant, scaled for the simulation.
pub const G: i64 = 1;

/// How many past positions a body's trail keeps.
pub const TRAIL_CAPACITY: usize = 100;

} // verus!
