//! Collision detection and movement resolution for a capsule-shaped player
//! and a spherical camera moving over a static triangle-mesh terrain and a
//! set of axis-aligned boxes.
//!
//! All geometry is carried out in fixed-point integer coordinates (the caller
//! picks the unit; the constant `ONE` fixes one world unit at 100 steps, a
//! centimetre scale).  Quantities that are ratios of integers are compared by
//! cross-multiplication, so every comparison the library makes is exact, and
//! points produced by interpolation are rounded to the integer grid by floor
//! division with a stated contract.

use vstd::prelude::*;

pub mod num;
pub mod vec3;
pub mod shapes;
pub mod intersect;
pub mod terrain;
pub mod closest;
pub mod player;
pub mod camera;

verus! {

} // verus!
