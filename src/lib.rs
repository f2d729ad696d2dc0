//! Movement and walk-cycle animation for one tile-walking actor, and the
//! layout of the tile layers it walks on.
use vstd::prelude::*;

pub mod character;
pub mod entities;
pub mod input;
pub mod level;

verus! {

/// Side of one square tile, in world units.
pub const TILE_SIZE: i32 = 32;

} // verus!
