//! A colony of digging, foraging and gardening ants on a cubic grid of
//! tiles, steered by decaying scent fields and fed by a fungus garden.
//!
//! Quantities that are fractions of a unit are kept in fixed point: scent
//! in ten-thousandths, hunger in thousandths and fungus growth in
//! millionths.
use vstd::prelude::*;

pub mod ants;
pub mod arith;
pub mod pheromones;
pub mod rng;
pub mod search;
pub mod sim;
pub mod tasks;
pub mod time_controls;
pub mod world;

verus! {

/// Side length of the cubic world.
pub const WORLD_SIZE: usize = 64;

/// Number of tiles in one horizontal layer.
pub const LAYER_CELLS: usize = 4096;

/// Number of tiles in the world.
pub const CELLS: usize = 262144;

/// The z-level of the ground surface.
pub const SURFACE_LEVEL: usize = 48;

/// Whether a coordinate triple lies inside the world.
pub open spec fn in_bounds(x: int, y: int, z: int) -> bool {
    0 <= x < 64 && 0 <= y < 64 && 0 <= z < 64
}

/// Position of the tile (x, y, z) in flat, layer-major storage.
pub open spec fn cell_index(x: int, y: int, z: int) -> int {
    z * 4096 + y * 64 + x
}

/// Distinct in-bounds cells have distinct storage positions.
pub proof fn lemma_cell_index(x: int, y: int, z: int)
    requires
        in_bounds(x, y, z),
    ensures
        0 <= cell_index(x, y, z) < CELLS,
        forall|a: int, b: int, c: int|
            #![trigger cell_index(a, b, c)]
            in_bounds(a, b, c) && cell_index(a, b, c) == cell_index(x, y, z) ==> a == x && b == y
                && c == z,
{
}

/// Exec form of `cell_index` for in-bounds coordinates.
pub fn index_of(x: usize, y: usize, z: usize) -> (r: usize)
    requires
        in_bounds(x as int, y as int, z as int),
    ensures
        r == cell_index(x as int, y as int, z as int),
        r < CELLS,
{
    z * LAYER_CELLS + y * WORLD_SIZE + x
}

} // verus!
