//! Fixed-point world coordinates and the voxel grid laid over them.
//!
//! Every length is a whole number of units, with `UNITS_PER_BLOCK` units
//! to the edge of one voxel, so that positions, velocities and the
//! boundaries of the grid are all exact.

use vstd::prelude::*;
use vstd::arithmetic::div_mod::lemma_fundamental_div_mod_converse;

verus! {

/// The number of units along one edge of a voxel.
pub const UNITS_PER_BLOCK: i64 = 1_000_000;

/// The largest magnitude of a position coordinate, in units.
pub const POSITION_LIMIT: i64 = 1_000_000_000_000_000_000;

/// The largest magnitude of a velocity component, in units per tick.
pub const VELOCITY_LIMIT: i64 = 1_000_000_000_000_000;

/// The coordinate of the voxel that holds the coordinate `units`: the
/// floor of `units / UNITS_PER_BLOCK`.
pub open spec fn block_of(units: int) -> int {
    units / (UNITS_PER_BLOCK as int)
}

/// Whether `value` lies within `limit` of zero.
pub open spec fn within(value: int, limit: int) -> bool {
    -limit <= value <= limit
}

/// Computes the coordinate of the voxel that holds `units`.
pub fn block_coordinate(units: i64) -> (block: i64)
    ensures
        block == block_of(units as int),
        block * UNITS_PER_BLOCK <= units < (block + 1) * UNITS_PER_BLOCK,
{
    let size: i128 = UNITS_PER_BLOCK as i128;
    let wide: i128 = units as i128;
    if wide >= 0 {
        let quotient: i128 = wide / size;
        let block: i64 = quotient as i64;
        proof {
            lemma_fundamental_div_mod_converse(
                units as int,
                size as int,
                quotient as int,
                (wide % size) as int,
            );
        }
        block
    } else {
        let lifted: i128 = size - 1 - wide;
        let quotient: i128 = lifted / size;
        let rest: i128 = lifted % size;
        let block: i64 = (-quotient) as i64;
        proof {
            lemma_fundamental_div_mod_converse(
                units as int,
                size as int,
                -(quotient as int),
                (size - 1 - rest) as int,
            );
        }
        block
    }
}

/// The integer coordinates of one voxel of the grid.
#[derive(Debug, Clone, Copy, PartialEq, Eq, Structural)]
pub struct BlockPosition {
    pub x: i64,
    pub y: i64,
    pub z: i64,
}

/// A point in the world with the direction an entity faces.
///
/// `x`, `y` and `z` are in units. `pitch` and `yaw` are angles in units of
/// their own, which motion and collision never read: they are only ever
/// carried from one position to the next.
#[derive(Debug, Clone, Copy, PartialEq, Eq, Structural)]
pub struct Position {
    pub x: i64,
    pub y: i64,
    pub z: i64,
    pub pitch: i32,
    pub yaw: i32,
}

impl Position {
    /// Whether every coordinate lies within `POSITION_LIMIT` of the origin.
    pub open spec fn in_range(self) -> bool {
        &&& within(self.x as int, POSITION_LIMIT as int)
        &&& within(self.y as int, POSITION_LIMIT as int)
        &&& within(self.z as int, POSITION_LIMIT as int)
    }

    /// The voxel that holds this point, as a model value.
    pub open spec fn block_spec(self) -> BlockPosition {
        BlockPosition {
            x: block_of(self.x as int) as i64,
            y: block_of(self.y as int) as i64,
            z: block_of(self.z as int) as i64,
        }
    }

    /// Tests whether every coordinate lies within `POSITION_LIMIT` of the
    /// origin.
    pub fn is_in_range(&self) -> (ok: bool)
        ensures
            ok == self.in_range(),
    {
        -POSITION_LIMIT <= self.x && self.x <= POSITION_LIMIT
            && -POSITION_LIMIT <= self.y && self.y <= POSITION_LIMIT
            && -POSITION_LIMIT <= self.z && self.z <= POSITION_LIMIT
    }

    /// The voxel that holds this point.
    pub fn block(&self) -> (block: BlockPosition)
        ensures
            block == self.block_spec(),
    {
        BlockPosition {
            x: block_coordinate(self.x),
            y: block_coordinate(self.y),
            z: block_coordinate(self.z),
        }
    }
}

/// The distance an entity moves in one tick, in units per tick.
#[derive(Debug, Clone, Copy, PartialEq, Eq, Structural)]
pub struct Velocity {
    pub x: i64,
    pub y: i64,
    pub z: i64,
}

impl Velocity {
    /// Whether every component lies within `VELOCITY_LIMIT` of zero.
    pub open spec fn in_range(self) -> bool {
        &&& within(self.x as int, VELOCITY_LIMIT as int)
        &&& within(self.y as int, VELOCITY_LIMIT as int)
        &&& within(self.z as int, VELOCITY_LIMIT as int)
    }

    /// Tests whether every component lies within `VELOCITY_LIMIT` of zero.
    pub fn is_in_range(&self) -> (ok: bool)
        ensures
            ok == self.in_range(),
    {
        -VELOCITY_LIMIT <= self.x && self.x <= VELOCITY_LIMIT
            && -VELOCITY_LIMIT <= self.y && self.y <= VELOCITY_LIMIT
            && -VELOCITY_LIMIT <= self.z && self.z <= VELOCITY_LIMIT
    }
}

impl Default for Velocity {
    /// The velocity of an entity at rest.
    fn default() -> (rest: Velocity)
        ensures
            rest == (Velocity { x: 0, y: 0, z: 0 }),
    {
        Velocity { x: 0, y: 0, z: 0 }
    }
}

} // verus!
