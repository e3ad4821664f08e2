//! Gravity, drag and the position an entity would reach if nothing were
//! in its way.

use vstd::prelude::*;
use crate::fraction::{lemma_toward_zero_shrinks, scale_toward_zero, toward_zero};
use crate::space::{within, Position, Velocity, UNITS_PER_BLOCK, VELOCITY_LIMIT};

verus! {

/// An axis-aligned box, by its two opposite corners in units.
#[derive(Debug, Clone, Copy, PartialEq, Eq, Structural)]
pub struct BoundingBox {
    pub min_x: i64,
    pub min_y: i64,
    pub min_z: i64,
    pub max_x: i64,
    pub max_y: i64,
    pub max_z: i64,
}

/// The constants that govern how an entity falls and slows down.
///
/// `gravity` is in units per tick per tick. `drag` is the share of its
/// velocity that an entity loses each tick, in parts of
/// `UNITS_PER_BLOCK`.
#[derive(Debug, Clone, Copy, PartialEq, Eq, Structural)]
pub struct Physics {
    pub gravity: i64,
    pub drag: i64,
    pub bounding_box: BoundingBox,
}

impl Physics {
    /// The constants of a living entity: gravity of 0.08 blocks per tick
    /// per tick, drag of 0.02, and a box 0.6 blocks wide and 1.8 high.
    pub open spec fn standard() -> Physics {
        Physics {
            gravity: 80_000,
            drag: 20_000,
            bounding_box: BoundingBox {
                min_x: 0,
                min_y: 0,
                min_z: 0,
                max_x: 600_000,
                max_y: 1_800_000,
                max_z: 600_000,
            },
        }
    }

    /// Whether the constants are usable: gravity pulls down by no more
    /// than `VELOCITY_LIMIT`, and drag takes between nothing and all.
    pub open spec fn well_formed(self) -> bool {
        &&& 0 <= self.gravity <= VELOCITY_LIMIT
        &&& 0 <= self.drag <= UNITS_PER_BLOCK
    }

    /// One velocity component after drag.
    pub open spec fn damped(self, component: int) -> int {
        toward_zero(component, UNITS_PER_BLOCK - self.drag, UNITS_PER_BLOCK as int)
    }

    /// The velocity after one tick of gravity and drag. In the air gravity
    /// is taken from the vertical component first and drag then slows all
    /// three; on the ground only the horizontal components are slowed.
    pub open spec fn integrated(self, velocity: Velocity, grounded: bool) -> Velocity {
        Velocity {
            x: self.damped(velocity.x as int) as i64,
            y: if grounded {
                velocity.y
            } else {
                self.damped(velocity.y - self.gravity) as i64
            },
            z: self.damped(velocity.z as int) as i64,
        }
    }

    /// Tests whether the constants are usable.
    pub fn is_well_formed(&self) -> (ok: bool)
        ensures
            ok == self.well_formed(),
    {
        0 <= self.gravity && self.gravity <= VELOCITY_LIMIT && 0 <= self.drag && self.drag
            <= UNITS_PER_BLOCK
    }

    /// Applies one tick of gravity and drag to `velocity`.
    pub fn integrate(&self, velocity: Velocity, grounded: bool) -> (next: Velocity)
        requires
            self.well_formed(),
            velocity.in_range(),
        ensures
            next == self.integrated(velocity, grounded),
            next.x == self.damped(velocity.x as int),
            next.z == self.damped(velocity.z as int),
            !grounded ==> next.y == self.damped(velocity.y - self.gravity),
            grounded ==> next.y == velocity.y,
            within(next.x as int, VELOCITY_LIMIT as int),
            within(next.y as int, VELOCITY_LIMIT + self.gravity),
            within(next.z as int, VELOCITY_LIMIT as int),
            addable(next),
    {
        let keep: u64 = (UNITS_PER_BLOCK - self.drag) as u64;
        let whole: u64 = UNITS_PER_BLOCK as u64;
        proof {
            lemma_toward_zero_shrinks(velocity.x as int, keep as int, whole as int);
            lemma_toward_zero_shrinks(velocity.y - self.gravity, keep as int, whole as int);
            lemma_toward_zero_shrinks(velocity.z as int, keep as int, whole as int);
        }
        let x: i64 = scale_toward_zero(velocity.x, keep, whole);
        let y: i64 = if grounded {
            velocity.y
        } else {
            scale_toward_zero(velocity.y - self.gravity, keep, whole)
        };
        let z: i64 = scale_toward_zero(velocity.z, keep, whole);
        Velocity { x, y, z }
    }
}

impl Default for Physics {
    /// The constants of a living entity.
    fn default() -> (physics: Physics)
        ensures
            physics == Physics::standard(),
            physics.well_formed(),
    {
        Physics {
            gravity: 80_000,
            drag: 20_000,
            bounding_box: BoundingBox {
                min_x: 0,
                min_y: 0,
                min_z: 0,
                max_x: 600_000,
                max_y: 1_800_000,
                max_z: 600_000,
            },
        }
    }
}

/// The position reached from `position` by moving along `velocity` for
/// one tick, facing the same way.
pub open spec fn advanced(position: Position, velocity: Velocity) -> Position {
    Position {
        x: (position.x + velocity.x) as i64,
        y: (position.y + velocity.y) as i64,
        z: (position.z + velocity.z) as i64,
        pitch: position.pitch,
        yaw: position.yaw,
    }
}

/// Whether `velocity` is small enough to be added to a position in range:
/// each component lies within twice `VELOCITY_LIMIT` of zero.
pub open spec fn addable(velocity: Velocity) -> bool {
    &&& -2 * VELOCITY_LIMIT <= velocity.x <= 2 * VELOCITY_LIMIT
    &&& -2 * VELOCITY_LIMIT <= velocity.y <= 2 * VELOCITY_LIMIT
    &&& -2 * VELOCITY_LIMIT <= velocity.z <= 2 * VELOCITY_LIMIT
}

/// Moves `position` along `velocity` for one tick. The direction the
/// entity faces is carried over.
pub fn advance(position: Position, velocity: Velocity) -> (target: Position)
    requires
        position.in_range(),
        addable(velocity),
    ensures
        target == advanced(position, velocity),
        target.x == position.x + velocity.x,
        target.y == position.y + velocity.y,
        target.z == position.z + velocity.z,
        target.pitch == position.pitch,
        target.yaw == position.yaw,
{
    Position {
        x: position.x + velocity.x,
        y: position.y + velocity.y,
        z: position.z + velocity.z,
        pitch: position.pitch,
        yaw: position.yaw,
    }
}

/// Gravity and drag leave a velocity in range small enough to be added
/// to a position.
pub proof fn lemma_integrated_addable(physics: Physics, velocity: Velocity, grounded: bool)
    requires
        physics.well_formed(),
        velocity.in_range(),
    ensures
        addable(physics.integrated(velocity, grounded)),
{
    let keep = UNITS_PER_BLOCK - physics.drag;
    lemma_toward_zero_shrinks(velocity.x as int, keep, UNITS_PER_BLOCK as int);
    lemma_toward_zero_shrinks(velocity.y - physics.gravity, keep, UNITS_PER_BLOCK as int);
    lemma_toward_zero_shrinks(velocity.z as int, keep, UNITS_PER_BLOCK as int);
}

} // verus!
