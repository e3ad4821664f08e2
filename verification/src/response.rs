//! What becomes of an entity's motion once it is known whether the path
//! of the tick met a solid voxel.

use vstd::prelude::*;
use crate::ray::RayImpact;
use crate::side::Side;
use crate::space::{Position, Velocity};

verus! {

/// The position to commit. Without an impact it is the target. With one
/// it is the point of impact, facing as the target does: a collision
/// never holds back a turn of the head.
pub open spec fn resolved_position(target: Position, impact: Option<RayImpact>) -> Position {
    match impact {
        None => target,
        Some(hit) => Position {
            x: hit.pos.x,
            y: hit.pos.y,
            z: hit.pos.z,
            pitch: target.pitch,
            yaw: target.yaw,
        },
    }
}

/// The velocity to commit. An impact stops the motion along the axis of
/// the face that was met and leaves the other two components alone; an
/// impact through no face, and no impact, leave all three.
pub open spec fn resolved_velocity(velocity: Velocity, impact: Option<RayImpact>) -> Velocity {
    match impact {
        None => velocity,
        Some(hit) => match hit.face {
            Side::WEST | Side::EAST => Velocity { x: 0, ..velocity },
            Side::TOP | Side::BOTTOM => Velocity { y: 0, ..velocity },
            Side::NORTH | Side::SOUTH => Velocity { z: 0, ..velocity },
            Side::NONE => velocity,
        },
    }
}

/// Whether the entity stands on the ground afterwards. Unhindered motion
/// leaves the ground; an impact from above onto a voxel puts the entity
/// on it; any other impact changes nothing.
pub open spec fn resolved_grounded(grounded: bool, impact: Option<RayImpact>) -> bool {
    match impact {
        None => false,
        Some(hit) => hit.face == Side::BOTTOM || grounded,
    }
}

/// Settles one tick of motion: returns the position to commit and
/// corrects `velocity` and `grounded` for the impact, if there was one.
/// `previous`, the position before the tick, has no part in the outcome.
pub fn resolve(
    previous: Position,
    tentative_new: Position,
    velocity: &mut Velocity,
    grounded: &mut bool,
    impact: Option<RayImpact>,
) -> (committed: Position)
    ensures
        committed == resolved_position(tentative_new, impact),
        *final(velocity) == resolved_velocity(*old(velocity), impact),
        *final(grounded) == resolved_grounded(*old(grounded), impact),
{
    match impact {
        None => {
            *grounded = false;
            tentative_new
        },
        Some(hit) => {
            match hit.face {
                Side::WEST | Side::EAST => {
                    velocity.x = 0;
                },
                Side::TOP => {
                    velocity.y = 0;
                },
                Side::BOTTOM => {
                    velocity.y = 0;
                    *grounded = true;
                },
                Side::NORTH | Side::SOUTH => {
                    velocity.z = 0;
                },
                Side::NONE => {},
            }
            Position {
                x: hit.pos.x,
                y: hit.pos.y,
                z: hit.pos.z,
                pitch: tentative_new.pitch,
                yaw: tentative_new.yaw,
            }
        },
    }
}

} // verus!
