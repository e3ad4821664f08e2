//! What holds of every tick and of every cast.

use vstd::prelude::*;
use vstd::arithmetic::div_mod::lemma_div_multiples_vanish;
use crate::fraction::lemma_toward_zero_shrinks;
use crate::motion::{advanced, Physics};
use crate::ray::{
    castable, collision, crossing_coordinate, lane_sound, walked, Axis, Lane, RayImpact, Walk,
};
use crate::side::Side;
use crate::space::{BlockPosition, Position, UNITS_PER_BLOCK};
use crate::system::{ticked, Body};
use crate::world::World;

verus! {

/// Whether every lane of `walk` is one that a walk from `origin` can be
/// in.
pub open spec fn walk_sound(walk: Walk, origin: Position) -> bool {
    &&& lane_sound(walk.x, origin.x as int)
    &&& lane_sound(walk.y, origin.y as int)
    &&& lane_sound(walk.z, origin.z as int)
}

/// Whether `walk` belongs to the path from `origin` to `target`: its
/// lanes are sound and span the path.
pub open spec fn walk_on_path(walk: Walk, origin: Position, target: Position) -> bool {
    &&& castable(origin, target)
    &&& walk_sound(walk, origin)
    &&& lane_on_path(walk.x, target.x - origin.x)
    &&& lane_on_path(walk.y, target.y - origin.y)
    &&& lane_on_path(walk.z, target.z - origin.z)
}

/// Whether a lane spans the distance `travel` in its direction.
pub open spec fn lane_on_path(lane: Lane, travel: int) -> bool {
    &&& lane.step == 1 ==> travel == lane.span
    &&& lane.step == -1 ==> travel == -lane.span
    &&& lane.step == 0 ==> travel == 0
}

/// Whether `hit` lies on the face that it names: the point of impact is
/// on the plane of the voxel's boundary that the path came through, and
/// an impact through no face is at `origin`, inside the voxel.
pub open spec fn on_face(hit: RayImpact, origin: Position) -> bool {
    match hit.face {
        Side::WEST => hit.pos.x == hit.block.x * UNITS_PER_BLOCK,
        Side::EAST => hit.pos.x == (hit.block.x + 1) * UNITS_PER_BLOCK,
        Side::TOP => hit.pos.y == hit.block.y * UNITS_PER_BLOCK,
        Side::BOTTOM => hit.pos.y == (hit.block.y + 1) * UNITS_PER_BLOCK,
        Side::SOUTH => hit.pos.z == hit.block.z * UNITS_PER_BLOCK,
        Side::NORTH => hit.pos.z == (hit.block.z + 1) * UNITS_PER_BLOCK,
        Side::NONE => {
            &&& hit.block == origin.block_spec()
            &&& hit.pos.x == origin.x
            &&& hit.pos.y == origin.y
            &&& hit.pos.z == origin.z
        },
    }
}

/// The start of a walk belongs to its path.
pub proof fn lemma_start_on_path(origin: Position, target: Position)
    requires
        castable(origin, target),
    ensures
        walk_on_path(Walk::start(origin, target), origin, target),
{
}

/// A step along the leading axis keeps a walk on its path, as long as the
/// crossing lies before the target.
pub proof fn lemma_step_on_path(walk: Walk, origin: Position, target: Position, axis: Axis)
    requires
        walk_on_path(walk, origin, target),
        walk.leading() == Some(axis),
        walk.lane(axis).gap <= walk.lane(axis).span,
    ensures
        walk_on_path(walk.stepped(axis), origin, target),
{
}

/// The boundary that a path crosses is the point of the path at the
/// moment of the crossing: along the axis of the crossing, the fraction
/// `gap / span` of the travel leads exactly onto the boundary.
pub proof fn lemma_crossing_is_on_path(lane: Lane, origin: int, travel: int)
    requires
        lane.span > 0,
        0 <= lane.gap,
        lane.step == 1 || lane.step == -1,
        lane_on_path(lane, travel),
    ensures
        crossing_coordinate(origin, travel, true, lane) == crossing_coordinate(
            origin,
            travel,
            false,
            lane,
        ),
{
    lemma_div_multiples_vanish(lane.gap, lane.span);
    if lane.gap == 0 {
        assert(lane.span * lane.gap == 0) by (nonlinear_arith)
            requires
                lane.gap == 0,
        ;
    }
}

/// What the rest of a walk finds is a solid voxel, met on the face that
/// the impact names.
pub proof fn lemma_walked_impact(world: &World, origin: Position, target: Position, walk: Walk)
    requires
        walk_on_path(walk, origin, target),
        walked(world, origin, target, walk) is Some,
    ensures
        world.solid_at(walked(world, origin, target, walk)->Some_0.block),
        on_face(walked(world, origin, target, walk)->Some_0, origin),
        walked(world, origin, target, walk)->Some_0.face != Side::NONE,
        walked(world, origin, target, walk)->Some_0.pos.pitch == target.pitch,
        walked(world, origin, target, walk)->Some_0.pos.yaw == target.yaw,
    decreases walk.remaining(),
{
    let axis = walk.leading()->Some_0;
    let next = walk.stepped(axis);
    lemma_step_on_path(walk, origin, target, axis);
    if !world.solid_at(next.block()) {
        lemma_walked_impact(world, origin, target, next);
    }
}

/// An impact is never inside thin air: the voxel that a cast reports is
/// solid, the point of impact lies on the face that the impact names,
/// and the impact faces as the target does.
pub proof fn lemma_impact_on_solid_face(world: &World, origin: Position, target: Position)
    requires
        castable(origin, target),
        collision(world, origin, target) is Some,
    ensures
        world.solid_at(collision(world, origin, target)->Some_0.block),
        on_face(collision(world, origin, target)->Some_0, origin),
        collision(world, origin, target)->Some_0.pos.pitch == target.pitch,
        collision(world, origin, target)->Some_0.pos.yaw == target.yaw,
{
    if !world.solid_at(origin.block_spec()) {
        lemma_start_on_path(origin, target);
        lemma_walked_impact(world, origin, target, Walk::start(origin, target));
    }
}

/// Two walks through worlds with the same solid voxels find the same.
pub proof fn lemma_walked_same_solids(
    first: &World,
    second: &World,
    origin: Position,
    target: Position,
    walk: Walk,
)
    requires
        forall|block: BlockPosition| first.solid_at(block) == second.solid_at(block),
    ensures
        walked(first, origin, target, walk) == walked(second, origin, target, walk),
    decreases walk.remaining(),
{
    match walk.leading() {
        None => {},
        Some(axis) => {
            let lane = walk.lane(axis);
            let next = walk.stepped(axis);
            if lane.gap <= lane.span && !first.solid_at(next.block()) {
                lemma_walked_same_solids(first, second, origin, target, next);
            }
        },
    }
}

/// A cast sees nothing of a world but which voxels are solid: two worlds
/// with the same solid voxels give the same outcome, whatever they hold
/// elsewhere, air or regions that are not loaded.
pub proof fn lemma_collision_same_solids(
    first: &World,
    second: &World,
    origin: Position,
    target: Position,
)
    requires
        forall|block: BlockPosition| first.solid_at(block) == second.solid_at(block),
    ensures
        collision(first, origin, target) == collision(second, origin, target),
{
    lemma_walked_same_solids(first, second, origin, target, Walk::start(origin, target));
}

/// A tick sees nothing of a world but which voxels are solid: an entity
/// is moved alike through two worlds with the same solid voxels.
pub proof fn lemma_tick_same_solids(first: &World, second: &World, physics: Physics, body: Body)
    requires
        forall|block: BlockPosition| first.solid_at(block) == second.solid_at(block),
    ensures
        ticked(first, physics, body) == ticked(second, physics, body),
{
    let velocity = physics.integrated(body.velocity, body.grounded());
    let target = advanced(body.position, velocity);
    lemma_collision_same_solids(first, second, body.position, target);
}

/// A walk through a world without a solid voxel finds nothing.
pub proof fn lemma_walked_open(world: &World, origin: Position, target: Position, walk: Walk)
    requires
        forall|block: BlockPosition| !world.solid_at(block),
    ensures
        walked(world, origin, target, walk) is None,
    decreases walk.remaining(),
{
    match walk.leading() {
        None => {},
        Some(axis) => {
            let lane = walk.lane(axis);
            if lane.gap <= lane.span {
                lemma_walked_open(world, origin, target, walk.stepped(axis));
            }
        },
    }
}

/// In a world without a solid voxel, be it all air, all not loaded or a
/// mix of the two, an entity moves freely: it ends where its velocity
/// after gravity and drag takes it, keeps that velocity, and does not
/// stand on the ground.
pub proof fn lemma_free_fall(world: &World, physics: Physics, body: Body)
    requires
        forall|block: BlockPosition| !world.solid_at(block),
    ensures
        ticked(world, physics, body).velocity == physics.integrated(
            body.velocity,
            body.grounded(),
        ),
        ticked(world, physics, body).position == advanced(
            body.position,
            ticked(world, physics, body).velocity,
        ),
        ticked(world, physics, body).on_ground != Some(true),
{
    let velocity = physics.integrated(body.velocity, body.grounded());
    let target = advanced(body.position, velocity);
    lemma_walked_open(world, body.position, target, Walk::start(body.position, target));
}

/// Whenever the cast of a tick finds nothing, the entity moves freely: it
/// ends where its velocity after gravity and drag takes it, keeps that
/// velocity, and does not stand on the ground.
pub proof fn lemma_unhindered_motion(world: &World, physics: Physics, body: Body)
    requires
        collision(
            world,
            body.position,
            advanced(body.position, physics.integrated(body.velocity, body.grounded())),
        ) is None,
    ensures
        ticked(world, physics, body).velocity == physics.integrated(
            body.velocity,
            body.grounded(),
        ),
        ticked(world, physics, body).position == advanced(
            body.position,
            ticked(world, physics, body).velocity,
        ),
        ticked(world, physics, body).on_ground != Some(true),
{
}

/// An impact on a face across the x axis stops the motion along x alone:
/// the velocity along y and z is what gravity and drag made of it, and
/// the record of standing on the ground is as it was.
pub proof fn lemma_side_impact(world: &World, physics: Physics, body: Body, hit: RayImpact)
    requires
        collision(
            world,
            body.position,
            advanced(body.position, physics.integrated(body.velocity, body.grounded())),
        ) == Some(hit),
        hit.face == Side::WEST || hit.face == Side::EAST,
    ensures
        ticked(world, physics, body).velocity.x == 0,
        ticked(world, physics, body).velocity.y == physics.integrated(
            body.velocity,
            body.grounded(),
        ).y,
        ticked(world, physics, body).velocity.z == physics.integrated(
            body.velocity,
            body.grounded(),
        ).z,
        ticked(world, physics, body).on_ground == body.on_ground,
        ticked(world, physics, body).position.x == hit.pos.x,
        ticked(world, physics, body).position.y == hit.pos.y,
        ticked(world, physics, body).position.z == hit.pos.z,
{
}

/// An entity stands on the ground after a tick only if the tick ended
/// in an impact, and then only if the impact came from above onto a
/// voxel or the entity stood on the ground before.
pub proof fn lemma_grounded_needs_impact(world: &World, physics: Physics, body: Body)
    requires
        ticked(world, physics, body).on_ground == Some(true),
    ensures
        collision(
            world,
            body.position,
            advanced(body.position, physics.integrated(body.velocity, body.grounded())),
        ) is Some,
        collision(
            world,
            body.position,
            advanced(body.position, physics.integrated(body.velocity, body.grounded())),
        )->Some_0.face == Side::BOTTOM || body.on_ground == Some(true),
{
}

/// A tick is a function of the world, the constants and the entity: two
/// outcomes of the same tick are the same.
pub proof fn lemma_tick_deterministic(
    world: &World,
    physics: Physics,
    body: Body,
    first: Body,
    second: Body,
)
    requires
        first == ticked(world, physics, body),
        second == ticked(world, physics, body),
    ensures
        first == second,
{
}

/// Under the standard constants a tick keeps a velocity in range.
pub proof fn lemma_velocity_stays_in_range(world: &World, body: Body)
    requires
        body.in_range(),
    ensures
        ticked(world, Physics::standard(), body).velocity.in_range(),
{
    let physics = Physics::standard();
    lemma_toward_zero_shrinks(body.velocity.x as int, 980_000, 1_000_000);
    lemma_toward_zero_shrinks(body.velocity.z as int, 980_000, 1_000_000);
    lemma_toward_zero_shrinks(body.velocity.y - 80_000, 980_000, 1_000_000);
}

} // verus!
