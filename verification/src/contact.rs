//! The point of an impact lies on the voxel that was met.

use vstd::prelude::*;
use vstd::arithmetic::div_mod::{
    lemma_div_is_ordered, lemma_div_multiples_vanish, lemma_div_pos_is_pos,
};
use vstd::arithmetic::mul::lemma_mul_nonnegative;
use crate::fraction::{lemma_toward_zero_shrinks, toward_zero};
use crate::laws::{
    lane_on_path, lemma_impact_on_solid_face, lemma_start_on_path, lemma_step_on_path,
    walk_on_path,
};
use crate::motion::{advanced, lemma_integrated_addable, Physics};
use crate::passage::{crossing_no_later, lemma_leading_is_earliest, travel};
use crate::ray::{
    castable, collision, lane_sound, lane_start, lane_stepped, walked, Axis, Lane, Walk,
};
use crate::space::{BlockPosition, Position, UNITS_PER_BLOCK};
use crate::system::{ticked, Body};
use crate::world::World;

verus! {

/// Whether `position` lies in the voxel `block` or on one of its faces.
pub open spec fn touches(position: Position, block: BlockPosition) -> bool {
    &&& block.x * UNITS_PER_BLOCK <= position.x <= (block.x + 1) * UNITS_PER_BLOCK
    &&& block.y * UNITS_PER_BLOCK <= position.y <= (block.y + 1) * UNITS_PER_BLOCK
    &&& block.z * UNITS_PER_BLOCK <= position.z <= (block.z + 1) * UNITS_PER_BLOCK
}

/// Whether the walk came into the voxel of `first` no later than it will
/// meet the next boundary of `second`.
pub open spec fn entered_before(first: Lane, second: Lane) -> bool {
    (first.gap - UNITS_PER_BLOCK) * second.span <= second.gap * first.span
}

/// Whether a walk came into its voxel, along every axis, no later than
/// it will meet its next boundary along any axis.
pub open spec fn walk_entered(walk: Walk) -> bool {
    &&& entered_before(walk.x, walk.y)
    &&& entered_before(walk.x, walk.z)
    &&& entered_before(walk.y, walk.x)
    &&& entered_before(walk.y, walk.z)
    &&& entered_before(walk.z, walk.x)
    &&& entered_before(walk.z, walk.y)
}

/// Two lanes at their start: each is in its first voxel before the other
/// meets anything.
proof fn lemma_start_entered(origin: int, span: int, other: Lane)
    requires
        0 <= other.gap,
        0 <= other.span,
    ensures
        entered_before(lane_start(origin, span), other),
{
    let lane = lane_start(origin, span);
    assert(lane.gap <= UNITS_PER_BLOCK && lane.span >= 0);
    assert((lane.gap - UNITS_PER_BLOCK) * other.span <= other.gap * lane.span)
        by (nonlinear_arith)
        requires
            lane.gap - UNITS_PER_BLOCK <= 0,
            lane.span >= 0,
            0 <= other.gap,
            0 <= other.span,
    ;
}

/// A step along the earliest crossing keeps the order between the lane
/// that stepped and another lane.
proof fn lemma_step_entered(leading: Lane, other: Lane)
    requires
        0 <= leading.gap && 0 <= leading.span,
        0 <= other.gap && 0 <= other.span,
        other.span > 0 ==> crossing_no_later(leading, other),
        entered_before(other, leading),
    ensures
        entered_before(lane_stepped(leading), other),
        entered_before(other, lane_stepped(leading)),
{
    let stepped = lane_stepped(leading);
    if other.span > 0 {
        assert(entered_before(stepped, other));
    } else {
        assert((stepped.gap - UNITS_PER_BLOCK) * other.span <= other.gap * stepped.span)
            by (nonlinear_arith)
            requires
                other.span == 0,
                0 <= other.gap,
                0 <= stepped.span,
        ;
    }
    assert((other.gap - UNITS_PER_BLOCK) * stepped.span <= stepped.gap * other.span)
        by (nonlinear_arith)
        requires
            (other.gap - UNITS_PER_BLOCK) * leading.span <= leading.gap * other.span,
            stepped.span == leading.span,
            stepped.gap == leading.gap + UNITS_PER_BLOCK,
            0 <= other.span,
    ;
}

/// A step along the leading axis keeps a walk in its voxel in time.
proof fn lemma_walk_step_entered(walk: Walk, origin: Position, target: Position, axis: Axis)
    requires
        walk_on_path(walk, origin, target),
        walk_entered(walk),
        walk.leading() == Some(axis),
    ensures
        walk_entered(walk.stepped(axis)),
{
    match axis {
        Axis::X => {
            if walk.y.span > 0 {
                lemma_leading_is_earliest(walk, axis, Axis::Y);
            }
            if walk.z.span > 0 {
                lemma_leading_is_earliest(walk, axis, Axis::Z);
            }
            lemma_step_entered(walk.x, walk.y);
            lemma_step_entered(walk.x, walk.z);
        },
        Axis::Y => {
            if walk.x.span > 0 {
                lemma_leading_is_earliest(walk, axis, Axis::X);
            }
            if walk.z.span > 0 {
                lemma_leading_is_earliest(walk, axis, Axis::Z);
            }
            lemma_step_entered(walk.y, walk.x);
            lemma_step_entered(walk.y, walk.z);
        },
        Axis::Z => {
            if walk.x.span > 0 {
                lemma_leading_is_earliest(walk, axis, Axis::X);
            }
            if walk.y.span > 0 {
                lemma_leading_is_earliest(walk, axis, Axis::Y);
            }
            lemma_step_entered(walk.z, walk.x);
            lemma_step_entered(walk.z, walk.y);
        },
    }
}

/// At the moment of the earliest crossing, the point of the path lies,
/// along any other axis, in the voxel the walk is in or on its boundary.
proof fn lemma_point_in_cell(lane: Lane, leading: Lane, origin: int, travel: int)
    requires
        lane_sound(lane, origin),
        lane_on_path(lane, travel),
        leading.span > 0,
        0 <= leading.gap <= leading.span,
        lane.span > 0 ==> crossing_no_later(leading, lane),
        entered_before(lane, leading),
    ensures
        lane.cell * UNITS_PER_BLOCK <= origin + toward_zero(travel, leading.gap, leading.span)
            <= (lane.cell + 1) * UNITS_PER_BLOCK,
{
    if lane.span > 0 {
        let reach = (lane.span * leading.gap) / leading.span;
        lemma_mul_nonnegative(lane.span, leading.gap);
        lemma_div_pos_is_pos(lane.span * leading.gap, leading.span);
        assert(lane.span * leading.gap == leading.gap * lane.span) by (nonlinear_arith);
        assert(lane.gap * leading.span == leading.span * lane.gap) by (nonlinear_arith);
        lemma_div_is_ordered(lane.span * leading.gap, leading.span * lane.gap, leading.span);
        lemma_div_multiples_vanish(lane.gap, leading.span);
        assert(reach <= lane.gap);
        let back = lane.gap - UNITS_PER_BLOCK;
        if back > 0 {
            assert(back * leading.span == leading.span * back) by (nonlinear_arith);
            lemma_div_is_ordered(leading.span * back, lane.span * leading.gap, leading.span);
            lemma_div_multiples_vanish(back, leading.span);
        }
        assert(back <= reach);
    } else {
        assert(travel * leading.gap == 0) by (nonlinear_arith)
            requires
                travel == 0,
        ;
    }
}

/// What the rest of a walk finds, it finds at a point that lies on the
/// voxel that was met.
proof fn lemma_walked_touches(world: &World, origin: Position, target: Position, walk: Walk)
    requires
        walk_on_path(walk, origin, target),
        walk_entered(walk),
        walked(world, origin, target, walk) is Some,
    ensures
        touches(
            walked(world, origin, target, walk)->Some_0.pos,
            walked(world, origin, target, walk)->Some_0.block,
        ),
    decreases walk.remaining(),
{
    let axis = walk.leading()->Some_0;
    let lane = walk.lane(axis);
    let next = walk.stepped(axis);
    lemma_step_on_path(walk, origin, target, axis);
    lemma_walk_step_entered(walk, origin, target, axis);
    if world.solid_at(next.block()) {
        if axis != Axis::X {
            if walk.x.span > 0 {
                lemma_leading_is_earliest(walk, axis, Axis::X);
            }
            lemma_point_in_cell(walk.x, lane, origin.x as int, target.x - origin.x);
        }
        if axis != Axis::Y {
            if walk.y.span > 0 {
                lemma_leading_is_earliest(walk, axis, Axis::Y);
            }
            lemma_point_in_cell(walk.y, lane, origin.y as int, target.y - origin.y);
        }
        if axis != Axis::Z {
            if walk.z.span > 0 {
                lemma_leading_is_earliest(walk, axis, Axis::Z);
            }
            lemma_point_in_cell(walk.z, lane, origin.z as int, target.z - origin.z);
        }
    } else {
        lemma_walked_touches(world, origin, target, next);
    }
}

/// The point of an impact lies on the voxel that the impact reports: in
/// it or on one of its faces, never apart from it.
pub proof fn lemma_impact_touches_voxel(world: &World, origin: Position, target: Position)
    requires
        castable(origin, target),
        collision(world, origin, target) is Some,
    ensures
        touches(
            collision(world, origin, target)->Some_0.pos,
            collision(world, origin, target)->Some_0.block,
        ),
{
    if !world.solid_at(origin.block_spec()) {
        let walk = Walk::start(origin, target);
        lemma_start_on_path(origin, target);
        lemma_start_entered(origin.x as int, target.x - origin.x, walk.y);
        lemma_start_entered(origin.x as int, target.x - origin.x, walk.z);
        lemma_start_entered(origin.y as int, target.y - origin.y, walk.x);
        lemma_start_entered(origin.y as int, target.y - origin.y, walk.z);
        lemma_start_entered(origin.z as int, target.z - origin.z, walk.x);
        lemma_start_entered(origin.z as int, target.z - origin.z, walk.y);
        lemma_walked_touches(world, origin, target, walk);
    }
}

/// Whether `value` lies between `first` and `second`, whichever of the
/// two is the greater.
pub open spec fn between(value: int, first: int, second: int) -> bool {
    first <= value <= second || second <= value <= first
}

/// Whether `position` lies in the box that `origin` and `target` span.
pub open spec fn in_box(position: Position, origin: Position, target: Position) -> bool {
    &&& between(position.x as int, origin.x as int, target.x as int)
    &&& between(position.y as int, origin.y as int, target.y as int)
    &&& between(position.z as int, origin.z as int, target.z as int)
}

/// Whether the voxel `block`, its faces included, has a point in common
/// with the box that `origin` and `target` span.
pub open spec fn near_path(origin: Position, target: Position, block: BlockPosition) -> bool {
    exists|position: Position| #[trigger]
        touches(position, block) && in_box(position, origin, target)
}

/// What the rest of a walk finds, it finds between the origin and the
/// target.
proof fn lemma_walked_in_box(world: &World, origin: Position, target: Position, walk: Walk)
    requires
        walk_on_path(walk, origin, target),
        walked(world, origin, target, walk) is Some,
    ensures
        in_box(walked(world, origin, target, walk)->Some_0.pos, origin, target),
    decreases walk.remaining(),
{
    let axis = walk.leading()->Some_0;
    let lane = walk.lane(axis);
    let next = walk.stepped(axis);
    lemma_step_on_path(walk, origin, target, axis);
    if world.solid_at(next.block()) {
        lemma_toward_zero_shrinks(target.x - origin.x, lane.gap, lane.span);
        lemma_toward_zero_shrinks(target.y - origin.y, lane.gap, lane.span);
        lemma_toward_zero_shrinks(target.z - origin.z, lane.gap, lane.span);
    } else {
        lemma_walked_in_box(world, origin, target, next);
    }
}

/// An impact is on the way: its point lies in the box that the origin
/// and the target span, and so the voxel that was met has a point in
/// common with that box.
pub proof fn lemma_impact_near_path(world: &World, origin: Position, target: Position)
    requires
        castable(origin, target),
        collision(world, origin, target) is Some,
    ensures
        in_box(collision(world, origin, target)->Some_0.pos, origin, target),
        near_path(origin, target, collision(world, origin, target)->Some_0.block),
{
    let hit = collision(world, origin, target)->Some_0;
    if !world.solid_at(origin.block_spec()) {
        lemma_start_on_path(origin, target);
        lemma_walked_in_box(world, origin, target, Walk::start(origin, target));
    }
    lemma_impact_touches_voxel(world, origin, target);
    assert(touches(hit.pos, hit.block) && in_box(hit.pos, origin, target));
}

/// Free fall. An entity whose way is clear moves freely: when no solid
/// voxel has a point in common with the box between its position and
/// the place its velocity after gravity and drag would take it to, it
/// ends at that place, keeps that velocity, and does not stand on the
/// ground.
pub proof fn lemma_clear_way(world: &World, physics: Physics, body: Body)
    requires
        physics.well_formed(),
        body.in_range(),
        forall|block: BlockPosition|
            near_path(
                body.position,
                advanced(body.position, physics.integrated(body.velocity, body.grounded())),
                block,
            ) ==> !world.solid_at(block),
    ensures
        ticked(world, physics, body).velocity == physics.integrated(
            body.velocity,
            body.grounded(),
        ),
        ticked(world, physics, body).position == advanced(
            body.position,
            ticked(world, physics, body).velocity,
        ),
        ticked(world, physics, body).on_ground != Some(true),
{
    let velocity = physics.integrated(body.velocity, body.grounded());
    let target = advanced(body.position, velocity);
    lemma_integrated_addable(physics, body.velocity, body.grounded());
    if collision(world, body.position, target) is Some {
        lemma_impact_near_path(world, body.position, target);
        lemma_impact_on_solid_face(world, body.position, target);
    }
}

} // verus!
