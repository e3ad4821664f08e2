//! No tunnelling: a cast that finds nothing has passed through nothing.
//!
//! A moment of the path from an origin to a target is a fraction `p / q`
//! between zero and one; the point of the path at that moment lies the
//! fraction `p / q` of the way from the origin to the target. All of it
//! is stated in whole numbers, by multiplying through with `q`.

use vstd::prelude::*;
use crate::laws::{
    lane_on_path, lemma_impact_on_solid_face, lemma_start_on_path, lemma_step_on_path,
    walk_on_path,
};
use crate::motion::{advanced, lemma_integrated_addable, Physics};
use crate::ray::{
    castable, collision, lane_sound, lane_start, lane_stepped, walked, Axis, Lane, RayImpact,
    Walk,
};
use crate::side::Side;
use crate::space::{block_of, BlockPosition, Position, UNITS_PER_BLOCK};
use crate::system::{ticked, Body};
use crate::world::World;

verus! {

/// Whether the fraction `p / q` is a moment of a path: it lies between
/// zero and one.
pub open spec fn moment(p: int, q: int) -> bool {
    0 <= p <= q && 0 < q
}

/// Whether, along one axis, the point at the moment `p / q` of a path
/// that starts at `origin` and covers `travel` lies strictly between the
/// two boundaries of the voxel `cell`.
pub open spec fn inside_lane(origin: int, travel: int, p: int, q: int, cell: int) -> bool {
    (cell * UNITS_PER_BLOCK) * q < origin * q + travel * p < ((cell + 1) * UNITS_PER_BLOCK) * q
}

/// Whether the point at the moment `p / q` of the path from `origin` to
/// `target` lies strictly inside the voxel `block`.
pub open spec fn strictly_inside(
    origin: Position,
    target: Position,
    p: int,
    q: int,
    block: BlockPosition,
) -> bool {
    &&& inside_lane(origin.x as int, target.x - origin.x, p, q, block.x as int)
    &&& inside_lane(origin.y as int, target.y - origin.y, p, q, block.y as int)
    &&& inside_lane(origin.z as int, target.z - origin.z, p, q, block.z as int)
}

/// Whether the voxel `cell` lies, along one axis, where a walk is or
/// where it is still going.
pub open spec fn lane_ahead(lane: Lane, cell: int) -> bool {
    &&& lane.step == 1 ==> cell >= lane.cell
    &&& lane.step == -1 ==> cell <= lane.cell
    &&& lane.step == 0 ==> cell == lane.cell
}

/// Whether the voxel `block` lies where a walk is or where it is still
/// going, along every axis.
pub open spec fn walk_ahead(walk: Walk, block: BlockPosition) -> bool {
    &&& lane_ahead(walk.x, block.x as int)
    &&& lane_ahead(walk.y, block.y as int)
    &&& lane_ahead(walk.z, block.z as int)
}

/// Whether the moment `p / q` comes strictly after the next crossing of
/// a lane.
pub open spec fn past_crossing(lane: Lane, p: int, q: int) -> bool {
    lane.span > 0 && lane.span * p > lane.gap * q
}

/// Along one axis, a point of the path lies in the voxel the walk starts
/// in or further along the way.
proof fn lemma_lane_start_ahead(origin: int, travel: int, p: int, q: int, cell: int)
    requires
        moment(p, q),
        inside_lane(origin, travel, p, q, cell),
    ensures
        lane_ahead(lane_start(origin, travel), cell),
{
    let first = block_of(origin);
    let low = first * UNITS_PER_BLOCK;
    let high = (first + 1) * UNITS_PER_BLOCK;
    let under = cell * UNITS_PER_BLOCK;
    let over = (cell + 1) * UNITS_PER_BLOCK;
    assert(low <= origin < high);
    if travel > 0 {
        assert(low < over) by (nonlinear_arith)
            requires
                low <= origin,
                travel > 0,
                0 <= p,
                0 < q,
                origin * q + travel * p < over * q,
        ;
    } else if travel < 0 {
        assert(under < high) by (nonlinear_arith)
            requires
                origin < high,
                travel < 0,
                0 <= p,
                0 < q,
                under * q < origin * q + travel * p,
        ;
    } else {
        assert(travel * p == 0) by (nonlinear_arith)
            requires
                travel == 0,
        ;
        assert(under < high && low < over) by (nonlinear_arith)
            requires
                low <= origin < high,
                0 < q,
                under * q < origin * q < over * q,
        ;
    }
}

/// Along one axis, a point of the path that lies in another voxel than
/// the walk comes strictly after the walk's next crossing on that axis.
proof fn lemma_lane_past(lane: Lane, origin: int, travel: int, p: int, q: int, cell: int)
    requires
        lane_sound(lane, origin),
        lane_on_path(lane, travel),
        moment(p, q),
        inside_lane(origin, travel, p, q, cell),
        lane_ahead(lane, cell),
        cell != lane.cell,
    ensures
        past_crossing(lane, p, q),
{
    let under = cell * UNITS_PER_BLOCK;
    let over = (cell + 1) * UNITS_PER_BLOCK;
    let gap = lane.gap;
    let span = lane.span;
    if lane.step == 1 {
        assert(span * p > gap * q) by (nonlinear_arith)
            requires
                origin + gap <= under,
                0 < q,
                under * q < origin * q + span * p,
        ;
    } else {
        assert(span * p > gap * q) by (nonlinear_arith)
            requires
                over <= origin - gap,
                0 < q,
                origin * q + (-span) * p < over * q,
        ;
    }
}

/// Along one axis, a point of the path that comes strictly after the
/// walk's next crossing lies beyond that crossing.
proof fn lemma_lane_ahead_after_step(
    lane: Lane,
    origin: int,
    travel: int,
    p: int,
    q: int,
    cell: int,
)
    requires
        lane_sound(lane, origin),
        lane_on_path(lane, travel),
        moment(p, q),
        inside_lane(origin, travel, p, q, cell),
        past_crossing(lane, p, q),
    ensures
        lane_ahead(lane_stepped(lane), cell),
{
    let under = cell * UNITS_PER_BLOCK;
    let over = (cell + 1) * UNITS_PER_BLOCK;
    let gap = lane.gap;
    let span = lane.span;
    if lane.step == 1 {
        assert(origin + gap < over) by (nonlinear_arith)
            requires
                0 < q,
                span * p > gap * q,
                origin * q + span * p < over * q,
        ;
    } else {
        assert(under < origin - gap) by (nonlinear_arith)
            requires
                0 < q,
                span * p > gap * q,
                under * q < origin * q + (-span) * p,
        ;
    }
}

/// One crossing comes no later than another: its place on the path,
/// `gap / span`, is no greater.
pub open spec fn crossing_no_later(first: Lane, second: Lane) -> bool {
    first.gap * second.span <= second.gap * first.span
}

/// The order of crossings carries over from one to the next but one,
/// when the second is strictly later than the third.
proof fn lemma_crossing_order(first: Lane, second: Lane, third: Lane)
    requires
        first.span > 0,
        second.span > 0,
        third.span > 0,
        0 <= first.gap,
        0 <= second.gap,
        0 <= third.gap,
        crossing_no_later(first, second),
        crossing_no_later(second, third),
    ensures
        crossing_no_later(first, third),
{
    let a = first.gap;
    let b = first.span;
    let c = second.gap;
    let d = second.span;
    let e = third.gap;
    let f = third.span;
    assert((a * d) * f <= (c * b) * f) by (nonlinear_arith)
        requires
            a * d <= c * b,
            f > 0,
    ;
    assert((c * f) * b <= (e * d) * b) by (nonlinear_arith)
        requires
            c * f <= e * d,
            b > 0,
    ;
    assert((a * d) * f == (a * f) * d && (c * b) * f == (c * f) * b && (e * d) * b == (e * b) * d)
        by (nonlinear_arith);
    assert(a * f <= e * b) by (nonlinear_arith)
        requires
            (a * f) * d <= (e * b) * d,
            d > 0,
    ;
}

/// The leading axis of a walk is one along which the path moves, and its
/// crossing comes no later than that of any other such axis.
pub proof fn lemma_leading_is_earliest(walk: Walk, axis: Axis, other: Axis)
    requires
        walk.leading() == Some(axis),
        0 <= walk.x.gap && 0 <= walk.x.span,
        0 <= walk.y.gap && 0 <= walk.y.span,
        0 <= walk.z.gap && 0 <= walk.z.span,
        walk.lane(other).span > 0,
    ensures
        walk.lane(axis).span > 0,
        crossing_no_later(walk.lane(axis), walk.lane(other)),
{
    let x = walk.x;
    let y = walk.y;
    let z = walk.z;
    match axis {
        Axis::X => {},
        Axis::Y => {
            if other == Axis::X {
                if crossing_no_later(x, y) {
                    // x is not leading although it is no later than y:
                    // so z comes strictly before x, and y no later than z.
                    lemma_crossing_order(y, z, x);
                }
            }
        },
        Axis::Z => {
            if other == Axis::X {
                if y.span > 0 && crossing_no_later(x, z) {
                    // z strictly before y, y strictly before x.
                    lemma_crossing_order(z, y, x);
                }
            }
        },
    }
}

/// A moment that comes strictly after one crossing comes strictly after
/// every crossing that is no later.
proof fn lemma_past_earlier_crossing(earlier: Lane, later: Lane, p: int, q: int)
    requires
        earlier.span > 0,
        0 <= earlier.gap,
        0 <= later.gap,
        moment(p, q),
        crossing_no_later(earlier, later),
        past_crossing(later, p, q),
    ensures
        past_crossing(earlier, p, q),
{
    let a = earlier.gap;
    let b = earlier.span;
    let c = later.gap;
    let d = later.span;
    assert((d * p) * b > (c * q) * b) by (nonlinear_arith)
        requires
            d * p > c * q,
            b > 0,
    ;
    assert((a * d) * q <= (c * b) * q) by (nonlinear_arith)
        requires
            a * d <= c * b,
            q > 0,
    ;
    assert((d * p) * b == (b * p) * d && (c * q) * b == (c * b) * q && (a * d) * q == (a * q) * d)
        by (nonlinear_arith);
    assert(b * p > a * q) by (nonlinear_arith)
        requires
            (b * p) * d > (a * q) * d,
            d > 0,
    ;
}

/// A moment that comes strictly after a crossing shows that the crossing
/// lies before the target.
proof fn lemma_past_is_before_target(lane: Lane, p: int, q: int)
    requires
        moment(p, q),
        0 <= lane.gap,
        past_crossing(lane, p, q),
    ensures
        lane.gap < lane.span,
{
    assert(lane.gap < lane.span) by (nonlinear_arith)
        requires
            lane.span * p > lane.gap * q,
            0 <= p <= q,
            0 < q,
            0 <= lane.gap,
            0 < lane.span,
    ;
}

/// The travel of a path along one axis.
pub open spec fn travel(origin: Position, target: Position, axis: Axis) -> int {
    match axis {
        Axis::X => target.x - origin.x,
        Axis::Y => target.y - origin.y,
        Axis::Z => target.z - origin.z,
    }
}

/// The coordinate of a position along one axis.
pub open spec fn coordinate(position: Position, axis: Axis) -> int {
    match axis {
        Axis::X => position.x as int,
        Axis::Y => position.y as int,
        Axis::Z => position.z as int,
    }
}

/// The coordinate of a voxel along one axis.
pub open spec fn cell(block: BlockPosition, axis: Axis) -> int {
    match axis {
        Axis::X => block.x as int,
        Axis::Y => block.y as int,
        Axis::Z => block.z as int,
    }
}

/// Whether the moment `p / q` of the path from `origin` to `target` comes
/// strictly before the path meets the face of `hit`: the point at that
/// moment has not yet reached the plane of the face. Nothing comes
/// before an impact through no face, which is at the origin.
pub open spec fn before_impact(
    origin: Position,
    target: Position,
    p: int,
    q: int,
    hit: RayImpact,
) -> bool {
    match hit.face {
        Side::WEST => origin.x * q + (target.x - origin.x) * p < hit.pos.x * q,
        Side::EAST => origin.x * q + (target.x - origin.x) * p > hit.pos.x * q,
        Side::TOP => origin.y * q + (target.y - origin.y) * p < hit.pos.y * q,
        Side::BOTTOM => origin.y * q + (target.y - origin.y) * p > hit.pos.y * q,
        Side::SOUTH => origin.z * q + (target.z - origin.z) * p < hit.pos.z * q,
        Side::NORTH => origin.z * q + (target.z - origin.z) * p > hit.pos.z * q,
        Side::NONE => false,
    }
}

/// Whether the moment `p / q` of a path lies on the part of it that a
/// cast with the outcome `found` has cleared: all of the path when
/// nothing was found, and the part before the impact otherwise.
pub open spec fn cleared(
    origin: Position,
    target: Position,
    p: int,
    q: int,
    found: Option<RayImpact>,
) -> bool {
    match found {
        None => true,
        Some(hit) => before_impact(origin, target, p, q, hit),
    }
}

/// Along one axis, a moment strictly after a crossing is not before the
/// plane of that crossing.
proof fn lemma_past_is_not_before(lane: Lane, origin: int, travel: int, p: int, q: int)
    requires
        lane_on_path(lane, travel),
        lane.step == 1 || lane.step == -1,
        moment(p, q),
        past_crossing(lane, p, q),
    ensures
        lane.step == 1 ==> origin * q + travel * p > (origin + lane.gap) * q,
        lane.step == -1 ==> origin * q + travel * p < (origin - lane.gap) * q,
{
    let gap = lane.gap;
    let span = lane.span;
    if lane.step == 1 {
        assert(origin * q + span * p > (origin + gap) * q) by (nonlinear_arith)
            requires
                span * p > gap * q,
        ;
    } else {
        assert(origin * q + (-span) * p < (origin - gap) * q) by (nonlinear_arith)
            requires
                span * p > gap * q,
        ;
    }
}

/// From its voxel on, a walk passes through nothing before it finds
/// something: no point of the cleared part of the path that lies where
/// the walk is, or where it is still going, is strictly inside a solid
/// voxel.
pub proof fn lemma_walk_passes_nothing(
    world: &World,
    origin: Position,
    target: Position,
    walk: Walk,
    p: int,
    q: int,
    block: BlockPosition,
)
    requires
        walk_on_path(walk, origin, target),
        !world.solid_at(walk.block()),
        moment(p, q),
        cleared(origin, target, p, q, walked(world, origin, target, walk)),
        strictly_inside(origin, target, p, q, block),
        walk_ahead(walk, block),
    ensures
        !world.solid_at(block),
    decreases walk.remaining(),
{
    if block != walk.block() {
        let off: Axis = if block.x != walk.x.cell {
            Axis::X
        } else if block.y != walk.y.cell {
            Axis::Y
        } else {
            Axis::Z
        };
        lemma_lane_past(
            walk.lane(off),
            coordinate(origin, off),
            travel(origin, target, off),
            p,
            q,
            cell(block, off),
        );
        assert(walk.leading() is Some);
        let axis = walk.leading()->Some_0;
        let lane = walk.lane(axis);
        lemma_leading_is_earliest(walk, axis, off);
        lemma_past_earlier_crossing(lane, walk.lane(off), p, q);
        lemma_past_is_before_target(lane, p, q);
        let next = walk.stepped(axis);
        lemma_step_on_path(walk, origin, target, axis);
        if world.solid_at(next.block()) {
            lemma_past_is_not_before(
                lane,
                coordinate(origin, axis),
                travel(origin, target, axis),
                p,
                q,
            );
        } else {
            lemma_lane_ahead_after_step(
                lane,
                coordinate(origin, axis),
                travel(origin, target, axis),
                p,
                q,
                cell(block, axis),
            );
            lemma_walk_passes_nothing(world, origin, target, next, p, q, block);
        }
    }
}

/// No tunnelling. A cast reports the first solid voxel on the path: no
/// point of the path before the impact lies strictly inside a solid
/// voxel, and when the cast finds nothing, no point of the path does,
/// from the origin to the target, however many voxels the path crosses.
/// A path of no length is left out: such a cast looks at no voxel.
pub proof fn lemma_no_tunnelling(
    world: &World,
    origin: Position,
    target: Position,
    p: int,
    q: int,
    block: BlockPosition,
)
    requires
        castable(origin, target),
        target.x != origin.x || target.y != origin.y || target.z != origin.z,
        moment(p, q),
        cleared(origin, target, p, q, collision(world, origin, target)),
        strictly_inside(origin, target, p, q, block),
    ensures
        !world.solid_at(block),
{
    let walk = Walk::start(origin, target);
    lemma_start_on_path(origin, target);
    lemma_lane_start_ahead(origin.x as int, target.x - origin.x, p, q, block.x as int);
    lemma_lane_start_ahead(origin.y as int, target.y - origin.y, p, q, block.y as int);
    lemma_lane_start_ahead(origin.z as int, target.z - origin.z, p, q, block.z as int);
    assert(walk.block() == origin.block_spec());
    lemma_walk_passes_nothing(world, origin, target, walk, p, q, block);
}

/// Whether `position` lies strictly inside the voxel `block`, on none of
/// its faces.
pub open spec fn position_inside(position: Position, block: BlockPosition) -> bool {
    &&& block.x * UNITS_PER_BLOCK < position.x < (block.x + 1) * UNITS_PER_BLOCK
    &&& block.y * UNITS_PER_BLOCK < position.y < (block.y + 1) * UNITS_PER_BLOCK
    &&& block.z * UNITS_PER_BLOCK < position.z < (block.z + 1) * UNITS_PER_BLOCK
}

/// A tick never moves an entity into a solid voxel: an entity that was
/// not strictly inside a solid voxel before the tick is not strictly
/// inside one after it.
pub proof fn lemma_never_enters_solid(
    world: &World,
    physics: Physics,
    body: Body,
    block: BlockPosition,
)
    requires
        physics.well_formed(),
        body.in_range(),
        forall|start: BlockPosition|
            position_inside(body.position, start) ==> !world.solid_at(start),
        position_inside(ticked(world, physics, body).position, block),
    ensures
        !world.solid_at(block),
{
    let origin = body.position;
    let velocity = physics.integrated(body.velocity, body.grounded());
    lemma_integrated_addable(physics, body.velocity, body.grounded());
    let target = advanced(origin, velocity);
    let impact = collision(world, origin, target);
    assert(castable(origin, target));
    match impact {
        None => {
            if target.x != origin.x || target.y != origin.y || target.z != origin.z {
                assert(strictly_inside(origin, target, 1, 1, block));
                lemma_no_tunnelling(world, origin, target, 1, 1, block);
            } else {
                assert(position_inside(origin, block));
            }
        },
        Some(hit) => {
            lemma_impact_on_solid_face(world, origin, target);
            if hit.face == Side::NONE {
                assert(position_inside(origin, block));
            }
        },
    }
}

} // verus!
