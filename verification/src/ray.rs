//! Casting the path of one tick of motion through the voxel grid.
//!
//! The path runs straight from an origin to a target. Along each axis on
//! which it moves, it crosses the grid's boundaries one voxel apart. The
//! walk takes those crossings in the order in which the path meets them
//! and stops at the first one that leads into a solid voxel, or at the
//! target. The place of a crossing on the path is the fraction
//! `gap / span`: `span` is the length of the whole path along the axis of
//! the crossing, `gap` the part of it that lies before the crossing. Two
//! such fractions are compared by cross-multiplication, so the order of
//! the crossings is exact.

use vstd::prelude::*;
use vstd::arithmetic::mul::lemma_mul_upper_bound;
use crate::fraction::{scale_toward_zero, toward_zero};
use crate::side::Side;
use crate::space::{
    block_coordinate, block_of, within, BlockPosition, Position, POSITION_LIMIT, UNITS_PER_BLOCK,
};
use crate::world::World;

verus! {

/// The longest path, along one axis and in units, that a cast accepts.
pub const TRAVEL_LIMIT: i64 = 2_000_000_000_000_000;

/// The place at which a path met a solid voxel.
#[derive(Debug, Clone, Copy, PartialEq, Eq, Structural)]
pub struct RayImpact {
    /// The voxel that was met.
    pub block: BlockPosition,
    /// The point of the path at which it met the voxel, with the
    /// direction that the target faces.
    pub pos: Position,
    /// The face through which the path entered the voxel.
    pub face: Side,
}

/// One of the three axes of the grid.
#[derive(Debug, Clone, Copy, PartialEq, Eq, Structural)]
pub enum Axis {
    X,
    Y,
    Z,
}

/// The progress of a walk along one axis.
pub struct Lane {
    /// The direction of motion along the axis: 1, -1, or 0 for none.
    pub step: int,
    /// The coordinate of the voxel the walk is in.
    pub cell: int,
    /// The distance along the axis, in units, from the origin to the next
    /// boundary ahead.
    pub gap: int,
    /// The distance along the axis, in units, from the origin to the
    /// target.
    pub span: int,
}

/// The progress of a walk along all three axes.
pub struct Walk {
    pub x: Lane,
    pub y: Lane,
    pub z: Lane,
}

/// The lane of a path that starts at `origin` and covers `travel` along
/// one axis. A path that moves up the axis first meets the upper boundary
/// of its voxel; one that moves down first meets the lower boundary, at
/// no distance at all when it starts on it.
pub open spec fn lane_start(origin: int, travel: int) -> Lane {
    let cell = block_of(origin);
    if travel > 0 {
        Lane { step: 1, cell, gap: (cell + 1) * UNITS_PER_BLOCK - origin, span: travel }
    } else if travel < 0 {
        Lane { step: -1, cell, gap: origin - cell * UNITS_PER_BLOCK, span: -travel }
    } else {
        Lane { step: 0, cell, gap: 0, span: 0 }
    }
}

/// The lane after the walk has crossed its next boundary.
pub open spec fn lane_stepped(lane: Lane) -> Lane {
    Lane {
        step: lane.step,
        cell: lane.cell + lane.step,
        gap: lane.gap + UNITS_PER_BLOCK,
        span: lane.span,
    }
}

/// Whether the path meets the next boundary of `first` no later than that
/// of `second`. A lane without motion has no boundary ahead: it is later
/// than every lane with motion and never earlier than any.
pub open spec fn no_later(first: Lane, second: Lane) -> bool {
    first.span > 0 && (second.span <= 0 || first.gap * second.span <= second.gap * first.span)
}

/// How much of a lane is left to walk: zero once its next boundary lies
/// beyond the target.
pub open spec fn lane_remaining(lane: Lane) -> int {
    if lane.span > 0 && lane.gap <= lane.span {
        lane.span - lane.gap + UNITS_PER_BLOCK
    } else {
        0
    }
}

/// The face that an impact names when the walk steps into a solid voxel
/// along `axis` in the direction `step`. Each axis has two faces, one for
/// each direction: up the x axis the path comes in through `WEST`, down
/// it through `EAST`; up the z axis through `SOUTH`, down it through
/// `NORTH`. Along y the face tells which side of the entity was hit: a
/// path that comes down onto a voxel meets `BOTTOM`, one that comes up
/// against a voxel meets `TOP`.
pub open spec fn face_entered(axis: Axis, step: int) -> Side {
    match axis {
        Axis::X => if step > 0 { Side::WEST } else { Side::EAST },
        Axis::Y => if step > 0 { Side::TOP } else { Side::BOTTOM },
        Axis::Z => if step > 0 { Side::SOUTH } else { Side::NORTH },
    }
}

impl Walk {
    /// The walk at the start of the path from `origin` to `target`.
    pub open spec fn start(origin: Position, target: Position) -> Walk {
        Walk {
            x: lane_start(origin.x as int, target.x - origin.x),
            y: lane_start(origin.y as int, target.y - origin.y),
            z: lane_start(origin.z as int, target.z - origin.z),
        }
    }

    /// The lane of one axis.
    pub open spec fn lane(self, axis: Axis) -> Lane {
        match axis {
            Axis::X => self.x,
            Axis::Y => self.y,
            Axis::Z => self.z,
        }
    }

    /// The axis whose boundary the path meets next: the earliest, and of
    /// several that it meets at once x before y before z. `None` when the
    /// path moves along no axis.
    pub open spec fn leading(self) -> Option<Axis> {
        if no_later(self.x, self.y) && no_later(self.x, self.z) {
            Some(Axis::X)
        } else if no_later(self.y, self.z) {
            Some(Axis::Y)
        } else if self.z.span > 0 {
            Some(Axis::Z)
        } else {
            None
        }
    }

    /// The walk after it has crossed the next boundary of `axis`.
    pub open spec fn stepped(self, axis: Axis) -> Walk {
        match axis {
            Axis::X => Walk { x: lane_stepped(self.x), ..self },
            Axis::Y => Walk { y: lane_stepped(self.y), ..self },
            Axis::Z => Walk { z: lane_stepped(self.z), ..self },
        }
    }

    /// The voxel the walk is in.
    pub open spec fn block(self) -> BlockPosition {
        BlockPosition { x: self.x.cell as i64, y: self.y.cell as i64, z: self.z.cell as i64 }
    }

    /// How much of the path is left to walk.
    pub open spec fn remaining(self) -> int {
        lane_remaining(self.x) + lane_remaining(self.y) + lane_remaining(self.z)
    }
}

/// One coordinate of the point at which a path meets the next crossing
/// of `lane`: the point of the path that lies the fraction
/// `lane.gap / lane.span` of the way along it. Along the axis of the
/// crossing that is the boundary crossed, exactly. Along another axis,
/// over which the path covers `travel` from `origin`, it is that fraction
/// of `travel`, rounded towards the origin.
pub open spec fn crossing_coordinate(origin: int, travel: int, crossed: bool, lane: Lane) -> int {
    if crossed {
        if lane.step > 0 {
            origin + lane.gap
        } else {
            origin - lane.gap
        }
    } else {
        origin + toward_zero(travel, lane.gap, lane.span)
    }
}

/// The point at which the path from `origin` to `target` meets the next
/// crossing of `lane`, the lane of `axis`, facing as the target does.
pub open spec fn crossing_point(
    origin: Position,
    target: Position,
    axis: Axis,
    lane: Lane,
) -> Position {
    Position {
        x: crossing_coordinate(
            origin.x as int,
            target.x - origin.x,
            axis == Axis::X,
            lane,
        ) as i64,
        y: crossing_coordinate(
            origin.y as int,
            target.y - origin.y,
            axis == Axis::Y,
            lane,
        ) as i64,
        z: crossing_coordinate(
            origin.z as int,
            target.z - origin.z,
            axis == Axis::Z,
            lane,
        ) as i64,
        pitch: target.pitch,
        yaw: target.yaw,
    }
}

/// What the rest of a walk finds: the first voxel it enters that is
/// solid, with the point of the path at the crossing into it and the face
/// entered, or `None` when the next crossing lies beyond the target.
pub open spec fn walked(world: &World, origin: Position, target: Position, walk: Walk) -> Option<
    RayImpact,
>
    decreases walk.remaining(),
{
    match walk.leading() {
        None => None,
        Some(axis) => {
            let lane = walk.lane(axis);
            let next = walk.stepped(axis);
            if lane.gap > lane.span {
                None
            } else if world.solid_at(next.block()) {
                Some(
                    RayImpact {
                        block: next.block(),
                        pos: crossing_point(origin, target, axis, lane),
                        face: face_entered(axis, lane.step),
                    },
                )
            } else {
                walked(world, origin, target, next)
            }
        },
    }
}

/// What a cast from `origin` to `target` finds. A path of no length meets
/// nothing. A path that starts inside a solid voxel meets that voxel at
/// its origin, through no face. Any other path meets the first solid
/// voxel that it enters on its way to the target, if there is one.
pub open spec fn collision(world: &World, origin: Position, target: Position) -> Option<
    RayImpact,
> {
    if target.x == origin.x && target.y == origin.y && target.z == origin.z {
        None
    } else if world.solid_at(origin.block_spec()) {
        Some(
            RayImpact {
                block: origin.block_spec(),
                pos: Position {
                    x: origin.x,
                    y: origin.y,
                    z: origin.z,
                    pitch: target.pitch,
                    yaw: target.yaw,
                },
                face: Side::NONE,
            },
        )
    } else {
        walked(world, origin, target, Walk::start(origin, target))
    }
}

/// Whether a cast accepts the path from `origin` to `target`: the origin
/// is in range and the path is no longer than `TRAVEL_LIMIT` along any
/// axis.
pub open spec fn castable(origin: Position, target: Position) -> bool {
    &&& origin.in_range()
    &&& within(target.x - origin.x, TRAVEL_LIMIT as int)
    &&& within(target.y - origin.y, TRAVEL_LIMIT as int)
    &&& within(target.z - origin.z, TRAVEL_LIMIT as int)
}

/// Whether a lane is one that a walk from the coordinate `origin` can be
/// in: its voxel and its next boundary belong together.
pub open spec fn lane_sound(lane: Lane, origin: int) -> bool {
    &&& 0 <= lane.span <= TRAVEL_LIMIT
    &&& 0 <= lane.gap <= lane.span + UNITS_PER_BLOCK
    &&& lane.step == 1 || lane.step == -1 || lane.step == 0
    &&& lane.step == 1 ==> lane.span > 0 && (lane.cell + 1) * UNITS_PER_BLOCK == origin + lane.gap
    &&& lane.step == -1 ==> lane.span > 0 && lane.cell * UNITS_PER_BLOCK == origin - lane.gap
    &&& lane.step == 0 ==> lane.span == 0 && lane.cell == block_of(origin)
}

/// The machine form of a lane.
struct Track {
    step: i64,
    cell: i64,
    gap: u64,
    span: u64,
}

impl Track {
    spec fn model(self) -> Lane {
        Lane {
            step: self.step as int,
            cell: self.cell as int,
            gap: self.gap as int,
            span: self.span as int,
        }
    }

    /// The track of a path that starts at `origin` and covers `travel`.
    fn start(origin: i64, travel: i64) -> (track: Track)
        requires
            within(origin as int, POSITION_LIMIT as int),
            within(travel as int, TRAVEL_LIMIT as int),
        ensures
            track.model() == lane_start(origin as int, travel as int),
            lane_sound(track.model(), origin as int),
    {
        let cell: i64 = block_coordinate(origin);
        if travel > 0 {
            Track {
                step: 1,
                cell,
                gap: ((cell + 1) * UNITS_PER_BLOCK - origin) as u64,
                span: travel as u64,
            }
        } else if travel < 0 {
            Track {
                step: -1,
                cell,
                gap: (origin - cell * UNITS_PER_BLOCK) as u64,
                span: (-travel) as u64,
            }
        } else {
            Track { step: 0, cell, gap: 0, span: 0 }
        }
    }

    /// Tests whether the path meets the next boundary of this track no
    /// later than that of `other`.
    fn no_later(&self, other: &Track) -> (first: bool)
        requires
            self.span <= TRAVEL_LIMIT,
            other.span <= TRAVEL_LIMIT,
            self.gap <= self.span + UNITS_PER_BLOCK,
            other.gap <= other.span + UNITS_PER_BLOCK,
        ensures
            first == no_later(self.model(), other.model()),
    {
        if self.span == 0 {
            false
        } else if other.span == 0 {
            true
        } else {
            proof {
                lemma_mul_upper_bound(
                    self.gap as int,
                    0x4000_0000_0000_0000,
                    other.span as int,
                    0x4000_0000_0000_0000,
                );
                lemma_mul_upper_bound(
                    other.gap as int,
                    0x4000_0000_0000_0000,
                    self.span as int,
                    0x4000_0000_0000_0000,
                );
                assert(0x4000_0000_0000_0000int * 0x4000_0000_0000_0000int <= u128::MAX);
            }
            (self.gap as u128) * (other.span as u128) <= (other.gap as u128) * (self.span as u128)
        }
    }

    /// Crosses the next boundary of this track.
    fn advance(&mut self, Ghost(origin): Ghost<int>)
        requires
            lane_sound(old(self).model(), origin),
            within(origin, POSITION_LIMIT as int),
            old(self).gap <= old(self).span,
        ensures
            final(self).model() == lane_stepped(old(self).model()),
            lane_sound(final(self).model(), origin),
    {
        self.cell = self.cell + self.step;
        self.gap = self.gap + UNITS_PER_BLOCK as u64;
    }
}

/// Casts the path from `old_pos` to `new_pos` through `world` and reports
/// the first solid voxel that it meets. The scan ends at `new_pos`: a
/// voxel that the path would only enter beyond it is never looked at.
/// A voxel that is not loaded is passed through like air.
pub fn check_collision(world: &World, old_pos: &mut Position, new_pos: Position) -> (impact: Option<
    RayImpact,
>)
    requires
        castable(*old(old_pos), new_pos),
    ensures
        impact == collision(world, *old(old_pos), new_pos),
        *final(old_pos) == *old(old_pos),
{
    let origin: Position = *old_pos;
    let travel_x: i64 = new_pos.x - origin.x;
    let travel_y: i64 = new_pos.y - origin.y;
    let travel_z: i64 = new_pos.z - origin.z;
    if travel_x == 0 && travel_y == 0 && travel_z == 0 {
        return None;
    }
    let first: BlockPosition = origin.block();
    if world.block_at(first).is_solid() {
        return Some(
            RayImpact {
                block: first,
                pos: Position {
                    x: origin.x,
                    y: origin.y,
                    z: origin.z,
                    pitch: new_pos.pitch,
                    yaw: new_pos.yaw,
                },
                face: Side::NONE,
            },
        );
    }
    let mut x: Track = Track::start(origin.x, travel_x);
    let mut y: Track = Track::start(origin.y, travel_y);
    let mut z: Track = Track::start(origin.z, travel_z);
    let ghost goal = collision(world, origin, new_pos);
    loop
        invariant
            origin == *old(old_pos),
            origin == *old_pos,
            goal == collision(world, origin, new_pos),
            origin.in_range(),
            travel_x == new_pos.x - origin.x,
            travel_y == new_pos.y - origin.y,
            travel_z == new_pos.z - origin.z,
            within(travel_x as int, TRAVEL_LIMIT as int),
            within(travel_y as int, TRAVEL_LIMIT as int),
            within(travel_z as int, TRAVEL_LIMIT as int),
            lane_sound(x.model(), origin.x as int),
            lane_sound(y.model(), origin.y as int),
            lane_sound(z.model(), origin.z as int),
            goal == walked(
                world,
                origin,
                new_pos,
                Walk { x: x.model(), y: y.model(), z: z.model() },
            ),
        decreases (Walk { x: x.model(), y: y.model(), z: z.model() }).remaining(),
    {
        let ghost walk = Walk { x: x.model(), y: y.model(), z: z.model() };
        let axis: Axis = if x.no_later(&y) && x.no_later(&z) {
            Axis::X
        } else if y.no_later(&z) {
            Axis::Y
        } else if z.span > 0 {
            Axis::Z
        } else {
            return None;
        };
        assert(walk.leading() == Some(axis));
        let gap: u64 = match axis {
            Axis::X => x.gap,
            Axis::Y => y.gap,
            Axis::Z => z.gap,
        };
        let span: u64 = match axis {
            Axis::X => x.span,
            Axis::Y => y.span,
            Axis::Z => z.span,
        };
        let step: i64 = match axis {
            Axis::X => x.step,
            Axis::Y => y.step,
            Axis::Z => z.step,
        };
        if gap > span {
            return None;
        }
        match axis {
            Axis::X => x.advance(Ghost(origin.x as int)),
            Axis::Y => y.advance(Ghost(origin.y as int)),
            Axis::Z => z.advance(Ghost(origin.z as int)),
        }
        assert(Walk { x: x.model(), y: y.model(), z: z.model() } == walk.stepped(axis));
        let block = BlockPosition { x: x.cell, y: y.cell, z: z.cell };
        if world.block_at(block).is_solid() {
            let face: Side = match axis {
                Axis::X => if step > 0 { Side::WEST } else { Side::EAST },
                Axis::Y => if step > 0 { Side::TOP } else { Side::BOTTOM },
                Axis::Z => if step > 0 { Side::SOUTH } else { Side::NORTH },
            };
            let reach: i64 = if step > 0 { gap as i64 } else { -(gap as i64) };
            let pos = Position {
                x: origin.x + match axis {
                    Axis::X => reach,
                    _ => scale_toward_zero(travel_x, gap, span),
                },
                y: origin.y + match axis {
                    Axis::Y => reach,
                    _ => scale_toward_zero(travel_y, gap, span),
                },
                z: origin.z + match axis {
                    Axis::Z => reach,
                    _ => scale_toward_zero(travel_z, gap, span),
                },
                pitch: new_pos.pitch,
                yaw: new_pos.yaw,
            };
            return Some(RayImpact { block, pos, face });
        }
    }
}

} // verus!
