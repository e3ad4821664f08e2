use voxel_physics::ray::{check_collision, RayImpact};
use voxel_physics::response::resolve;
use voxel_physics::side::Side;
use voxel_physics::space::{BlockPosition, Position, Velocity};
use voxel_physics::world::{Occupancy, World};

const BLOCK: i64 = 1_000_000;

fn at(x: i64, y: i64, z: i64) -> BlockPosition {
    BlockPosition { x, y, z }
}

fn point(x: i64, y: i64, z: i64) -> Position {
    Position { x, y, z, pitch: 0, yaw: 0 }
}

fn air_with(solid: &[BlockPosition]) -> World {
    let mut world = World::new(Occupancy::Air);
    for block in solid {
        world.set_block(*block, Occupancy::Solid);
    }
    world
}

fn cast(world: &World, from: Position, to: Position) -> Option<RayImpact> {
    let mut origin = from;
    let impact = check_collision(world, &mut origin, to);
    assert_eq!(origin, from);
    impact
}

#[test]
fn fast_fall_does_not_tunnel() {
    let world = air_with(&[at(0, 6, 0)]);
    let impact = cast(&world, point(0, 10 * BLOCK, 0), point(0, 5 * BLOCK, 0));
    assert_eq!(
        impact,
        Some(RayImpact { block: at(0, 6, 0), pos: point(0, 7 * BLOCK, 0), face: Side::BOTTOM })
    );
}

#[test]
fn fast_fall_from_inside_a_voxel() {
    let world = air_with(&[at(0, 6, 0)]);
    let impact = cast(&world, point(300_000, 10_500_000, 700_000), point(300_000, 500_000, 700_000));
    assert_eq!(
        impact,
        Some(RayImpact {
            block: at(0, 6, 0),
            pos: point(300_000, 7 * BLOCK, 700_000),
            face: Side::BOTTOM,
        })
    );
}

#[test]
fn no_motion_meets_nothing() {
    let world = air_with(&[at(0, 0, 0)]);
    let here = point(500_000, 500_000, 500_000);
    assert_eq!(cast(&world, here, here), None);
    let open = World::new(Occupancy::Air);
    assert_eq!(cast(&open, here, here), None);
}

#[test]
fn turning_on_the_spot_meets_nothing() {
    let world = air_with(&[at(0, 0, 0)]);
    let here = point(500_000, 500_000, 500_000);
    let turned = Position { pitch: 10, yaw: 20, ..here };
    assert_eq!(cast(&world, here, turned), None);
}

#[test]
fn start_inside_solid_is_an_impact_through_no_face() {
    let world = air_with(&[at(2, 3, 4)]);
    let origin = point(2_500_000, 3_250_000, 4_750_000);
    let target = Position { x: 2_600_000, y: 3_250_000, z: 4_750_000, pitch: 7, yaw: 9 };
    assert_eq!(
        cast(&world, origin, target),
        Some(RayImpact {
            block: at(2, 3, 4),
            pos: Position { pitch: 7, yaw: 9, ..origin },
            face: Side::NONE,
        })
    );
}

#[test]
fn faces_follow_axis_and_direction() {
    let origin = point(500_000, 500_000, 500_000);
    let cases = [
        (at(1, 0, 0), point(1_500_000, 500_000, 500_000), Side::WEST, point(BLOCK, 500_000, 500_000)),
        (at(-1, 0, 0), point(-500_000, 500_000, 500_000), Side::EAST, point(0, 500_000, 500_000)),
        (at(0, 1, 0), point(500_000, 1_500_000, 500_000), Side::TOP, point(500_000, BLOCK, 500_000)),
        (at(0, -1, 0), point(500_000, -500_000, 500_000), Side::BOTTOM, point(500_000, 0, 500_000)),
        (at(0, 0, 1), point(500_000, 500_000, 1_500_000), Side::SOUTH, point(500_000, 500_000, BLOCK)),
        (at(0, 0, -1), point(500_000, 500_000, -500_000), Side::NORTH, point(500_000, 500_000, 0)),
    ];
    for (solid, target, face, pos) in cases {
        let world = air_with(&[solid]);
        assert_eq!(cast(&world, origin, target), Some(RayImpact { block: solid, pos, face }));
    }
}

#[test]
fn scan_ends_at_the_target() {
    let world = air_with(&[at(0, 6, 0)]);
    assert_eq!(cast(&world, point(0, 10 * BLOCK, 0), point(0, 7_500_000, 0)), None);
    assert_eq!(cast(&world, point(0, 10 * BLOCK, 0), point(0, 7_000_001, 0)), None);
}

#[test]
fn target_on_the_boundary_touches_the_voxel_below() {
    let world = air_with(&[at(0, 6, 0)]);
    assert_eq!(
        cast(&world, point(0, 10 * BLOCK, 0), point(0, 7 * BLOCK, 0)),
        Some(RayImpact { block: at(0, 6, 0), pos: point(0, 7 * BLOCK, 0), face: Side::BOTTOM })
    );
}

#[test]
fn target_on_the_boundary_touches_the_voxel_above() {
    let world = air_with(&[at(3, 0, 0)]);
    assert_eq!(
        cast(&world, point(500_000, 0, 0), point(3 * BLOCK, 0, 0)),
        Some(RayImpact { block: at(3, 0, 0), pos: point(3 * BLOCK, 0, 0), face: Side::WEST })
    );
    assert_eq!(cast(&world, point(500_000, 0, 0), point(3 * BLOCK - 1, 0, 0)), None);
}

#[test]
fn rising_from_a_boundary_takes_a_whole_voxel() {
    let world = air_with(&[at(0, 6, 0)]);
    assert_eq!(
        cast(&world, point(0, 5 * BLOCK, 0), point(0, 6 * BLOCK, 0)),
        Some(RayImpact { block: at(0, 6, 0), pos: point(0, 6 * BLOCK, 0), face: Side::TOP })
    );
    assert_eq!(cast(&world, point(0, 5 * BLOCK, 0), point(0, 6 * BLOCK - 1, 0)), None);
}

#[test]
fn corner_crossing_takes_x_before_y_before_z() {
    let origin = point(500_000, 500_000, 500_000);
    let target = point(1_500_000, 1_500_000, 1_500_000);
    let corner = point(BLOCK, BLOCK, BLOCK);
    let through_x = air_with(&[at(1, 0, 0)]);
    assert_eq!(
        cast(&through_x, origin, target),
        Some(RayImpact { block: at(1, 0, 0), pos: corner, face: Side::WEST })
    );
    let through_y = air_with(&[at(1, 1, 0)]);
    assert_eq!(
        cast(&through_y, origin, target),
        Some(RayImpact { block: at(1, 1, 0), pos: corner, face: Side::TOP })
    );
    let through_z = air_with(&[at(1, 1, 1)]);
    assert_eq!(
        cast(&through_z, origin, target),
        Some(RayImpact { block: at(1, 1, 1), pos: corner, face: Side::SOUTH })
    );
    let beside = air_with(&[at(0, 1, 0), at(0, 0, 1), at(0, 1, 1), at(1, 0, 1)]);
    assert_eq!(cast(&beside, origin, target), None);
}

#[test]
fn earlier_crossing_wins_over_axis_order() {
    let origin = point(500_000, 900_000, 500_000);
    let target = point(1_500_000, 1_900_000, 500_000);
    let world = air_with(&[at(0, 1, 0), at(1, 0, 0)]);
    assert_eq!(
        cast(&world, origin, target),
        Some(RayImpact { block: at(0, 1, 0), pos: point(600_000, BLOCK, 500_000), face: Side::TOP })
    );
}

#[test]
fn impact_point_rounds_toward_the_origin() {
    let world = air_with(&[at(1, 0, 0)]);
    let up = cast(&world, point(500_000, 500_000, 500_000), point(1_200_000, 600_000, 400_000));
    assert_eq!(
        up,
        Some(RayImpact {
            block: at(1, 0, 0),
            pos: point(BLOCK, 571_428, 428_572),
            face: Side::WEST,
        })
    );
}

#[test]
fn impact_faces_as_the_target_does() {
    let world = air_with(&[at(1, 0, 0)]);
    let origin = Position { x: 500_000, y: 500_000, z: 500_000, pitch: 1, yaw: 2 };
    let target = Position { x: 1_500_000, y: 500_000, z: 500_000, pitch: 30, yaw: 40 };
    let impact = cast(&world, origin, target);
    assert_eq!(
        impact,
        Some(RayImpact {
            block: at(1, 0, 0),
            pos: Position { x: BLOCK, y: 500_000, z: 500_000, pitch: 30, yaw: 40 },
            face: Side::WEST,
        })
    );
}

#[test]
fn unloaded_voxels_are_passed_through() {
    let mut world = World::new(Occupancy::Unknown);
    assert_eq!(cast(&world, point(0, 10 * BLOCK, 0), point(0, 5 * BLOCK, 0)), None);
    world.set_block(at(0, 6, 0), Occupancy::Solid);
    assert_eq!(
        cast(&world, point(0, 10 * BLOCK, 0), point(0, 5 * BLOCK, 0)),
        Some(RayImpact { block: at(0, 6, 0), pos: point(0, 7 * BLOCK, 0), face: Side::BOTTOM })
    );
}

#[test]
fn negative_coordinates() {
    let world = air_with(&[at(-3, -1, -1)]);
    assert_eq!(
        cast(&world, point(-500_000, -500_000, -500_000), point(-2_500_000, -500_000, -500_000)),
        Some(RayImpact {
            block: at(-3, -1, -1),
            pos: point(-2 * BLOCK, -500_000, -500_000),
            face: Side::EAST,
        })
    );
}

#[test]
fn long_path_through_open_world() {
    let world = World::new(Occupancy::Air);
    assert_eq!(
        cast(&world, point(123, 456, 789), point(300 * BLOCK, -200 * BLOCK, 100 * BLOCK)),
        None
    );
}

fn hit(face: Side) -> RayImpact {
    RayImpact {
        block: at(0, 0, 0),
        pos: Position { x: 11, y: 22, z: 33, pitch: 1, yaw: 2 },
        face,
    }
}

#[test]
fn resolve_without_impact_commits_the_target() {
    let previous = point(1, 2, 3);
    let target = Position { x: 4, y: 5, z: 6, pitch: 7, yaw: 8 };
    let mut velocity = Velocity { x: 3, y: 3, z: 3 };
    let mut grounded = true;
    let committed = resolve(previous, target, &mut velocity, &mut grounded, None);
    assert_eq!(committed, target);
    assert_eq!(velocity, Velocity { x: 3, y: 3, z: 3 });
    assert!(!grounded);
}

#[test]
fn resolve_with_impact_commits_the_point_and_the_target_facing() {
    let target = Position { x: 4, y: 5, z: 6, pitch: 7, yaw: 8 };
    let mut velocity = Velocity { x: 3, y: -4, z: 5 };
    let mut grounded = false;
    let committed = resolve(point(0, 0, 0), target, &mut velocity, &mut grounded, Some(hit(Side::BOTTOM)));
    assert_eq!(committed, Position { x: 11, y: 22, z: 33, pitch: 7, yaw: 8 });
    assert_eq!(velocity, Velocity { x: 3, y: 0, z: 5 });
    assert!(grounded);
}

#[test]
fn resolve_zeroes_the_axis_of_the_face() {
    let target = point(4, 5, 6);
    let cases = [
        (Side::WEST, Velocity { x: 0, y: -4, z: 5 }),
        (Side::EAST, Velocity { x: 0, y: -4, z: 5 }),
        (Side::TOP, Velocity { x: 3, y: 0, z: 5 }),
        (Side::BOTTOM, Velocity { x: 3, y: 0, z: 5 }),
        (Side::NORTH, Velocity { x: 3, y: -4, z: 0 }),
        (Side::SOUTH, Velocity { x: 3, y: -4, z: 0 }),
        (Side::NONE, Velocity { x: 3, y: -4, z: 5 }),
    ];
    for (face, expected) in cases {
        let mut velocity = Velocity { x: 3, y: -4, z: 5 };
        let mut grounded = false;
        resolve(point(0, 0, 0), target, &mut velocity, &mut grounded, Some(hit(face)));
        assert_eq!(velocity, expected);
        assert_eq!(grounded, face == Side::BOTTOM);
    }
}

#[test]
fn resolve_keeps_ground_contact_on_other_faces() {
    let target = point(4, 5, 6);
    for face in [Side::WEST, Side::EAST, Side::TOP, Side::NORTH, Side::SOUTH, Side::NONE] {
        let mut velocity = Velocity { x: 3, y: -4, z: 5 };
        let mut grounded = true;
        resolve(point(0, 0, 0), target, &mut velocity, &mut grounded, Some(hit(face)));
        assert!(grounded);
    }
}
