use voxel_physics::fraction::scale_toward_zero;
use voxel_physics::motion::{advance, Physics};
use voxel_physics::side::Side;
use voxel_physics::space::{
    block_coordinate, BlockPosition, Position, Velocity, POSITION_LIMIT, UNITS_PER_BLOCK,
    VELOCITY_LIMIT,
};
use voxel_physics::world::{Occupancy, World};

fn at(x: i64, y: i64, z: i64) -> BlockPosition {
    BlockPosition { x, y, z }
}

#[test]
fn side_names() {
    assert_eq!(Side::NORTH.to_string(), "North");
    assert_eq!(Side::SOUTH.to_string(), "South");
    assert_eq!(Side::WEST.to_string(), "West");
    assert_eq!(Side::EAST.to_string(), "East");
    assert_eq!(Side::TOP.to_string(), "Top");
    assert_eq!(Side::BOTTOM.to_string(), "Bottom");
    assert_eq!(Side::NONE.to_string(), "None");
}

#[test]
fn side_equality() {
    assert_eq!(Side::TOP, Side::TOP);
    assert_ne!(Side::TOP, Side::BOTTOM);
    assert_eq!(Side::WEST.clone(), Side::WEST);
}

#[test]
fn block_coordinate_is_the_floor() {
    assert_eq!(block_coordinate(0), 0);
    assert_eq!(block_coordinate(999_999), 0);
    assert_eq!(block_coordinate(1_000_000), 1);
    assert_eq!(block_coordinate(5_500_000), 5);
    assert_eq!(block_coordinate(-1), -1);
    assert_eq!(block_coordinate(-1_000_000), -1);
    assert_eq!(block_coordinate(-1_000_001), -2);
    assert_eq!(block_coordinate(-2_500_000), -3);
    assert_eq!(block_coordinate(i64::MAX), 9_223_372_036_854);
    assert_eq!(block_coordinate(i64::MIN), -9_223_372_036_855);
}

#[test]
fn position_block_floors_each_axis() {
    let position = Position { x: 1_500_000, y: -500_000, z: 64_000_000, pitch: 3, yaw: 4 };
    assert_eq!(position.block(), at(1, -1, 64));
}

#[test]
fn ranges_are_inclusive() {
    let edge = Position { x: POSITION_LIMIT, y: -POSITION_LIMIT, z: 0, pitch: 0, yaw: 0 };
    assert!(edge.is_in_range());
    let beyond = Position { x: POSITION_LIMIT + 1, y: 0, z: 0, pitch: 0, yaw: 0 };
    assert!(!beyond.is_in_range());
    let below = Position { x: 0, y: 0, z: -POSITION_LIMIT - 1, pitch: 0, yaw: 0 };
    assert!(!below.is_in_range());
    assert!(Velocity { x: VELOCITY_LIMIT, y: -VELOCITY_LIMIT, z: 0 }.is_in_range());
    assert!(!Velocity { x: 0, y: VELOCITY_LIMIT + 1, z: 0 }.is_in_range());
    assert!(!Velocity { x: 0, y: 0, z: -VELOCITY_LIMIT - 1 }.is_in_range());
}

#[test]
fn velocity_default_is_rest() {
    assert_eq!(Velocity::default(), Velocity { x: 0, y: 0, z: 0 });
}

#[test]
fn scaling_rounds_toward_zero() {
    assert_eq!(scale_toward_zero(100_000, 500_000, 700_000), 71_428);
    assert_eq!(scale_toward_zero(-100_000, 500_000, 700_000), -71_428);
    assert_eq!(scale_toward_zero(7, 1, 2), 3);
    assert_eq!(scale_toward_zero(-7, 1, 2), -3);
    assert_eq!(scale_toward_zero(12_345, 0, 9), 0);
    assert_eq!(scale_toward_zero(12_345, 9, 9), 12_345);
    assert_eq!(scale_toward_zero(-12_345, 9, 9), -12_345);
    assert_eq!(scale_toward_zero(i64::MAX, u64::MAX, u64::MAX), i64::MAX);
}

#[test]
fn world_background_fills_the_grid() {
    let air = World::new(Occupancy::Air);
    assert_eq!(air.block_at(at(0, 0, 0)), Occupancy::Air);
    assert_eq!(air.block_at(at(-7, 300, 12)), Occupancy::Air);
    let unloaded = World::new(Occupancy::Unknown);
    assert_eq!(unloaded.block_at(at(1, 2, 3)), Occupancy::Unknown);
}

#[test]
fn world_later_record_replaces_earlier() {
    let mut world = World::new(Occupancy::Unknown);
    world.set_block(at(1, 2, 3), Occupancy::Solid);
    world.set_block(at(4, 5, 6), Occupancy::Air);
    assert_eq!(world.block_at(at(1, 2, 3)), Occupancy::Solid);
    assert_eq!(world.block_at(at(4, 5, 6)), Occupancy::Air);
    assert_eq!(world.block_at(at(1, 2, 4)), Occupancy::Unknown);
    world.set_block(at(1, 2, 3), Occupancy::Air);
    assert_eq!(world.block_at(at(1, 2, 3)), Occupancy::Air);
    assert_eq!(world.block_at(at(4, 5, 6)), Occupancy::Air);
}

#[test]
fn only_solid_blocks_motion() {
    assert!(Occupancy::Solid.is_solid());
    assert!(!Occupancy::Air.is_solid());
    assert!(!Occupancy::Unknown.is_solid());
}

#[test]
fn physics_default_constants() {
    let physics = Physics::default();
    assert_eq!(physics.gravity, 80_000);
    assert_eq!(physics.drag, 20_000);
    assert_eq!(physics.bounding_box.min_x, 0);
    assert_eq!(physics.bounding_box.min_y, 0);
    assert_eq!(physics.bounding_box.min_z, 0);
    assert_eq!(physics.bounding_box.max_x, 600_000);
    assert_eq!(physics.bounding_box.max_y, 1_800_000);
    assert_eq!(physics.bounding_box.max_z, 600_000);
    assert!(physics.is_well_formed());
    assert_eq!(UNITS_PER_BLOCK, 1_000_000);
}

#[test]
fn physics_well_formed_bounds() {
    let mut physics = Physics::default();
    physics.drag = UNITS_PER_BLOCK;
    assert!(physics.is_well_formed());
    physics.drag = UNITS_PER_BLOCK + 1;
    assert!(!physics.is_well_formed());
    physics.drag = -1;
    assert!(!physics.is_well_formed());
    physics.drag = 0;
    physics.gravity = -1;
    assert!(!physics.is_well_formed());
    physics.gravity = VELOCITY_LIMIT;
    assert!(physics.is_well_formed());
    physics.gravity = VELOCITY_LIMIT + 1;
    assert!(!physics.is_well_formed());
}

#[test]
fn integrate_in_the_air_takes_gravity_then_drag() {
    let physics = Physics::default();
    let next = physics.integrate(Velocity { x: 1_000_000, y: -500_000, z: -1_000_000 }, false);
    assert_eq!(next, Velocity { x: 980_000, y: -568_400, z: -980_000 });
    // Drag first would give (-500_000 * 0.98) - 80_000 = -570_000.
    assert_ne!(next.y, -570_000);
}

#[test]
fn integrate_from_rest_in_the_air() {
    let physics = Physics::default();
    let next = physics.integrate(Velocity { x: 0, y: 0, z: 0 }, false);
    assert_eq!(next, Velocity { x: 0, y: -78_400, z: 0 });
}

#[test]
fn integrate_on_the_ground_slows_only_sideways() {
    let physics = Physics::default();
    let next = physics.integrate(Velocity { x: 500_000, y: 0, z: -250_000 }, true);
    assert_eq!(next, Velocity { x: 490_000, y: 0, z: -245_000 });
    let kept = physics.integrate(Velocity { x: 0, y: 123, z: 0 }, true);
    assert_eq!(kept.y, 123);
}

#[test]
fn integrate_rounds_toward_zero() {
    let physics = Physics::default();
    let next = physics.integrate(Velocity { x: 1, y: 80_001, z: -1 }, false);
    assert_eq!(next, Velocity { x: 0, y: 0, z: 0 });
    let more = physics.integrate(Velocity { x: 51, y: 80_000 + 101, z: -51 }, false);
    assert_eq!(more, Velocity { x: 49, y: 98, z: -49 });
}

#[test]
fn integrate_approaches_terminal_velocity() {
    let physics = Physics::default();
    let mut velocity = Velocity { x: 0, y: 0, z: 0 };
    let mut ticks = 0;
    while ticks < 2_000 {
        velocity = physics.integrate(velocity, false);
        ticks += 1;
    }
    // 0.08 * 0.98 / 0.02 = 3.92 blocks per tick, less what rounding took.
    assert!(velocity.y <= -3_919_900);
    assert!(velocity.y >= -3_920_000);
}

#[test]
fn advance_adds_velocity_and_keeps_facing() {
    let position = Position { x: 1, y: 2, z: 3, pitch: 45, yaw: -90 };
    let target = advance(position, Velocity { x: 10, y: -20, z: 30 });
    assert_eq!(target, Position { x: 11, y: -18, z: 33, pitch: 45, yaw: -90 });
}
