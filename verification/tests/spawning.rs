use voxel_physics::space::Position;
use voxel_physics::spawning::{
    mob_at, physics_test_system, random_mob, random_velocity, Mob, PhysicsTesting, MOB_KINDS,
    SPAWN_PERIOD, SPAWN_SPEED,
};

fn place(x: i64) -> Position {
    Position { x, y: 2 * x, z: -x, pitch: 1, yaw: 2 }
}

#[test]
fn mobs_by_number() {
    assert_eq!(mob_at(0), Mob::Zombie);
    assert_eq!(mob_at(1), Mob::Piglin);
    assert_eq!(mob_at(2), Mob::Zoglin);
    assert_eq!(mob_at(3), Mob::Skeleton);
    assert_eq!(mob_at(4), Mob::Enderman);
    assert_eq!(mob_at(5), Mob::Cow);
    assert_eq!(MOB_KINDS, 6);
}

#[test]
fn random_velocity_is_within_three_quarters_of_a_block() {
    let mut distinct = false;
    let first = random_velocity();
    let mut draws = 0;
    while draws < 200 {
        let velocity = random_velocity();
        assert!(-SPAWN_SPEED <= velocity.x && velocity.x < SPAWN_SPEED);
        assert!(-SPAWN_SPEED <= velocity.y && velocity.y < SPAWN_SPEED);
        assert!(-SPAWN_SPEED <= velocity.z && velocity.z < SPAWN_SPEED);
        assert!(velocity.is_in_range());
        if velocity != first {
            distinct = true;
        }
        draws += 1;
    }
    assert!(distinct);
    assert_eq!(SPAWN_SPEED, 750_000);
}

#[test]
fn random_mob_draws_more_than_one_kind() {
    let first = random_mob();
    let mut other = false;
    let mut draws = 0;
    while draws < 500 {
        if random_mob() != first {
            other = true;
        }
        draws += 1;
    }
    assert!(other);
}

#[test]
fn spawns_on_the_first_tick_and_every_hundredth() {
    let positions = vec![place(1), place(2), place(3)];
    let mut plugin = PhysicsTesting::enable();
    assert_eq!(plugin.tick_counter, 0);
    let mut tick = 0;
    while tick < 201 {
        let spawns = physics_test_system(&mut plugin, &positions);
        assert_eq!(plugin.tick_counter, tick + 1);
        if tick % SPAWN_PERIOD == 0 {
            assert_eq!(spawns.len(), 3);
            let mut index = 0;
            while index < 3 {
                assert_eq!(spawns[index].position, positions[index]);
                let velocity = spawns[index].velocity;
                assert!(-SPAWN_SPEED <= velocity.x && velocity.x < SPAWN_SPEED);
                assert!(-SPAWN_SPEED <= velocity.y && velocity.y < SPAWN_SPEED);
                assert!(-SPAWN_SPEED <= velocity.z && velocity.z < SPAWN_SPEED);
                index += 1;
            }
        } else {
            assert!(spawns.is_empty());
        }
        tick += 1;
    }
    plugin.disable();
}

#[test]
fn nothing_to_spawn_without_positions() {
    let mut plugin = PhysicsTesting { tick_counter: 100 };
    let spawns = physics_test_system(&mut plugin, &Vec::new());
    assert!(spawns.is_empty());
    assert_eq!(plugin.tick_counter, 101);
}
