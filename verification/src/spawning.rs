//! A trial system for the physics: every hundredth tick it throws a mob
//! of a random kind, with a random velocity, from each given position.

use rand::Rng;
use vstd::prelude::*;
use crate::space::{Position, Velocity};

verus! {

/// The number of ticks from one round of spawns to the next.
pub const SPAWN_PERIOD: u64 = 100;

/// The bound on each component of the velocity of a spawned mob, in
/// units per tick: 0.75 blocks.
pub const SPAWN_SPEED: i64 = 750_000;

/// The number of kinds of mob.
pub const MOB_KINDS: i64 = 6;

/// The kinds of mob that the system spawns.
#[derive(Debug, Clone, Copy, PartialEq, Eq, Structural)]
pub enum Mob {
    Zombie,
    Piglin,
    Zoglin,
    Skeleton,
    Enderman,
    Cow,
}

/// A mob to spawn: what it is, where it starts and how fast it moves.
#[derive(Debug, Clone, Copy, PartialEq, Eq, Structural)]
pub struct Spawn {
    pub mob: Mob,
    pub position: Position,
    pub velocity: Velocity,
}

/// The state of the trial system: the number of ticks it has seen.
#[derive(Debug, Clone, Copy, PartialEq, Eq, Structural)]
pub struct PhysicsTesting {
    pub tick_counter: u64,
}

/// The kind of mob with the number `index`.
pub open spec fn mob_of(index: int) -> Mob {
    if index == 0 {
        Mob::Zombie
    } else if index == 1 {
        Mob::Piglin
    } else if index == 2 {
        Mob::Zoglin
    } else if index == 3 {
        Mob::Skeleton
    } else if index == 4 {
        Mob::Enderman
    } else {
        Mob::Cow
    }
}

/// Whether the system spawns on the tick with the number `tick`.
pub open spec fn spawn_due(tick: u64) -> bool {
    tick % SPAWN_PERIOD == 0
}

/// Whether `velocity` is one that a spawned mob can have: each component
/// is at least `-SPAWN_SPEED` and less than `SPAWN_SPEED`.
pub open spec fn spawn_velocity(velocity: Velocity) -> bool {
    &&& -SPAWN_SPEED <= velocity.x < SPAWN_SPEED
    &&& -SPAWN_SPEED <= velocity.y < SPAWN_SPEED
    &&& -SPAWN_SPEED <= velocity.z < SPAWN_SPEED
}

/// Draws a number from `low` up to, but not including, `high` with
/// `rand::Rng::gen_range` on the generator of the current thread. All
/// that is claimed of the outcome is that it lies in that range; the
/// empty range, on which `gen_range` panics, is left out.
#[verifier::external_body]
fn random_between(low: i64, high: i64) -> (value: i64)
    requires
        low < high,
    ensures
        low <= value < high,
{
    rand::thread_rng().gen_range(low..high)
}

/// The kind of mob with the number `index`.
pub fn mob_at(index: i64) -> (mob: Mob)
    requires
        0 <= index < MOB_KINDS,
    ensures
        mob == mob_of(index as int),
{
    if index == 0 {
        Mob::Zombie
    } else if index == 1 {
        Mob::Piglin
    } else if index == 2 {
        Mob::Zoglin
    } else if index == 3 {
        Mob::Skeleton
    } else if index == 4 {
        Mob::Enderman
    } else {
        Mob::Cow
    }
}

/// Picks a kind of mob at random: the kind with a number drawn from 0
/// up to, but not including, `MOB_KINDS`.
pub fn random_mob() -> (mob: Mob)
    ensures
        exists|index: int| 0 <= index < MOB_KINDS && mob == #[trigger] mob_of(index),
{
    mob_at(random_between(0, MOB_KINDS))
}

/// Picks the velocity of a spawned mob at random.
pub fn random_velocity() -> (velocity: Velocity)
    ensures
        spawn_velocity(velocity),
        velocity.in_range(),
{
    let x: i64 = random_between(-SPAWN_SPEED, SPAWN_SPEED);
    let y: i64 = random_between(-SPAWN_SPEED, SPAWN_SPEED);
    let z: i64 = random_between(-SPAWN_SPEED, SPAWN_SPEED);
    Velocity { x, y, z }
}

impl PhysicsTesting {
    /// The state of a system that has seen no tick.
    pub fn enable() -> (plugin: PhysicsTesting)
        ensures
            plugin.tick_counter == 0,
    {
        PhysicsTesting { tick_counter: 0 }
    }

    /// Ends the system.
    pub fn disable(self) {
    }
}

/// Runs the trial system for one tick. On a tick that is due it returns
/// one mob for each of `positions`, in their order, each at its position;
/// on any other tick it returns none. Either way it counts the tick.
pub fn physics_test_system(plugin: &mut PhysicsTesting, positions: &Vec<Position>) -> (spawns: Vec<
    Spawn,
>)
    requires
        old(plugin).tick_counter < u64::MAX,
    ensures
        final(plugin).tick_counter == old(plugin).tick_counter + 1,
        spawn_due(old(plugin).tick_counter) ==> spawns@.len() == positions@.len(),
        !spawn_due(old(plugin).tick_counter) ==> spawns@.len() == 0,
        forall|i: int|
            0 <= i < spawns@.len() ==> (#[trigger] spawns@[i]).position == positions@[i]
                && spawn_velocity(spawns@[i].velocity),
{
    let mut spawns: Vec<Spawn> = Vec::new();
    if plugin.tick_counter % SPAWN_PERIOD == 0 {
        let mut index: usize = 0;
        while index < positions.len()
            invariant
                index <= positions@.len(),
                spawns@.len() == index,
                forall|i: int|
                    0 <= i < index ==> (#[trigger] spawns@[i]).position == positions@[i]
                        && spawn_velocity(spawns@[i].velocity),
            decreases positions@.len() - index,
        {
            let mob: Mob = random_mob();
            let velocity: Velocity = random_velocity();
            spawns.push(Spawn { mob, position: positions[index], velocity });
            index += 1;
        }
    }
    plugin.tick_counter = plugin.tick_counter + 1;
    spawns
}

} // verus!
