//! The tick: every entity falls, slows down, moves, and is stopped by the
//! first solid voxel in its way.

use vstd::prelude::*;
use crate::motion::{advance, advanced, Physics};
use crate::ray::{check_collision, collision};
use crate::response::{resolve, resolved_grounded, resolved_position, resolved_velocity};
use crate::space::{Position, Velocity};
use crate::world::World;

verus! {

/// The state of one entity that the tick reads and writes. `on_ground`
/// is `None` for an entity that keeps no record of standing on the
/// ground; such an entity is moved as one that does not stand on it.
#[derive(Debug, Clone, Copy, PartialEq, Eq, Structural)]
pub struct Body {
    pub position: Position,
    pub velocity: Velocity,
    pub on_ground: Option<bool>,
}

impl Body {
    /// Whether the tick can move this entity: its position and its
    /// velocity are in range.
    pub open spec fn in_range(self) -> bool {
        self.position.in_range() && self.velocity.in_range()
    }

    /// Whether the entity counts as standing on the ground.
    pub open spec fn grounded(self) -> bool {
        self.on_ground == Some(true)
    }

    /// Tests whether the tick can move this entity.
    pub fn is_in_range(&self) -> (ok: bool)
        ensures
            ok == self.in_range(),
    {
        self.position.is_in_range() && self.velocity.is_in_range()
    }
}

/// The entity after one tick in `world` under `physics`: its velocity
/// takes gravity and drag, the path from its position along that
/// velocity is cast through the world, and the outcome of the cast
/// settles position, velocity and ground contact.
pub open spec fn ticked(world: &World, physics: Physics, body: Body) -> Body {
    let velocity = physics.integrated(body.velocity, body.grounded());
    let target = advanced(body.position, velocity);
    let impact = collision(world, body.position, target);
    Body {
        position: resolved_position(target, impact),
        velocity: resolved_velocity(velocity, impact),
        on_ground: match body.on_ground {
            None => None,
            Some(grounded) => Some(resolved_grounded(grounded, impact)),
        },
    }
}

/// Moves one entity through one tick.
pub fn tick(world: &World, physics: &Physics, body: &mut Body)
    requires
        physics.well_formed(),
        old(body).in_range(),
    ensures
        *final(body) == ticked(world, *physics, *old(body)),
{
    let mut grounded: bool = match body.on_ground {
        Some(flag) => flag,
        None => false,
    };
    let mut velocity: Velocity = physics.integrate(body.velocity, grounded);
    let mut origin: Position = body.position;
    let target: Position = advance(origin, velocity);
    let impact = check_collision(world, &mut origin, target);
    let committed: Position = resolve(origin, target, &mut velocity, &mut grounded, impact);
    body.position = committed;
    body.velocity = velocity;
    if body.on_ground.is_some() {
        body.on_ground = Some(grounded);
    }
}

/// A world and the entities that move in it.
#[derive(Debug)]
pub struct Game {
    pub world: World,
    pub entities: Vec<Body>,
}

/// What one tick of the system makes of an entity: under the standard
/// constants every entity in range is moved, and one out of range is left
/// as it is.
pub open spec fn system_ticked(world: &World, body: Body) -> Body {
    if body.in_range() {
        ticked(world, Physics::standard(), body)
    } else {
        body
    }
}

/// Runs one tick over every entity of the game, each on its own: no
/// entity's outcome depends on another's. The world is only read.
pub fn physics_system(game: &mut Game)
    ensures
        final(game).world == old(game).world,
        final(game).entities@.len() == old(game).entities@.len(),
        forall|i: int|
            0 <= i < old(game).entities@.len() ==> #[trigger] final(game).entities@[i]
                == system_ticked(&old(game).world, old(game).entities@[i]),
{
    let physics: Physics = Physics::default();
    let count: usize = game.entities.len();
    let mut index: usize = 0;
    while index < count
        invariant
            index <= count,
            count == game.entities@.len(),
            count == old(game).entities@.len(),
            game.world == old(game).world,
            physics == Physics::standard(),
            physics.well_formed(),
            forall|i: int|
                0 <= i < index ==> #[trigger] game.entities@[i] == system_ticked(
                    &old(game).world,
                    old(game).entities@[i],
                ),
            forall|i: int|
                index <= i < count ==> #[trigger] game.entities@[i] == old(game).entities@[i],
        decreases count - index,
    {
        let mut body: Body = game.entities[index];
        if body.is_in_range() {
            tick(&game.world, &physics, &mut body);
            game.entities.set(index, body);
        }
        index += 1;
    }
}

} // verus!
