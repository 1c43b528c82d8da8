//! The player and its movement.

use vstd::prelude::*;
use crate::config::PLAYER_SPEED;
use crate::geometry::step_len;
use crate::geometry::step_length;
use crate::geometry::Vec2;
use crate::health::Health;
use crate::world::Entity;
use crate::world::World;

verus! {

/// The player.
#[derive(Clone, Copy, Debug, PartialEq, Eq, Structural)]
pub struct Player {
    pub entity: Entity,
    pub position: Vec2,
    pub health: Health,
}

/// What the player can do, as far as upgrades may change it.
#[derive(Clone, Copy, Debug, PartialEq, Eq, Structural)]
pub struct PlayerStats {
    /// World units per second.
    pub move_speed: u32,
}

impl Default for PlayerStats {
    fn default() -> (stats: PlayerStats)
        ensures
            stats == (PlayerStats { move_speed: PLAYER_SPEED }),
    {
        PlayerStats { move_speed: PLAYER_SPEED }
    }
}

/// Which of the four directions the player is asked to go in.
#[derive(Clone, Copy, Debug, PartialEq, Eq, Structural)]
pub struct MoveInput {
    pub up: bool,
    pub down: bool,
    pub left: bool,
    pub right: bool,
}

impl MoveInput {
    /// The direction asked for: one step along each axis for each
    /// direction that is held, so that opposite directions cancel.
    pub open spec fn direction(self) -> Vec2 {
        Vec2 {
            x: if self.right && !self.left {
                1
            } else if self.left && !self.right {
                -1i32
            } else {
                0
            },
            y: if self.up && !self.down {
                1
            } else if self.down && !self.up {
                -1i32
            } else {
                0
            },
        }
    }

    /// Computes [`MoveInput::direction`].
    pub fn heading(&self) -> (dir: Vec2)
        ensures
            dir == self.direction(),
    {
        let mut dir = Vec2 { x: 0, y: 0 };
        if self.up {
            dir.y = dir.y + 1;
        }
        if self.down {
            dir.y = dir.y - 1;
        }
        if self.left {
            dir.x = dir.x - 1;
        }
        if self.right {
            dir.x = dir.x + 1;
        }
        dir
    }
}

impl Player {
    /// The player after it has gone where `input` asks for `delta`
    /// microseconds at `speed`. It is as fast along a diagonal as along an
    /// axis, and it stays where it is if no direction is left.
    pub open spec fn walked(self, input: MoveInput, speed: u32, delta: u64) -> Player {
        Player {
            position: self.position.stepped_along(
                input.direction(),
                step_length(speed as int, delta as int),
            ),
            ..self
        }
    }
}

/// The player of a world after [`Player::walked`], if there is one.
pub open spec fn player_moved(
    player: Option<Player>,
    input: MoveInput,
    speed: u32,
    delta: u64,
) -> Option<Player> {
    match player {
        Some(p) => Some(p.walked(input, speed, delta)),
        None => None,
    }
}

/// Lets the player go where `input` asks for `delta` microseconds.
pub fn player_movement(world: &mut World, input: &MoveInput, stats: &PlayerStats, delta: u64)
    requires
        old(world).wf(),
    ensures
        final(world).wf(),
        final(world).player == player_moved(old(world).player, *input, stats.move_speed, delta),
        final(world).next_id == old(world).next_id,
        final(world).enemies@ == old(world).enemies@,
        final(world).projectiles@ == old(world).projectiles@,
        final(world).orbs@ == old(world).orbs@,
{
    match world.player {
        Some(player) => {
            let mut moved = player;
            moved.position = player.position.step_along(
                &input.heading(),
                step_len(stats.move_speed, delta),
            );
            world.player = Some(moved);
        },
        None => {},
    }
}

} // verus!
