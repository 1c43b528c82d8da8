//! The fixed numbers of the game's rules. Lengths are thousandths of a world
//! unit, times are microseconds.

use vstd::prelude::*;

verus! {

/// Distance below which a projectile hits an enemy and an enemy touches the
/// player.
pub const HIT_RADIUS: u32 = 20_000;

/// Distance from a fireball's point of impact below which enemies are hurt.
pub const AOE_RADIUS: u32 = 50_000;

/// Distance below which the player picks up an experience orb.
pub const ORB_COLLECT_RADIUS: u32 = 20_000;

/// Distance below which an experience orb is drawn toward the player.
pub const ORB_ATTRACT_RADIUS: u32 = 150_000;

/// Speed of an orb that is drawn toward the player, in world units per second.
pub const ORB_SPEED: u32 = 200;

/// Smallest distance from the player at which an enemy appears.
pub const SPAWN_RING_MIN: u32 = 300_000;

/// Distance from the player that a new enemy stays below.
pub const SPAWN_RING_MAX: u32 = 400_000;

/// Time between two volleys of the weapon.
pub const WEAPON_INTERVAL: u64 = 500_000;

/// Lower limit of the time between two enemy spawns.
pub const SPAWN_INTERVAL_FLOOR: u64 = 100_000;

/// Time between two enemy spawns before the first rescaling.
pub const SPAWN_INTERVAL_START: u64 = 250_000;

/// Damage dealt to the player in every tick in which an enemy touches it.
pub const CONTACT_DAMAGE: u32 = 10;

/// Damage that every projectile deals.
pub const PROJECTILE_DAMAGE: u32 = 10;

/// Health that the player starts with.
pub const PLAYER_HEALTH: u32 = 100;

/// Time for which the player is meant to be safe after a hit. It is counted
/// down, and no rule reads it yet.
pub const DAMAGE_COOLDOWN: u64 = 500_000;

/// Health that every enemy starts with.
pub const ENEMY_HEALTH: u32 = 100;

/// Speed of the player before any upgrade, in world units per second.
pub const PLAYER_SPEED: u32 = 200;

} // verus!
