//! Enemies: their kinds, when they appear, how they move and how they hurt
//! the player.

use vstd::prelude::*;
use crate::config::CONTACT_DAMAGE;
use crate::config::ENEMY_HEALTH;
use crate::config::HIT_RADIUS;
use crate::config::SPAWN_INTERVAL_FLOOR;
use crate::config::SPAWN_INTERVAL_START;
use crate::config::SPAWN_RING_MAX;
use crate::config::SPAWN_RING_MIN;
use crate::geometry::lemma_ring_point_distance;
use crate::geometry::lemma_square_monotone;
use crate::geometry::point_on_ring;
use crate::geometry::ring_point;
use crate::geometry::scaled_down;
use crate::geometry::step_len;
use crate::geometry::step_length;
use crate::geometry::Turn;
use crate::geometry::Vec2;
use crate::health::DamageEvent;
use crate::health::Health;
use crate::player::Player;
use crate::projectile::any_in_reach;
use crate::projectile::find_in_reach;
use crate::random::random_below;
use crate::timer::Timer;
use crate::timer::TimerMode;
use crate::world::enemy_ids;
use crate::world::Entity;
use crate::world::World;

verus! {

/// The kinds of enemy.
#[derive(Clone, Copy, Debug, PartialEq, Eq, Structural)]
pub enum EnemyType {
    Skeleton,
    Orc,
    Werewolf,
}

/// What is fixed for every enemy of one kind.
#[derive(Clone, Copy, Debug)]
pub struct EnemyDefinition {
    pub name: &'static str,
    /// Sprite sheet of the kind.
    pub texture_path: &'static str,
    /// Width and height of one frame of the sheet, in pixels.
    pub frame_size: u32,
    pub columns: u32,
    pub rows: u32,
    /// Size at which the sprite is drawn, in hundredths.
    pub scale_percent: u32,
    /// World units per second.
    pub speed: u32,
    pub max_health: u32,
}

impl EnemyType {
    /// The table of enemy kinds.
    pub open spec fn spec_definition(&self) -> EnemyDefinition {
        match self {
            EnemyType::Skeleton => EnemyDefinition {
                name: "Skeleton",
                texture_path: "Skeleton.png",
                frame_size: 100,
                columns: 8,
                rows: 7,
                scale_percent: 150,
                speed: 50,
                max_health: ENEMY_HEALTH,
            },
            EnemyType::Orc => EnemyDefinition {
                name: "Orc",
                texture_path: "Orc.png",
                frame_size: 100,
                columns: 8,
                rows: 7,
                scale_percent: 150,
                speed: 100,
                max_health: ENEMY_HEALTH,
            },
            EnemyType::Werewolf => EnemyDefinition {
                name: "Werewolf",
                texture_path: "Werewolf.png",
                frame_size: 100,
                columns: 8,
                rows: 7,
                scale_percent: 150,
                speed: 150,
                max_health: ENEMY_HEALTH,
            },
        }
    }

    /// Looks the kind up in the table.
    #[verifier::when_used_as_spec(spec_definition)]
    pub fn definition(&self) -> (d: EnemyDefinition)
        ensures
            d == self.spec_definition(),
    {
        match self {
            EnemyType::Skeleton => EnemyDefinition {
                name: "Skeleton",
                texture_path: "Skeleton.png",
                frame_size: 100,
                columns: 8,
                rows: 7,
                scale_percent: 150,
                speed: 50,
                max_health: ENEMY_HEALTH,
            },
            EnemyType::Orc => EnemyDefinition {
                name: "Orc",
                texture_path: "Orc.png",
                frame_size: 100,
                columns: 8,
                rows: 7,
                scale_percent: 150,
                speed: 100,
                max_health: ENEMY_HEALTH,
            },
            EnemyType::Werewolf => EnemyDefinition {
                name: "Werewolf",
                texture_path: "Werewolf.png",
                frame_size: 100,
                columns: 8,
                rows: 7,
                scale_percent: 150,
                speed: 150,
                max_health: ENEMY_HEALTH,
            },
        }
    }
}

/// An enemy. It carries its own speed, so that one enemy can be changed
/// without the table.
#[derive(Clone, Copy, Debug, PartialEq, Eq, Structural)]
pub struct Enemy {
    pub entity: Entity,
    pub position: Vec2,
    pub speed: u32,
    pub enemy_type: EnemyType,
    pub health: Health,
}

/// The timer between two enemy spawns.
#[derive(Clone, Copy, Debug, PartialEq, Eq, Structural)]
pub struct EnemySpawnTimer(pub Timer);

impl Default for EnemySpawnTimer {
    fn default() -> (timer: EnemySpawnTimer)
        ensures
            timer.0 == (Timer {
                elapsed: 0,
                duration: SPAWN_INTERVAL_START,
                mode: TimerMode::Repeating,
                finished: false,
            }),
    {
        EnemySpawnTimer(Timer::new(SPAWN_INTERVAL_START, TimerMode::Repeating))
    }
}

/// Thousandths of a degree in a full turn.
pub const FULL_TURN: u32 = 360_000;

/// A new enemy that is due: its kind, and where it appears as seen from
/// the player.
#[derive(Clone, Copy, Debug, PartialEq, Eq, Structural)]
pub struct SpawnOrder {
    pub enemy_type: EnemyType,
    /// Direction from the player, in thousandths of a degree from the x
    /// axis, counter-clockwise.
    pub angle: u32,
    /// Distance from the player.
    pub radius: u32,
}

/// Numerator of the spawn interval after `elapsed` microseconds of play,
/// as an exact fraction of microseconds.
pub open spec fn interval_numer(elapsed: int) -> int {
    250_000 * (elapsed + 100_000_000) + 100_000_000_000_000
}

/// Denominator of the spawn interval after `elapsed` microseconds of play.
pub open spec fn interval_denom(elapsed: int) -> int {
    elapsed + 100_000_000
}

/// Time between two spawns after `elapsed` microseconds of play, in
/// microseconds and rounded down: a quarter of a second and
/// `100 / (t + 100)` seconds, where `t` is the time of play in seconds, and
/// never less than the floor.
pub open spec fn spawn_interval(elapsed: int) -> int {
    let curve = interval_numer(elapsed) / interval_denom(elapsed);
    if curve < SPAWN_INTERVAL_FLOOR {
        SPAWN_INTERVAL_FLOOR as int
    } else {
        curve
    }
}

/// The spawn interval starts at one and a quarter seconds.
pub proof fn lemma_interval_start()
    ensures
        spawn_interval(0) == 1_250_000,
{
    assert(interval_numer(0) == 125_000_000_000_000);
    assert(interval_denom(0) == 100_000_000);
    assert(125_000_000_000_000int / 100_000_000int == 1_250_000) by (nonlinear_arith);
}

/// Before rounding, the spawn interval gets strictly shorter as play goes
/// on: of two times of play, the later has the smaller fraction.
pub proof fn lemma_interval_strictly_decreasing(earlier: int, later: int)
    requires
        0 <= earlier < later,
    ensures
        interval_numer(earlier) * interval_denom(later) > interval_numer(later) * interval_denom(
            earlier,
        ),
        interval_denom(earlier) > 0,
        interval_denom(later) > 0,
{
    let a = earlier + 100_000_000;
    let b = later + 100_000_000;
    assert((250_000 * a + 100_000_000_000_000) * b > (250_000 * b + 100_000_000_000_000) * a)
        by (nonlinear_arith)
        requires
            0 < a < b,
    ;
}

/// Rounded to microseconds, the spawn interval never gets longer as play
/// goes on.
pub proof fn lemma_interval_decreasing(earlier: int, later: int)
    requires
        0 <= earlier <= later,
    ensures
        spawn_interval(earlier) >= spawn_interval(later),
{
    let a = earlier + 100_000_000;
    let b = later + 100_000_000;
    let c = 100_000_000_000_000int;
    assert((250_000 * a + c) / a == 250_000 + c / a && (250_000 * b + c) / b == 250_000 + c / b
        && c / a >= c / b && c / b >= 0) by (nonlinear_arith)
        requires
            0 < a <= b,
            c >= 0,
    ;
}

/// The spawn interval stays above a quarter of a second, and so above its
/// floor, however long play goes on.
pub proof fn lemma_interval_above_floor(elapsed: int)
    requires
        0 <= elapsed,
    ensures
        spawn_interval(elapsed) == interval_numer(elapsed) / interval_denom(elapsed),
        spawn_interval(elapsed) >= 250_000,
        spawn_interval(elapsed) <= 1_250_000,
{
    let a = elapsed + 100_000_000;
    let c = 100_000_000_000_000int;
    assert((250_000 * a + c) / a == 250_000 + c / a && 0 <= c / a <= 1_000_000)
        by (nonlinear_arith)
        requires
            100_000_000 <= a,
            c == 100_000_000_000_000,
    ;
}

/// Sets the time between two spawns to [`spawn_interval`] of the time of
/// play so far. The time already counted toward the next spawn stays.
pub fn difficulty_scaling(timer: &mut EnemySpawnTimer, elapsed: u64)
    ensures
        final(timer).0 == (Timer { duration: spawn_interval(elapsed as int) as u64, ..old(timer).0 }),
{
    let denom: u128 = elapsed as u128 + 100_000_000;
    let numer: u128 = 250_000 * denom + 100_000_000_000_000;
    let curve: u128 = numer / denom;
    proof {
        lemma_interval_above_floor(elapsed as int);
    }
    let interval: u64 = if curve < SPAWN_INTERVAL_FLOOR as u128 {
        SPAWN_INTERVAL_FLOOR
    } else {
        curve as u64
    };
    timer.0.set_duration(interval);
}

/// The kind of enemy that a draw stands for.
pub open spec fn kind_of_draw(draw: u32) -> EnemyType {
    if draw == 0 {
        EnemyType::Skeleton
    } else if draw == 1 {
        EnemyType::Orc
    } else {
        EnemyType::Werewolf
    }
}

/// The spawn order that three draws stand for. A draw for the angle counts
/// within the full turn, a draw for the radius within the width of the
/// spawn ring.
pub open spec fn order_of_draws(kind: u32, angle: u32, radius: u32) -> SpawnOrder {
    SpawnOrder {
        enemy_type: kind_of_draw(kind),
        angle: (angle % FULL_TURN) as u32,
        radius: (SPAWN_RING_MIN + radius % ((SPAWN_RING_MAX - SPAWN_RING_MIN) as u32)) as u32,
    }
}

/// Makes a spawn order of three draws.
pub fn spawn_order(kind: u32, angle: u32, radius: u32) -> (order: SpawnOrder)
    ensures
        order == order_of_draws(kind, angle, radius),
        order.angle < FULL_TURN,
        SPAWN_RING_MIN <= order.radius < SPAWN_RING_MAX,
{
    let enemy_type = if kind == 0 {
        EnemyType::Skeleton
    } else if kind == 1 {
        EnemyType::Orc
    } else {
        EnemyType::Werewolf
    };
    SpawnOrder {
        enemy_type,
        angle: angle % FULL_TURN,
        radius: SPAWN_RING_MIN + radius % (SPAWN_RING_MAX - SPAWN_RING_MIN),
    }
}

/// Lets the spawn timer run and orders a new enemy when it finishes.
///
/// The timer is advanced by `delta` microseconds. An order comes back
/// exactly if the timer has finished with this tick. Its kind, its angle
/// and its radius within the spawn ring are drawn by chance.
pub fn enemy_spawner(timer: &mut EnemySpawnTimer, delta: u64) -> (order: Option<SpawnOrder>)
    ensures
        final(timer).0 == old(timer).0.ticked(delta),
        order is Some <==> final(timer).0.finished,
        order is Some ==> order.unwrap().angle < FULL_TURN,
        order is Some ==> SPAWN_RING_MIN <= order.unwrap().radius < SPAWN_RING_MAX,
{
    timer.0.tick(delta);
    if !timer.0.finished() {
        return None;
    }
    let kind = random_below(3);
    let angle = random_below(FULL_TURN);
    let radius = random_below(SPAWN_RING_MAX - SPAWN_RING_MIN);
    Some(spawn_order(kind, angle, radius))
}

/// Carries out a spawn order. `turn` holds the cosine and the sine of the
/// angle of the order.
///
/// The enemy appears at the distance of the order from the player, in the
/// direction of `turn` (see [`ring_point`]), with the speed and the full
/// health of its kind. Without a player no enemy appears.
pub fn spawn_ordered(world: &mut World, order: &SpawnOrder, turn: &Turn) -> (entity: Option<Entity>)
    requires
        old(world).wf(),
        old(world).next_id < u64::MAX,
    ensures
        final(world).wf(),
        entity is Some <==> old(world).player is Some,
        entity is None ==> final(world).enemies@ == old(world).enemies@ && final(world).next_id
            == old(world).next_id,
        entity is Some ==> {
            &&& entity.unwrap().id == old(world).next_id
            &&& final(world).next_id == old(world).next_id + 1
            &&& final(world).enemies@ == old(world).enemies@.push(
                ordered_enemy(
                    entity.unwrap(),
                    *order,
                    ring_point(old(world).player.unwrap().position, order.radius, *turn),
                ),
            )
        },
        final(world).player == old(world).player,
        final(world).projectiles@ == old(world).projectiles@,
        final(world).orbs@ == old(world).orbs@,
{
    match world.player {
        Some(player) => {
            let at = point_on_ring(&player.position, order.radius, turn);
            Some(world.spawn_enemy(order.enemy_type, at))
        },
        None => None,
    }
}

/// An enemy that is ordered into the spawn ring appears in it, up to three
/// thousandths of a unit that rounding may bring it nearer to the player.
/// This holds for the cosine and sine of an angle, and as long as the place
/// does not stop at an end of the coordinate range.
pub proof fn lemma_spawn_in_ring(player: Vec2, order: SpawnOrder, turn: Turn)
    requires
        turn.is_unit(),
        SPAWN_RING_MIN <= order.radius < SPAWN_RING_MAX,
        i32::MIN <= player.x + scaled_down(order.radius * turn.cos) <= i32::MAX,
        i32::MIN <= player.y + scaled_down(order.radius * turn.sin) <= i32::MAX,
    ensures
        (SPAWN_RING_MIN - 3) * (SPAWN_RING_MIN - 3) <= player.dist_sq(
            ring_point(player, order.radius, turn),
        ),
        player.dist_sq(ring_point(player, order.radius, turn)) <= SPAWN_RING_MAX * SPAWN_RING_MAX,
{
    lemma_ring_point_distance(player, order.radius, turn);
    lemma_square_monotone(SPAWN_RING_MIN - 3, order.radius - 3);
    lemma_square_monotone(order.radius + 1, SPAWN_RING_MAX as int);
}

/// The enemy that a spawn order brings to `position`.
pub open spec fn ordered_enemy(entity: Entity, order: SpawnOrder, position: Vec2) -> Enemy {
    Enemy {
        entity,
        position,
        speed: order.enemy_type.spec_definition().speed,
        enemy_type: order.enemy_type,
        health: Health {
            current: order.enemy_type.spec_definition().max_health as i64,
            max: order.enemy_type.spec_definition().max_health,
        },
    }
}

impl Enemy {
    /// The enemy after it has gone toward `target` for `delta`
    /// microseconds at its own speed.
    pub open spec fn chased(self, target: Vec2, delta: u64) -> Enemy {
        Enemy {
            position: self.position.stepped_toward(
                target,
                step_length(self.speed as int, delta as int),
            ),
            ..self
        }
    }
}

/// [`Enemy::chased`] for a fixed target and time.
pub open spec fn chase(target: Vec2, delta: u64) -> spec_fn(Enemy) -> Enemy {
    |e: Enemy| e.chased(target, delta)
}

/// The enemies after `delta` microseconds: each has gone toward the player
/// where there is one, and none has moved where there is none.
pub open spec fn enemies_moved(player: Option<Player>, enemies: Seq<Enemy>, delta: u64) -> Seq<
    Enemy,
> {
    match player {
        Some(p) => enemies.map_values(chase(p.position, delta)),
        None => enemies,
    }
}

/// Lets every enemy go straight toward the player for `delta`
/// microseconds. Enemies do not get out of each other's way, and an enemy
/// that stands on the player stays there.
pub fn enemy_movement(world: &mut World, delta: u64)
    requires
        old(world).wf(),
    ensures
        final(world).wf(),
        final(world).enemies@ == enemies_moved(old(world).player, old(world).enemies@, delta),
        final(world).next_id == old(world).next_id,
        final(world).player == old(world).player,
        final(world).projectiles@ == old(world).projectiles@,
        final(world).orbs@ == old(world).orbs@,
{
    let target = match world.player {
        Some(player) => player.position,
        None => {
            return ;
        },
    };
    let ghost go = chase(target, delta);
    let mut i: usize = 0;
    while i < world.enemies.len()
        invariant
            i <= world.enemies@.len(),
            world.enemies@.len() == old(world).enemies@.len(),
            go == chase(target, delta),
            forall|k: int| 0 <= k < i ==> world.enemies@[k] == go(old(world).enemies@[k]),
            forall|k: int|
                i <= k < world.enemies@.len() ==> world.enemies@[k] == old(world).enemies@[k],
            world.next_id == old(world).next_id,
            world.player == old(world).player,
            world.projectiles@ == old(world).projectiles@,
            world.orbs@ == old(world).orbs@,
        decreases world.enemies@.len() - i,
    {
        let mut enemy = world.enemies[i];
        enemy.position = enemy.position.step_toward(&target, step_len(enemy.speed, delta));
        world.enemies[i] = enemy;
        i = i + 1;
    }
    assert(world.enemies@ =~= old(world).enemies@.map_values(go));
    assert(enemy_ids(world.enemies@) =~= enemy_ids(old(world).enemies@));
}

/// The damage events of one tick against the player: one of the contact
/// damage if any enemy is closer than the hit radius, however many are, and
/// none if no enemy is or there is no player.
pub open spec fn contact_events(player: Option<Player>, enemies: Seq<Enemy>) -> Seq<DamageEvent> {
    match player {
        Some(p) => if any_in_reach(enemies, p.position, HIT_RADIUS) {
            seq![DamageEvent { entity: p.entity, amount: CONTACT_DAMAGE }]
        } else {
            Seq::empty()
        },
        None => Seq::empty(),
    }
}

/// Hurts the player if an enemy touches it: once in every tick in which
/// at least one enemy is that close.
pub fn enemy_player_collision(world: &World, damage_events: &mut Vec<DamageEvent>)
    ensures
        final(damage_events)@ == old(damage_events)@ + contact_events(
            world.player,
            world.enemies@,
        ),
{
    match world.player {
        Some(player) => {
            match find_in_reach(&world.enemies, &player.position, HIT_RADIUS) {
                Some(_) => {
                    damage_events.push(
                        DamageEvent { entity: player.entity, amount: CONTACT_DAMAGE },
                    );
                },
                None => {},
            }
        },
        None => {},
    }
    assert(damage_events@ =~= old(damage_events)@ + contact_events(world.player, world.enemies@));
}

} // verus!
