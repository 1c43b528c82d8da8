//! The player's weapon: when it fires, at what it aims and how a volley
//! fans out.

use vstd::prelude::*;
use crate::config::PROJECTILE_DAMAGE;
use crate::config::WEAPON_INTERVAL;
use crate::enemy::Enemy;
use crate::geometry::is_direction;
use crate::geometry::magnitude;
use crate::geometry::Turn;
use crate::geometry::Vec2;
use crate::geometry::TRIG_SCALE;
use crate::projectile::Projectile;
use crate::projectile::ProjectileKind;
use crate::world::Entity;
use crate::world::World;
use crate::timer::Timer;
use crate::timer::TimerMode;

verus! {

/// The timer between two volleys.
#[derive(Clone, Copy, Debug, PartialEq, Eq, Structural)]
pub struct WeaponTimer(pub Timer);

impl Default for WeaponTimer {
    fn default() -> (timer: WeaponTimer)
        ensures
            timer.0 == (Timer {
                elapsed: 0,
                duration: WEAPON_INTERVAL,
                mode: TimerMode::Repeating,
                finished: false,
            }),
    {
        WeaponTimer(Timer::new(WEAPON_INTERVAL, TimerMode::Repeating))
    }
}

/// What the weapon fires. Only the choice of an upgrade changes it.
#[derive(Clone, Copy, Debug, PartialEq, Eq, Structural)]
pub struct WeaponStats {
    /// Projectiles in one volley; a volley never has fewer than one.
    pub multishot: u32,
    /// Whole arc over which a volley fans out, in degrees.
    pub spread_deg: u32,
    /// World units per second.
    pub projectile_speed: u32,
    pub current_shot_type: ProjectileKind,
}

impl Default for WeaponStats {
    fn default() -> (stats: WeaponStats)
        ensures
            stats == (WeaponStats {
                multishot: 1,
                spread_deg: 10,
                projectile_speed: 300,
                current_shot_type: ProjectileKind::Normal,
            }),
    {
        WeaponStats {
            multishot: 1,
            spread_deg: 10,
            projectile_speed: 300,
            current_shot_type: ProjectileKind::Normal,
        }
    }
}

/// One projectile of a volley, before it is in the world.
#[derive(Clone, Copy, Debug, PartialEq, Eq, Structural)]
pub struct Shot {
    /// Angle by which the shot is turned away from the aim, in thousandths
    /// of a degree, counter-clockwise.
    pub offset: i64,
    pub kind: ProjectileKind,
    pub damage: u32,
}

/// What the weapon fires at one time.
#[derive(Debug)]
pub struct Volley {
    /// Where the projectiles start.
    pub origin: Vec2,
    /// The direction from the player to its target.
    pub aim: Vec2,
    pub shots: Vec<Shot>,
}

/// `k` is the place of the enemy nearest to `from`, and of the first such
/// enemy if several are equally near.
pub open spec fn is_nearest(enemies: Seq<Enemy>, from: Vec2, k: int) -> bool {
    &&& 0 <= k < enemies.len()
    &&& forall|j: int|
        0 <= j < enemies.len() ==> from.dist_sq(enemies[k].position) <= from.dist_sq(
            (#[trigger] enemies[j]).position,
        )
    &&& forall|j: int|
        0 <= j < k ==> from.dist_sq(enemies[k].position) < from.dist_sq(
            (#[trigger] enemies[j]).position,
        )
}

/// The place of the enemy nearest to `from` (see [`is_nearest`]).
pub open spec fn nearest_index(enemies: Seq<Enemy>, from: Vec2) -> int {
    choose|k: int| is_nearest(enemies, from, k)
}

/// Only one place is that of the nearest enemy.
pub proof fn lemma_nearest_unique(enemies: Seq<Enemy>, from: Vec2, k: int)
    requires
        is_nearest(enemies, from, k),
    ensures
        nearest_index(enemies, from) == k,
{
    let c = nearest_index(enemies, from);
    assert(is_nearest(enemies, from, c));
    if c < k {
        assert(from.dist_sq(enemies[k].position) < from.dist_sq(enemies[c].position));
        assert(from.dist_sq(enemies[c].position) <= from.dist_sq(enemies[k].position));
    } else if k < c {
        assert(from.dist_sq(enemies[c].position) < from.dist_sq(enemies[k].position));
        assert(from.dist_sq(enemies[k].position) <= from.dist_sq(enemies[c].position));
    }
}

/// The aim from `from`: the direction of the nearest enemy, or that of the
/// x axis where there is no enemy. An enemy at `from` itself gives the zero
/// vector.
pub open spec fn aim_from(enemies: Seq<Enemy>, from: Vec2) -> Vec2 {
    if enemies.len() == 0 {
        Vec2 { x: TRIG_SCALE as i32, y: 0 }
    } else {
        from.direction_toward(enemies[nearest_index(enemies, from)].position)
    }
}

/// Projectiles in a volley: `multishot`, and one where that is zero.
pub open spec fn shot_count(multishot: u32) -> u32 {
    if multishot < 1 {
        1
    } else {
        multishot
    }
}

/// Angle of shot `i` of `count` against the aim, in thousandths of a
/// degree, rounded toward zero.
///
/// The shots stand at equal steps over the whole arc `spread_deg`: the step
/// is `spread_deg / (count - 1)`, and shot `i` is `i - (count - 1) / 2`
/// steps away from the aim. A single shot is not turned.
pub open spec fn spread_offset(spread_deg: int, count: int, i: int) -> int {
    if count <= 1 {
        0
    } else {
        let half_steps = 2 * i - (count - 1);
        let size = spread_deg * 1000 * magnitude(half_steps) / (2 * (count - 1));
        if half_steps < 0 {
            -size
        } else {
            size
        }
    }
}

/// Shot `i` of a volley fired with `stats`.
pub open spec fn shot_at(stats: WeaponStats, i: int) -> Shot {
    Shot {
        offset: spread_offset(
            stats.spread_deg as int,
            shot_count(stats.multishot) as int,
            i,
        ) as i64,
        kind: stats.current_shot_type,
        damage: PROJECTILE_DAMAGE,
    }
}

/// The shots of a volley fired with `stats`, from the most clockwise on.
pub open spec fn volley_shots(stats: WeaponStats) -> Seq<Shot> {
    Seq::new(shot_count(stats.multishot) as nat, |i: int| shot_at(stats, i))
}

/// The shots of a volley mirror each other about the aim.
pub proof fn lemma_spread_symmetric(spread_deg: int, count: int, i: int)
    requires
        0 <= i < count,
    ensures
        spread_offset(spread_deg, count, count - 1 - i) == -spread_offset(spread_deg, count, i),
{
    if count >= 2 {
        let n = count - 1;
        let here = 2 * i - n;
        let there = 2 * (count - 1 - i) - n;
        assert(there == -here);
        assert(magnitude(there) == magnitude(here));
        if here == 0 {
            assert(spread_deg * 1000 * 0 / (2 * n) == 0) by (nonlinear_arith)
                requires
                    n >= 1,
            ;
        }
    }
}

/// A volley of more than one shot covers the whole arc: its first shot is
/// turned by half the arc to one side and its last by half the arc to the
/// other.
pub proof fn lemma_spread_ends(spread_deg: int, count: int)
    requires
        0 <= spread_deg,
        2 <= count,
    ensures
        spread_offset(spread_deg, count, 0) == -500 * spread_deg,
        spread_offset(spread_deg, count, count - 1) == 500 * spread_deg,
{
    let n = count - 1;
    assert(spread_deg * 1000 * n == (500 * spread_deg) * (2 * n)) by (nonlinear_arith);
    assert((500 * spread_deg) * (2 * n) / (2 * n) == 500 * spread_deg) by (nonlinear_arith)
        requires
            n >= 1,
    ;
}

/// No shot is turned further than half the arc, and a later shot is never
/// turned less far counter-clockwise than an earlier one.
pub proof fn lemma_spread_ordered(spread_deg: int, count: int, i: int, j: int)
    requires
        0 <= spread_deg,
        0 <= i <= j < count,
    ensures
        -500 * spread_deg <= spread_offset(spread_deg, count, i) <= spread_offset(
            spread_deg,
            count,
            j,
        ) <= 500 * spread_deg,
{
    if count >= 2 {
        let n = count - 1;
        let a = magnitude(2 * i - n);
        let b = magnitude(2 * j - n);
        let s = spread_deg * 1000;
        assert(s * a / (2 * n) <= 500 * spread_deg && 0 <= s * a / (2 * n)) by (nonlinear_arith)
            requires
                0 <= a <= n,
                n >= 1,
                s == spread_deg * 1000,
                spread_deg >= 0,
        ;
        assert(s * b / (2 * n) <= 500 * spread_deg && 0 <= s * b / (2 * n)) by (nonlinear_arith)
            requires
                0 <= b <= n,
                n >= 1,
                s == spread_deg * 1000,
                spread_deg >= 0,
        ;
        if 2 * i - n < 0 && 2 * j - n < 0 {
            assert(s * b / (2 * n) <= s * a / (2 * n)) by (nonlinear_arith)
                requires
                    0 <= b <= a,
                    n >= 1,
                    s >= 0,
            ;
        } else if 2 * i - n >= 0 {
            assert(s * a / (2 * n) <= s * b / (2 * n)) by (nonlinear_arith)
                requires
                    0 <= a <= b,
                    n >= 1,
                    s >= 0,
            ;
        }
    }
}

/// Finds the enemy nearest to `from`: `None` where there is no enemy, else
/// the place of the first among the nearest.
pub fn nearest_enemy(enemies: &Vec<Enemy>, from: &Vec2) -> (found: Option<usize>)
    ensures
        found is None <==> enemies@.len() == 0,
        found is Some ==> is_nearest(enemies@, *from, found.unwrap() as int),
        found is Some ==> found.unwrap() as int == nearest_index(enemies@, *from),
{
    if enemies.len() == 0 {
        return None;
    }
    let mut best: usize = 0;
    let mut best_dist: u128 = from.distance_squared(&enemies[0].position);
    let mut j: usize = 1;
    while j < enemies.len()
        invariant
            1 <= j <= enemies.len(),
            is_nearest(enemies@.take(j as int), *from, best as int),
            best_dist as int == from.dist_sq(enemies@[best as int].position),
        decreases enemies.len() - j,
    {
        let d = from.distance_squared(&enemies[j].position);
        proof {
            let before = enemies@.take(j as int);
            let after = enemies@.take(j as int + 1);
            assert forall|a: int| 0 <= a < j implies #[trigger] after[a] == before[a] by {}
        }
        if d < best_dist {
            best = j;
            best_dist = d;
        }
        j = j + 1;
        proof {
            let before = enemies@.take(j as int - 1);
            let after = enemies@.take(j as int);
            assert forall|a: int| 0 <= a < after.len() implies from.dist_sq(
                after[best as int].position,
            ) <= from.dist_sq((#[trigger] after[a]).position) by {
                if a < j - 1 {
                    assert(after[a] == before[a]);
                }
            }
            assert forall|a: int| 0 <= a < best implies from.dist_sq(after[best as int].position)
                < from.dist_sq((#[trigger] after[a]).position) by {
                assert(after[a] == before[a]);
            }
        }
    }
    proof {
        assert(enemies@.take(j as int) =~= enemies@);
        lemma_nearest_unique(enemies@, *from, best as int);
    }
    Some(best)
}

fn offset_of(spread_deg: u32, count: u32, i: u32) -> (offset: i64)
    requires
        i < count,
    ensures
        offset as int == spread_offset(spread_deg as int, count as int, i as int),
{
    if count <= 1 {
        return 0;
    }
    let last: i128 = count as i128 - 1;
    let half_steps: i128 = 2 * (i as i128) - last;
    let size_of: i128 = if half_steps < 0 {
        -half_steps
    } else {
        half_steps
    };
    let arc: i128 = spread_deg as i128 * 1000;
    assert(0 <= arc * size_of <= arc * last && arc * last == (500 * spread_deg) * (2 * last)
        && arc * last <= 4294967295000 * 4294967295) by (nonlinear_arith)
        requires
            0 <= size_of <= last,
            1 <= last <= 4294967295,
            arc == spread_deg * 1000,
            0 <= spread_deg <= 4294967295,
    ;
    let size: i128 = arc * size_of / (2 * last);
    assert(0 <= size <= 500 * spread_deg) by (nonlinear_arith)
        requires
            size == arc * size_of / (2 * last),
            0 <= arc * size_of <= (500 * spread_deg) * (2 * last),
            last >= 1,
    ;
    if half_steps < 0 {
        -(size as i64)
    } else {
        size as i64
    }
}

/// Lets the weapon's timer run and fires when it finishes.
///
/// The timer is advanced by `delta` microseconds. A volley comes back
/// exactly if the timer has finished with this tick and there is a player.
/// It starts at the player, aims at the nearest enemy (the first of them
/// in the world's order if several are equally near; along the x axis if
/// there is none) and holds `multishot` shots, and one where that is
/// zero, spread evenly over `spread_deg`. Each shot is of the current kind
/// and deals the fixed damage of a projectile.
pub fn weapon_system(
    world: &World,
    timer: &mut WeaponTimer,
    stats: &WeaponStats,
    delta: u64,
) -> (volley: Option<Volley>)
    ensures
        final(timer).0 == old(timer).0.ticked(delta),
        volley is Some <==> final(timer).0.finished && world.player is Some,
        volley is Some ==> {
            &&& volley.unwrap().origin == world.player.unwrap().position
            &&& volley.unwrap().aim == aim_from(world.enemies@, world.player.unwrap().position)
            &&& volley.unwrap().shots@ == volley_shots(*stats)
            &&& is_direction(volley.unwrap().aim)
        },
{
    timer.0.tick(delta);
    if !timer.0.finished() {
        return None;
    }
    let origin = match world.player {
        Some(player) => player.position,
        None => {
            return None;
        },
    };
    let aim = match nearest_enemy(&world.enemies, &origin) {
        Some(k) => origin.direction_to(&world.enemies[k].position),
        None => Vec2 { x: TRIG_SCALE as i32, y: 0 },
    };
    let count: u32 = if stats.multishot < 1 {
        1
    } else {
        stats.multishot
    };
    let mut shots: Vec<Shot> = Vec::new();
    let mut i: u32 = 0;
    while i < count
        invariant
            i <= count,
            count == shot_count(stats.multishot),
            shots@.len() == i,
            forall|k: int| 0 <= k < i ==> shots@[k] == shot_at(*stats, k),
        decreases count - i,
    {
        shots.push(
            Shot {
                offset: offset_of(stats.spread_deg, count, i),
                kind: stats.current_shot_type,
                damage: PROJECTILE_DAMAGE,
            },
        );
        i = i + 1;
    }
    assert(shots@ =~= volley_shots(*stats));
    Some(Volley { origin, aim, shots })
}

/// Whether every entry of `turns` holds the cosine and sine of an angle.
pub open spec fn all_unit(turns: Seq<Turn>) -> bool {
    forall|i: int| 0 <= i < turns.len() ==> (#[trigger] turns[i]).is_unit()
}

/// The projectiles that a volley puts into the world: one for each shot,
/// at the origin of the volley, headed along the aim turned by the turn of
/// the shot, with identities from `next` on.
pub open spec fn volley_projectiles(volley: Volley, turns: Seq<Turn>, next: u64) -> Seq<
    Projectile,
> {
    Seq::new(
        volley.shots@.len(),
        |i: int|
            Projectile {
                entity: Entity { id: (next + i) as u64 },
                position: volley.origin,
                direction: turns[i].turned(volley.aim),
                kind: volley.shots@[i].kind,
                damage: volley.shots@[i].damage,
            },
    )
}

/// Puts the projectiles of a volley into the world. `turns` holds, for
/// each shot in turn, the cosine and the sine of the offset of the shot.
pub fn spawn_volley(world: &mut World, volley: &Volley, turns: &Vec<Turn>)
    requires
        old(world).wf(),
        is_direction(volley.aim),
        turns@.len() == volley.shots@.len(),
        all_unit(turns@),
        old(world).next_id + volley.shots@.len() <= u64::MAX,
    ensures
        final(world).wf(),
        final(world).next_id == old(world).next_id + volley.shots@.len(),
        final(world).projectiles@ == old(world).projectiles@ + volley_projectiles(
            *volley,
            turns@,
            old(world).next_id,
        ),
        final(world).player == old(world).player,
        final(world).enemies@ == old(world).enemies@,
        final(world).orbs@ == old(world).orbs@,
{
    let mut i: usize = 0;
    while i < volley.shots.len()
        invariant
            i <= volley.shots@.len(),
            is_direction(volley.aim),
            turns@.len() == volley.shots@.len(),
            all_unit(turns@),
            old(world).next_id + volley.shots@.len() <= u64::MAX,
            world.wf(),
            world.next_id == old(world).next_id + i,
            world.projectiles@ == old(world).projectiles@ + volley_projectiles(
                *volley,
                turns@,
                old(world).next_id,
            ).take(i as int),
            world.player == old(world).player,
            world.enemies@ == old(world).enemies@,
            world.orbs@ == old(world).orbs@,
        decreases volley.shots@.len() - i,
    {
        let shot = volley.shots[i];
        let heading = turns[i].turn(&volley.aim);
        world.spawn_projectile(volley.origin, heading, shot.kind, shot.damage);
        i = i + 1;
        proof {
            let all = volley_projectiles(*volley, turns@, old(world).next_id);
            assert(all.take(i as int) =~= all.take(i as int - 1).push(all[i as int - 1]));
            assert(world.projectiles@ =~= old(world).projectiles@ + all.take(i as int));
        }
    }
    proof {
        let all = volley_projectiles(*volley, turns@, old(world).next_id);
        assert(all.take(i as int) =~= all);
    }
}

} // verus!
