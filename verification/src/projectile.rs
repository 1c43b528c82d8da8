//! Projectiles: their flight and what they do to the enemies they reach.

use vstd::prelude::*;
use crate::config::AOE_RADIUS;
use crate::config::HIT_RADIUS;
use crate::enemy::Enemy;
use crate::geometry::step_len;
use crate::geometry::step_length;
use crate::geometry::Vec2;
use crate::health::DamageEvent;
use crate::weapon::WeaponStats;
use crate::world::ascending;
use crate::world::enemy_ids;
use crate::world::lemma_disjoint_symmetric;
use crate::world::lemma_filter_apart;
use crate::world::lemma_filter_ascending;
use crate::world::orb_ids;
use crate::world::player_ids;
use crate::world::projectile_id;
use crate::world::projectile_ids;
use crate::world::Entity;
use crate::world::World;

verus! {

/// How a projectile behaves when it reaches an enemy.
#[derive(Clone, Copy, Debug, PartialEq, Eq, Structural)]
pub enum ProjectileKind {
    /// Hurts the enemy it reaches and is gone.
    Normal,
    /// Hurts every enemy near the point of impact and is gone.
    Fireball,
    /// Behaves as `Normal`.
    Ice,
    /// Hurts the enemy it reaches and flies on.
    Piercing,
}

/// A projectile in flight.
#[derive(Clone, Copy, Debug, PartialEq, Eq, Structural)]
pub struct Projectile {
    pub entity: Entity,
    pub position: Vec2,
    /// Heading, fixed when the projectile is fired. Only where it points
    /// matters, not how long it is.
    pub direction: Vec2,
    pub kind: ProjectileKind,
    pub damage: u32,
}

/// Whether an enemy lies closer than `radius` to `at`.
pub open spec fn in_reach(at: Vec2, radius: u32) -> spec_fn(Enemy) -> bool {
    |e: Enemy| at.within(e.position, radius as int)
}

/// The damage event that takes `amount` from an enemy.
pub open spec fn hurts(amount: u32) -> spec_fn(Enemy) -> DamageEvent {
    |e: Enemy| DamageEvent { entity: e.entity, amount }
}

/// `k` is the place of the first enemy closer than `radius` to `at`.
pub open spec fn is_first_in_reach(enemies: Seq<Enemy>, at: Vec2, radius: u32, k: int) -> bool {
    &&& 0 <= k < enemies.len()
    &&& in_reach(at, radius)(enemies[k])
    &&& forall|j: int| 0 <= j < k ==> !in_reach(at, radius)(#[trigger] enemies[j])
}

/// Whether any enemy lies closer than `radius` to `at`.
pub open spec fn any_in_reach(enemies: Seq<Enemy>, at: Vec2, radius: u32) -> bool {
    exists|k: int| 0 <= k < enemies.len() && in_reach(at, radius)(#[trigger] enemies[k])
}

/// The place of the first enemy closer than `radius` to `at`.
pub open spec fn first_in_reach(enemies: Seq<Enemy>, at: Vec2, radius: u32) -> int {
    choose|k: int| is_first_in_reach(enemies, at, radius, k)
}

/// Only one place is that of the first enemy in reach.
pub proof fn lemma_first_in_reach_unique(enemies: Seq<Enemy>, at: Vec2, radius: u32, k: int)
    requires
        is_first_in_reach(enemies, at, radius, k),
    ensures
        first_in_reach(enemies, at, radius) == k,
        any_in_reach(enemies, at, radius),
{
    let c = first_in_reach(enemies, at, radius);
    assert(is_first_in_reach(enemies, at, radius, c));
    if c < k {
        assert(!in_reach(at, radius)(enemies[c]));
    } else if k < c {
        assert(!in_reach(at, radius)(enemies[k]));
    }
}

impl Projectile {
    /// Whether the projectile has reached an enemy.
    pub open spec fn hits(self, enemies: Seq<Enemy>) -> bool {
        any_in_reach(enemies, self.position, HIT_RADIUS)
    }

    /// The damage events of a fireball that goes off where the projectile
    /// is: one for each enemy closer than the blast radius, in the order
    /// of the enemies.
    pub open spec fn blast_events(self, enemies: Seq<Enemy>) -> Seq<DamageEvent> {
        enemies.filter(in_reach(self.position, AOE_RADIUS)).map_values(hurts(self.damage))
    }

    /// The damage events that the projectile causes in one tick.
    ///
    /// A projectile that has reached no enemy causes none. A fireball goes
    /// off. Every other kind hurts the first enemy that it has reached, and
    /// no other.
    pub open spec fn impact_events(self, enemies: Seq<Enemy>) -> Seq<DamageEvent> {
        if !self.hits(enemies) {
            Seq::empty()
        } else if self.kind == ProjectileKind::Fireball {
            self.blast_events(enemies)
        } else {
            seq![
                hurts(self.damage)(enemies[first_in_reach(enemies, self.position, HIT_RADIUS)]),
            ]
        }
    }

    /// Whether the projectile is still there after the tick: it is unless
    /// it has reached an enemy, and a piercing one is in any case.
    pub open spec fn flies_on(self, enemies: Seq<Enemy>) -> bool {
        !self.hits(enemies) || self.kind == ProjectileKind::Piercing
    }

    /// The projectile after `delta` microseconds of flight at `speed`.
    pub open spec fn flown(self, speed: u32, delta: u64) -> Projectile {
        Projectile {
            position: self.position.stepped_along(
                self.direction,
                step_length(speed as int, delta as int),
            ),
            ..self
        }
    }
}

/// [`Projectile::impact_events`] against fixed enemies.
pub open spec fn impacts_on(enemies: Seq<Enemy>) -> spec_fn(Projectile) -> Seq<DamageEvent> {
    |p: Projectile| p.impact_events(enemies)
}

/// [`Projectile::flies_on`] against fixed enemies.
pub open spec fn outlasts(enemies: Seq<Enemy>) -> spec_fn(Projectile) -> bool {
    |p: Projectile| p.flies_on(enemies)
}

/// [`Projectile::flown`] at a fixed speed and time.
pub open spec fn flight(speed: u32, delta: u64) -> spec_fn(Projectile) -> Projectile {
    |p: Projectile| p.flown(speed, delta)
}

/// The damage events of all projectiles in one tick: those of the first
/// projectile, those of the second, and so on.
pub open spec fn collision_events(projectiles: Seq<Projectile>, enemies: Seq<Enemy>) -> Seq<
    DamageEvent,
> {
    projectiles.map_values(impacts_on(enemies)).flatten()
}

/// Every enemy closer than the blast radius to `fireball` has its damage
/// event among `events`, and no other enemy has.
pub open spec fn hurts_all_in_blast(
    fireball: Projectile,
    enemies: Seq<Enemy>,
    events: Seq<DamageEvent>,
) -> bool {
    forall|k: int|
        0 <= k < enemies.len() ==> (in_reach(fireball.position, AOE_RADIUS)(#[trigger] enemies[k])
            <==> events.contains(hurts(fireball.damage)(enemies[k])))
}

/// Every event of `events` is the damage event of an enemy closer than the
/// blast radius to `fireball`.
pub open spec fn hurts_only_in_blast(
    fireball: Projectile,
    enemies: Seq<Enemy>,
    events: Seq<DamageEvent>,
) -> bool {
    forall|i: int|
        0 <= i < events.len() ==> exists|k: int|
            0 <= k < enemies.len() && (#[trigger] events[i]) == hurts(fireball.damage)(
                #[trigger] enemies[k],
            ) && in_reach(fireball.position, AOE_RADIUS)(enemies[k])
}

/// No two events of `events` are for the same entity.
pub open spec fn hurts_none_twice(events: Seq<DamageEvent>) -> bool {
    forall|i: int, j: int| 0 <= i < j < events.len() ==> events[i].entity != events[j].entity
}

/// A fireball that has reached an enemy is gone after the tick, and it
/// hurts exactly the enemies closer than the blast radius to it, each of
/// them once. The enemy that it reached is among them.
pub proof fn lemma_fireball_blast(fireball: Projectile, enemies: Seq<Enemy>)
    requires
        fireball.kind == ProjectileKind::Fireball,
        fireball.hits(enemies),
        ascending(enemy_ids(enemies)),
    ensures
        !fireball.flies_on(enemies),
        hurts_all_in_blast(fireball, enemies, fireball.impact_events(enemies)),
        hurts_only_in_blast(fireball, enemies, fireball.impact_events(enemies)),
        hurts_none_twice(fireball.impact_events(enemies)),
        fireball.impact_events(enemies).contains(
            hurts(fireball.damage)(
                enemies[first_in_reach(enemies, fireball.position, HIT_RADIUS)],
            ),
        ),
{
    let near = in_reach(fireball.position, AOE_RADIUS);
    let hurt = enemies.filter(near);
    let events = fireball.impact_events(enemies);
    assert(events == hurt.map_values(hurts(fireball.damage)));
    let first = first_in_reach(enemies, fireball.position, HIT_RADIUS);
    assert(is_first_in_reach(enemies, fireball.position, HIT_RADIUS, first)) by {
        let some = choose|k: int|
            0 <= k < enemies.len() && in_reach(fireball.position, HIT_RADIUS)(
                #[trigger] enemies[k],
            );
        lemma_some_is_first(enemies, fireball.position, HIT_RADIUS, some);
    }
    assert forall|k: int| 0 <= k < enemies.len() implies (near(#[trigger] enemies[k])
        <==> events.contains(hurts(fireball.damage)(enemies[k]))) by {
        let event = hurts(fireball.damage)(enemies[k]);
        if near(enemies[k]) {
            enemies.lemma_filter_contains(near, k);
            let i = choose|i: int| 0 <= i < hurt.len() && hurt[i] == enemies[k];
            assert(events[i] == event);
        }
        if events.contains(event) {
            let i = choose|i: int| 0 <= i < events.len() && events[i] == event;
            assert(hurt.contains(hurt[i]));
            enemies.lemma_filter_contains_rev(near, hurt[i]);
            let b = choose|b: int| 0 <= b < enemies.len() && enemies[b] == hurt[i];
            enemies.lemma_filter_pred(near, i);
            assert(enemy_ids(enemies)[b] == enemy_ids(enemies)[k]);
            assert(b == k);
        }
    }
    assert(near(enemies[first])) by {
        lemma_wider_reach(fireball.position, enemies[first].position);
    }
    assert(events.contains(hurts(fireball.damage)(enemies[first])));
    assert forall|i: int| 0 <= i < events.len() implies exists|k: int|
        0 <= k < enemies.len() && (#[trigger] events[i]) == hurts(fireball.damage)(
            #[trigger] enemies[k],
        ) && in_reach(fireball.position, AOE_RADIUS)(enemies[k]) by {
        assert(hurt.contains(hurt[i]));
        enemies.lemma_filter_contains_rev(near, hurt[i]);
        let b = choose|b: int| 0 <= b < enemies.len() && enemies[b] == hurt[i];
        enemies.lemma_filter_pred(near, i);
        assert(events[i] == hurts(fireball.damage)(enemies[b]));
    }
    lemma_filter_ascending(enemies, crate::world::enemy_id(), near);
    assert forall|i: int, j: int| 0 <= i < j < events.len() implies events[i].entity
        != events[j].entity by {
        assert(enemy_ids(hurt)[i] < enemy_ids(hurt)[j]);
    }
}

/// Where some enemy is in reach, one of them is the first.
pub proof fn lemma_some_is_first(enemies: Seq<Enemy>, at: Vec2, radius: u32, some: int)
    requires
        0 <= some < enemies.len(),
        in_reach(at, radius)(enemies[some]),
    ensures
        is_first_in_reach(enemies, at, radius, first_in_reach(enemies, at, radius)),
        first_in_reach(enemies, at, radius) <= some,
    decreases some,
{
    if exists|j: int| 0 <= j < some && in_reach(at, radius)(#[trigger] enemies[j]) {
        let j = choose|j: int| 0 <= j < some && in_reach(at, radius)(#[trigger] enemies[j]);
        lemma_some_is_first(enemies, at, radius, j);
    } else {
        assert(is_first_in_reach(enemies, at, radius, some));
        lemma_first_in_reach_unique(enemies, at, radius, some);
    }
}

/// What a projectile has reached lies within the blast radius as well.
pub proof fn lemma_wider_reach(at: Vec2, target: Vec2)
    requires
        at.within(target, HIT_RADIUS as int),
    ensures
        at.within(target, AOE_RADIUS as int),
{
}

/// Finds the first enemy closer than `radius` to `at`.
pub fn find_in_reach(enemies: &Vec<Enemy>, at: &Vec2, radius: u32) -> (found: Option<usize>)
    ensures
        found is None <==> !any_in_reach(enemies@, *at, radius),
        found is Some ==> is_first_in_reach(enemies@, *at, radius, found.unwrap() as int),
        found is Some ==> found.unwrap() as int == first_in_reach(enemies@, *at, radius),
{
    let mut k: usize = 0;
    while k < enemies.len()
        invariant
            k <= enemies.len(),
            forall|j: int| 0 <= j < k ==> !in_reach(*at, radius)(#[trigger] enemies@[j]),
        decreases enemies.len() - k,
    {
        if at.is_within(&enemies[k].position, radius) {
            proof {
                lemma_first_in_reach_unique(enemies@, *at, radius, k as int);
            }
            return Some(k);
        }
        k = k + 1;
    }
    None
}

fn blast(fireball: &Projectile, enemies: &Vec<Enemy>, damage_events: &mut Vec<DamageEvent>)
    ensures
        final(damage_events)@ == old(damage_events)@ + fireball.blast_events(enemies@),
{
    let ghost near = in_reach(fireball.position, AOE_RADIUS);
    let ghost hurt = hurts(fireball.damage);
    let mut k: usize = 0;
    while k < enemies.len()
        invariant
            k <= enemies.len(),
            near == in_reach(fireball.position, AOE_RADIUS),
            hurt == hurts(fireball.damage),
            damage_events@ == old(damage_events)@ + enemies@.take(k as int).filter(
                near,
            ).map_values(hurt),
        decreases enemies.len() - k,
    {
        let enemy = enemies[k];
        proof {
            assert(enemies@.take(k as int + 1) =~= enemies@.take(k as int).push(enemy));
            enemies@.take(k as int).lemma_filter_push(enemy, near);
        }
        if fireball.position.is_within(&enemy.position, AOE_RADIUS) {
            damage_events.push(DamageEvent { entity: enemy.entity, amount: fireball.damage });
            assert(damage_events@ =~= old(damage_events)@ + enemies@.take(k as int + 1).filter(
                near,
            ).map_values(hurt));
        }
        k = k + 1;
    }
    assert(enemies@.take(k as int) =~= enemies@);
}

/// Lets every projectile fly on for `delta` microseconds, along its
/// heading and at the speed of the weapon.
pub fn projectile_movement(world: &mut World, stats: &WeaponStats, delta: u64)
    requires
        old(world).wf(),
    ensures
        final(world).wf(),
        final(world).projectiles@ == old(world).projectiles@.map_values(
            flight(stats.projectile_speed, delta),
        ),
        final(world).next_id == old(world).next_id,
        final(world).player == old(world).player,
        final(world).enemies@ == old(world).enemies@,
        final(world).orbs@ == old(world).orbs@,
{
    let len = step_len(stats.projectile_speed, delta);
    let ghost fly = flight(stats.projectile_speed, delta);
    let mut i: usize = 0;
    while i < world.projectiles.len()
        invariant
            i <= world.projectiles@.len(),
            world.projectiles@.len() == old(world).projectiles@.len(),
            fly == flight(stats.projectile_speed, delta),
            len as int == step_length(stats.projectile_speed as int, delta as int),
            forall|k: int| 0 <= k < i ==> world.projectiles@[k] == fly(old(world).projectiles@[k]),
            forall|k: int|
                i <= k < world.projectiles@.len() ==> world.projectiles@[k] == old(
                    world,
                ).projectiles@[k],
            world.next_id == old(world).next_id,
            world.player == old(world).player,
            world.enemies@ == old(world).enemies@,
            world.orbs@ == old(world).orbs@,
        decreases world.projectiles@.len() - i,
    {
        let mut projectile = world.projectiles[i];
        projectile.position = projectile.position.step_along(&projectile.direction, len);
        world.projectiles[i] = projectile;
        i = i + 1;
    }
    assert(world.projectiles@ =~= old(world).projectiles@.map_values(fly));
    assert(projectile_ids(world.projectiles@) =~= projectile_ids(old(world).projectiles@));
}

/// Settles what the projectiles have reached.
///
/// For every projectile in turn, in the order of the world, the damage
/// events that it causes are put at the end of `damage_events` (see
/// [`Projectile::impact_events`]). Afterwards the projectiles that have
/// reached an enemy are gone, but for the piercing ones. The enemies are
/// as they were: their health changes when the damage events are applied.
pub fn projectile_enemy_collision(world: &mut World, damage_events: &mut Vec<DamageEvent>)
    requires
        old(world).wf(),
    ensures
        final(world).wf(),
        final(damage_events)@ == old(damage_events)@ + collision_events(
            old(world).projectiles@,
            old(world).enemies@,
        ),
        final(world).projectiles@ == old(world).projectiles@.filter(
            outlasts(old(world).enemies@),
        ),
        final(world).next_id == old(world).next_id,
        final(world).player == old(world).player,
        final(world).enemies@ == old(world).enemies@,
        final(world).orbs@ == old(world).orbs@,
{
    let ghost enemies = world.enemies@;
    let ghost all = world.projectiles@;
    let ghost stay = outlasts(world.enemies@);
    let ghost cause = impacts_on(world.enemies@);
    let mut kept: Vec<Projectile> = Vec::new();
    let mut i: usize = 0;
    while i < world.projectiles.len()
        invariant
            i <= world.projectiles@.len(),
            world.projectiles@ == all,
            world.enemies@ == enemies,
            stay == outlasts(enemies),
            cause == impacts_on(enemies),
            kept@ == all.take(i as int).filter(stay),
            damage_events@ == old(damage_events)@ + all.take(i as int).map_values(
                cause,
            ).flatten(),
            world.next_id == old(world).next_id,
            world.player == old(world).player,
            world.orbs@ == old(world).orbs@,
        decreases world.projectiles@.len() - i,
    {
        let projectile = world.projectiles[i];
        let ghost before = damage_events@;
        let mut gone = false;
        match find_in_reach(&world.enemies, &projectile.position, HIT_RADIUS) {
            Some(k) => {
                match projectile.kind {
                    ProjectileKind::Fireball => {
                        blast(&projectile, &world.enemies, damage_events);
                        gone = true;
                    },
                    ProjectileKind::Piercing => {
                        damage_events.push(
                            DamageEvent {
                                entity: world.enemies[k].entity,
                                amount: projectile.damage,
                            },
                        );
                    },
                    _ => {
                        damage_events.push(
                            DamageEvent {
                                entity: world.enemies[k].entity,
                                amount: projectile.damage,
                            },
                        );
                        gone = true;
                    },
                }
            },
            None => {},
        }
        proof {
            assert(damage_events@ =~= before + projectile.impact_events(enemies));
            assert(gone == !projectile.flies_on(enemies));
            assert(all.take(i as int + 1) =~= all.take(i as int).push(projectile));
            all.take(i as int).lemma_filter_push(projectile, stay);
            assert(all.take(i as int + 1).map_values(cause) =~= all.take(i as int).map_values(
                cause,
            ).push(cause(projectile)));
            all.take(i as int).map_values(cause).lemma_flatten_push(cause(projectile));
        }
        if !gone {
            kept.push(projectile);
        }
        i = i + 1;
    }
    proof {
        assert(all.take(i as int) =~= all);
        lemma_filter_ascending(all, projectile_id(), stay);
        lemma_disjoint_symmetric(player_ids(world.player), projectile_ids(all));
        lemma_disjoint_symmetric(enemy_ids(world.enemies@), projectile_ids(all));
        lemma_filter_apart(all, projectile_id(), stay, world.next_id, player_ids(world.player));
        lemma_filter_apart(all, projectile_id(), stay, world.next_id, enemy_ids(world.enemies@));
        lemma_filter_apart(all, projectile_id(), stay, world.next_id, orb_ids(world.orbs@));
    }
    world.projectiles = kept;
}

} // verus!
