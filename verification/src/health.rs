//! Health, damage events and death events.

use vstd::prelude::*;
use crate::enemy::Enemy;
use crate::geometry::Vec2;
use crate::player::Player;
use crate::timer::Timer;
use crate::timer::TimerMode;
use crate::world::ascending;
use crate::world::enemy_id;
use crate::world::enemy_ids;
use crate::world::lemma_disjoint_symmetric;
use crate::world::lemma_filter_apart;
use crate::world::lemma_filter_ascending;
use crate::world::orb_ids;
use crate::world::player_ids;
use crate::world::projectile_ids;
use crate::world::Entity;
use crate::world::World;
use crate::xp::spawn_xp;
use crate::xp::XP;

verus! {

/// A request to take `amount` health from `entity`.
#[derive(Clone, Copy, Debug, PartialEq, Eq, Structural)]
pub struct DamageEvent {
    pub entity: Entity,
    pub amount: u32,
}

/// Notice that the health of `entity` has dropped to zero or below.
#[derive(Clone, Copy, Debug, PartialEq, Eq, Structural)]
pub struct DeathEvent {
    pub entity: Entity,
}

/// Health of a player or an enemy. `current` may fall below zero between
/// a hit and the handling of the death that follows.
#[derive(Clone, Copy, Debug, PartialEq, Eq, Structural)]
pub struct Health {
    pub current: i64,
    pub max: u32,
}

impl Health {
    /// Full health.
    pub fn new(max: u32) -> (h: Health)
        ensures
            h == (Health { current: max as i64, max }),
    {
        Health { current: max as i64, max }
    }
}

/// A pause between two hits. It is counted down, and no rule reads it yet.
#[derive(Clone, Copy, Debug, PartialEq, Eq, Structural)]
pub struct DamageCooldown {
    pub timer: Timer,
}

impl DamageCooldown {
    /// A cooldown of `duration` microseconds that has not started to count.
    pub fn new(duration: u64) -> (c: DamageCooldown)
        requires
            duration > 0,
        ensures
            c.timer == (Timer { elapsed: 0, duration, mode: TimerMode::Once, finished: false }),
    {
        DamageCooldown { timer: Timer::new(duration, TimerMode::Once) }
    }

    /// Whether the cooldown has run out.
    pub fn is_ready(&self) -> (b: bool)
        ensures
            b == self.timer.finished,
    {
        self.timer.finished()
    }
}

/// Counts the cooldown down by `delta` microseconds.
pub fn tick_damage_cooldown(cooldown: &mut DamageCooldown, delta: u64)
    ensures
        final(cooldown).timer == old(cooldown).timer.ticked(delta),
{
    cooldown.timer.tick(delta);
}

impl Health {
    /// The health after `total` damage. It stops at `i64::MIN`.
    pub open spec fn hurt(self, total: int) -> Health {
        Health {
            current: if self.current - total < i64::MIN {
                i64::MIN
            } else {
                (self.current - total) as i64
            },
            max: self.max,
        }
    }

    /// Takes `amount` health away.
    pub fn take_damage(&mut self, amount: u32)
        ensures
            *final(self) == old(self).hurt(amount as int),
    {
        let left: i128 = self.current as i128 - amount as i128;
        self.current = if left < i64::MIN as i128 {
            i64::MIN
        } else {
            left as i64
        };
    }
}

/// The damage that `events` hold for the entity `id`, all in all.
pub open spec fn damage_to(events: Seq<DamageEvent>, id: u64) -> int
    decreases events.len(),
{
    if events.len() == 0 {
        0
    } else {
        let before = damage_to(events.drop_last(), id);
        if events.last().entity.id == id {
            before + events.last().amount
        } else {
            before
        }
    }
}

/// Whether one of `events` is for the entity `id`.
pub open spec fn is_target(events: Seq<DamageEvent>, id: u64) -> bool {
    exists|i: int| 0 <= i < events.len() && (#[trigger] events[i]).entity.id == id
}

/// Whether one of `deaths` is for the entity `id`.
pub open spec fn is_named(deaths: Seq<DeathEvent>, id: u64) -> bool {
    exists|j: int| 0 <= j < deaths.len() && (#[trigger] deaths[j]).entity.id == id
}

/// Whether a death event is for the entity `id`.
pub open spec fn names(id: u64) -> spec_fn(DeathEvent) -> bool {
    |d: DeathEvent| d.entity.id == id
}

/// How many of `deaths` are for the entity `id`.
pub open spec fn deaths_for(deaths: Seq<DeathEvent>, id: u64) -> nat {
    deaths.filter(names(id)).len()
}

/// Whether one of `enemies` has the identity `id`.
pub open spec fn has_enemy(enemies: Seq<Enemy>, id: u64) -> bool {
    exists|k: int| 0 <= k < enemies.len() && (#[trigger] enemies[k]).entity.id == id
}

/// The place of the enemy with the identity `id`.
pub open spec fn enemy_place(enemies: Seq<Enemy>, id: u64) -> int {
    choose|k: int| 0 <= k < enemies.len() && (#[trigger] enemies[k]).entity.id == id
}

/// The health of the entity `id`: that of the player or of an enemy, and
/// none for anything else or for an identity that is not in the world.
pub open spec fn health_of(world: World, id: u64) -> Option<Health> {
    if world.player is Some && world.player.unwrap().entity.id == id {
        Some(world.player.unwrap().health)
    } else if has_enemy(world.enemies@, id) {
        Some(world.enemies@[enemy_place(world.enemies@, id)].health)
    } else {
        None
    }
}

/// Whether `events` bring the entity `id` down: it has health, at least
/// one of the events is for it, and all of them together leave it no
/// health above zero.
pub open spec fn is_killed(world: World, events: Seq<DamageEvent>, id: u64) -> bool {
    &&& health_of(world, id) is Some
    &&& is_target(events, id)
    &&& health_of(world, id).unwrap().current - damage_to(events, id) <= 0
}

/// Whether the last of `events` is the one at which its target dies: the
/// target has health, it has none above zero after this event, and no
/// earlier event has left it in that state.
pub open spec fn is_fatal(world: World, events: Seq<DamageEvent>) -> bool {
    &&& events.len() > 0
    &&& is_killed(world, events, events.last().entity.id)
    &&& !is_killed(world, events.drop_last(), events.last().entity.id)
}

/// The death events that follow from `events`, applied in their order to
/// the world as it was before: one for each entity at the event at which it
/// dies.
pub open spec fn deaths_of(world: World, events: Seq<DamageEvent>) -> Seq<DeathEvent>
    decreases events.len(),
{
    if events.len() == 0 {
        Seq::empty()
    } else {
        let before = deaths_of(world, events.drop_last());
        if is_fatal(world, events) {
            before.push(DeathEvent { entity: events.last().entity })
        } else {
            before
        }
    }
}

/// An enemy after its share of `events`.
pub open spec fn wounded(events: Seq<DamageEvent>) -> spec_fn(Enemy) -> Enemy {
    |e: Enemy| Enemy { health: e.health.hurt(damage_to(events, e.entity.id)), ..e }
}

/// The player after its share of `events`.
pub open spec fn player_wounded(player: Option<Player>, events: Seq<DamageEvent>) -> Option<
    Player,
> {
    match player {
        Some(p) => Some(Player { health: p.health.hurt(damage_to(events, p.entity.id)), ..p }),
        None => None,
    }
}

/// Damage adds up event by event, and an entity is a target once an event
/// is for it.
pub proof fn lemma_damage_step(events: Seq<DamageEvent>, event: DamageEvent, id: u64)
    ensures
        damage_to(events.push(event), id) == damage_to(events, id) + if event.entity.id == id {
            event.amount as int
        } else {
            0
        },
        damage_to(events, id) >= 0,
        is_target(events.push(event), id) <==> is_target(events, id) || event.entity.id == id,
    decreases events.len(),
{
    let more = events.push(event);
    assert(more.drop_last() =~= events);
    if events.len() > 0 {
        lemma_damage_step(events.drop_last(), events.last(), id);
        assert(events.drop_last().push(events.last()) =~= events);
    }
    if is_target(events, id) {
        let i = choose|i: int| 0 <= i < events.len() && (#[trigger] events[i]).entity.id == id;
        assert(more[i].entity.id == id);
    }
    if event.entity.id == id {
        assert(more[events.len() as int].entity.id == id);
    }
    if is_target(more, id) {
        let i = choose|i: int| 0 <= i < more.len() && (#[trigger] more[i]).entity.id == id;
        if i < events.len() {
            assert(events[i].entity.id == id);
        }
    }
}

/// Exactly one death event follows for every entity that the damage
/// events of a tick bring down, however many of them it took, and none
/// for any other.
pub proof fn lemma_one_death_per_entity(world: World, events: Seq<DamageEvent>, id: u64)
    ensures
        deaths_for(deaths_of(world, events), id) == if is_killed(world, events, id) {
            1nat
        } else {
            0nat
        },
        is_named(deaths_of(world, events), id) <==> is_killed(world, events, id),
    decreases events.len(),
{
    let deaths = deaths_of(world, events);
    if events.len() == 0 {
        assert(deaths.filter(names(id)) =~= Seq::<DeathEvent>::empty()) by {
            reveal(Seq::filter);
        }
    } else {
        let earlier = events.drop_last();
        let last = events.last();
        let before = deaths_of(world, earlier);
        assert(earlier.push(last) =~= events);
        lemma_one_death_per_entity(world, earlier, id);
        lemma_damage_step(earlier, last, id);
        lemma_damage_step(earlier, last, last.entity.id);
        if is_fatal(world, events) {
            let death = DeathEvent { entity: last.entity };
            before.lemma_filter_push(death, names(id));
            assert(deaths[before.len() as int] == death);
            if is_named(before, id) {
                let j = choose|j: int| 0 <= j < before.len() && (#[trigger] before[j]).entity.id == id;
                assert(deaths[j].entity.id == id);
            }
            if is_named(deaths, id) && last.entity.id != id {
                let j = choose|j: int| 0 <= j < deaths.len() && (#[trigger] deaths[j]).entity.id == id;
                assert(before[j].entity.id == id);
            }
        }
    }
}

/// In a list in the order of its identities, an identity stands at one
/// place only.
pub proof fn lemma_enemy_place(enemies: Seq<Enemy>, k: int)
    requires
        ascending(enemy_ids(enemies)),
        0 <= k < enemies.len(),
    ensures
        has_enemy(enemies, enemies[k].entity.id),
        enemy_place(enemies, enemies[k].entity.id) == k,
        forall|j: int|
            0 <= j < enemies.len() && j != k ==> (#[trigger] enemies[j]).entity.id
                != enemies[k].entity.id,
{
    let ids = enemy_ids(enemies);
    assert forall|j: int| 0 <= j < enemies.len() && j != k implies (#[trigger] enemies[j]).entity.id
        != enemies[k].entity.id by {
        if j < k {
            assert(ids[j] < ids[k]);
        } else {
            assert(ids[k] < ids[j]);
        }
    }
}

/// Finds the enemy with the identity of `entity`.
pub fn find_enemy(enemies: &Vec<Enemy>, entity: Entity) -> (found: Option<usize>)
    ensures
        found is Some <==> has_enemy(enemies@, entity.id),
        found is Some ==> found.unwrap() < enemies@.len() && enemies@[found.unwrap() as int].entity
            == entity,
{
    let mut k: usize = 0;
    while k < enemies.len()
        invariant
            k <= enemies.len(),
            forall|j: int| 0 <= j < k ==> (#[trigger] enemies@[j]).entity.id != entity.id,
        decreases enemies.len() - k,
    {
        if enemies[k].entity.id == entity.id {
            return Some(k);
        }
        k = k + 1;
    }
    None
}

/// Whether one of the first `upto` death events is for `entity`.
pub fn names_before(deaths: &Vec<DeathEvent>, upto: usize, entity: Entity) -> (found: bool)
    requires
        upto <= deaths@.len(),
    ensures
        found == is_named(deaths@.take(upto as int), entity.id),
{
    let mut j: usize = 0;
    while j < upto
        invariant
            j <= upto <= deaths@.len(),
            forall|a: int| 0 <= a < j ==> (#[trigger] deaths@[a]).entity.id != entity.id,
        decreases upto - j,
    {
        if deaths[j].entity.id == entity.id {
            assert(deaths@.take(upto as int)[j as int].entity.id == entity.id);
            return true;
        }
        j = j + 1;
    }
    assert forall|a: int| 0 <= a < upto implies (#[trigger] deaths@.take(upto as int)[a]).entity.id
        != entity.id by {
        assert(deaths@[a].entity.id != entity.id);
    }
    false
}

/// Applies the damage events of a tick, in their order.
///
/// Each event takes its amount from the health of its target, if the
/// target is the player or an enemy of this world; an event for anything
/// else changes nothing. The death events come back: one for each entity
/// whose health the events have brought to zero or below, in the order in
/// which that happened (see [`deaths_of`] and
/// [`lemma_one_death_per_entity`]). Nothing leaves the world here.
pub fn apply_damage_system(world: &mut World, damage_events: &Vec<DamageEvent>) -> (deaths: Vec<
    DeathEvent,
>)
    requires
        old(world).wf(),
    ensures
        final(world).wf(),
        deaths@ == deaths_of(*old(world), damage_events@),
        final(world).enemies@ == old(world).enemies@.map_values(wounded(damage_events@)),
        final(world).player == player_wounded(old(world).player, damage_events@),
        final(world).next_id == old(world).next_id,
        final(world).projectiles@ == old(world).projectiles@,
        final(world).orbs@ == old(world).orbs@,
{
    let ghost start = *world;
    let mut deaths: Vec<DeathEvent> = Vec::new();
    let mut i: usize = 0;
    assert(world.enemies@ =~= start.enemies@.map_values(wounded(damage_events@.take(0))));
    while i < damage_events.len()
        invariant
            i <= damage_events@.len(),
            start == *old(world),
            start.wf(),
            world.wf(),
            deaths@ == deaths_of(start, damage_events@.take(i as int)),
            world.enemies@ == start.enemies@.map_values(wounded(damage_events@.take(i as int))),
            world.player == player_wounded(start.player, damage_events@.take(i as int)),
            world.next_id == start.next_id,
            world.projectiles@ == start.projectiles@,
            world.orbs@ == start.orbs@,
        decreases damage_events@.len() - i,
    {
        let event = damage_events[i];
        let ghost done = damage_events@.take(i as int);
        let ghost now = damage_events@.take(i as int + 1);
        let ghost id = event.entity.id;
        proof {
            assert(now =~= done.push(event));
            assert(now.drop_last() =~= done);
            lemma_one_death_per_entity(start, done, id);
            lemma_damage_step(done, event, id);
            assert forall|k: int| 0 <= k < start.enemies@.len() implies damage_to(
                now,
                (#[trigger] start.enemies@[k]).entity.id,
            ) == damage_to(done, start.enemies@[k].entity.id) + if start.enemies@[k].entity.id
                == id {
                event.amount as int
            } else {
                0
            } by {
                lemma_damage_step(done, event, start.enemies@[k].entity.id);
            }
            if start.player is Some {
                lemma_damage_step(done, event, start.player.unwrap().entity.id);
            }
        }
        let mut left: Option<i64> = None;
        let mut hit_player = false;
        match world.player {
            Some(player) => {
                if player.entity.id == event.entity.id {
                    let mut wounded_player = player;
                    wounded_player.health.take_damage(event.amount);
                    left = Some(wounded_player.health.current);
                    world.player = Some(wounded_player);
                    hit_player = true;
                }
            },
            None => {},
        }
        if !hit_player {
            match find_enemy(&world.enemies, event.entity) {
                Some(k) => {
                    proof {
                        assert(enemy_ids(world.enemies@) =~= enemy_ids(start.enemies@));
                        lemma_enemy_place(start.enemies@, k as int);
                    }
                    let mut enemy = world.enemies[k];
                    enemy.health.take_damage(event.amount);
                    left = Some(enemy.health.current);
                    world.enemies[k] = enemy;
                },
                None => {
                    proof {
                        assert(!has_enemy(start.enemies@, id)) by {
                            if has_enemy(start.enemies@, id) {
                                let k = enemy_place(start.enemies@, id);
                                assert(world.enemies@[k].entity.id == id);
                            }
                        }
                    }
                },
            }
        } else {
            proof {
                assert(!has_enemy(start.enemies@, id)) by {
                    if has_enemy(start.enemies@, id) {
                        let k = enemy_place(start.enemies@, id);
                        assert(player_ids(start.player)[0] != enemy_ids(start.enemies@)[k]);
                    }
                }
            }
        }
        proof {
            assert(world.enemies@ =~= start.enemies@.map_values(wounded(now)));
            assert(enemy_ids(world.enemies@) =~= enemy_ids(start.enemies@));
            assert(left is Some <==> health_of(start, id) is Some);
            assert(left is Some ==> ((left.unwrap() <= 0) <==> (health_of(
                start,
                id,
            ).unwrap().current - damage_to(now, id) <= 0)));
            assert(is_target(now, id));
        }
        match left {
            Some(current) => {
                if current <= 0 && !names_before(&deaths, deaths.len(), event.entity) {
                    deaths.push(DeathEvent { entity: event.entity });
                }
            },
            None => {},
        }
        proof {
            assert(deaths_of(start, done).take(deaths_of(start, done).len() as int) =~= deaths_of(
                start,
                done,
            ));
        }
        i = i + 1;
    }
    assert(damage_events@.take(i as int) =~= damage_events@);
    deaths
}

/// Whether none of `deaths` is for an enemy.
pub open spec fn survives(deaths: Seq<DeathEvent>) -> spec_fn(Enemy) -> bool {
    |e: Enemy| !is_named(deaths, e.entity.id)
}

/// Where the enemies fall that `deaths` name, in the order of the death
/// events. A death event for anything that is no enemy of the list counts
/// for nothing, and so does a second one for the same enemy.
pub open spec fn drop_places(enemies: Seq<Enemy>, deaths: Seq<DeathEvent>) -> Seq<Vec2>
    decreases deaths.len(),
{
    if deaths.len() == 0 {
        Seq::empty()
    } else {
        let before = drop_places(enemies, deaths.drop_last());
        let id = deaths.last().entity.id;
        if has_enemy(enemies, id) && !is_named(deaths.drop_last(), id) {
            before.push(enemies[enemy_place(enemies, id)].position)
        } else {
            before
        }
    }
}

/// Orbs at `places`, with identities from `next` on.
pub open spec fn orbs_at(places: Seq<Vec2>, next: u64) -> Seq<XP> {
    Seq::new(
        places.len(),
        |i: int| XP { entity: Entity { id: (next + i) as u64 }, position: places[i] },
    )
}

/// No more enemies fall than there are death events.
pub proof fn lemma_drop_places_len(enemies: Seq<Enemy>, deaths: Seq<DeathEvent>)
    ensures
        drop_places(enemies, deaths).len() <= deaths.len(),
    decreases deaths.len(),
{
    if deaths.len() > 0 {
        lemma_drop_places_len(enemies, deaths.drop_last());
    }
}

/// A death event thins the ranks by one if it is the first for an enemy
/// of the list, and by none if not.
pub proof fn lemma_fall_step(enemies: Seq<Enemy>, before: Seq<DeathEvent>, death: DeathEvent)
    requires
        ascending(enemy_ids(enemies)),
    ensures
        enemies.filter(survives(before.push(death))).len() + (if has_enemy(
            enemies,
            death.entity.id,
        ) && !is_named(before, death.entity.id) {
            1nat
        } else {
            0nat
        }) == enemies.filter(survives(before)).len(),
    decreases enemies.len(),
{
    reveal(Seq::filter);
    let id = death.entity.id;
    let after = before.push(death);
    assert forall|x: u64| is_named(after, x) <==> is_named(before, x) || x == id by {
        if is_named(before, x) {
            let j = choose|j: int| 0 <= j < before.len() && (#[trigger] before[j]).entity.id == x;
            assert(after[j].entity.id == x);
        }
        if x == id {
            assert(after[before.len() as int].entity.id == x);
        }
        if is_named(after, x) {
            let j = choose|j: int| 0 <= j < after.len() && (#[trigger] after[j]).entity.id == x;
            if j < before.len() {
                assert(before[j].entity.id == x);
            }
        }
    }
    if enemies.len() > 0 {
        let rest = enemies.drop_last();
        let last = enemies.last();
        let ids = enemy_ids(enemies);
        assert forall|i: int, j: int| 0 <= i < j < rest.len() implies enemy_ids(rest)[i]
            < enemy_ids(rest)[j] by {
            assert(ids[i] < ids[j]);
        }
        lemma_fall_step(rest, before, death);
        lemma_enemy_place(enemies, enemies.len() - 1);
        if last.entity.id == id {
            assert(!has_enemy(rest, id)) by {
                if has_enemy(rest, id) {
                    let k = enemy_place(rest, id);
                    assert(enemies[k].entity.id == id);
                }
            }
        } else {
            if has_enemy(rest, id) {
                let k = enemy_place(rest, id);
                assert(enemies[k].entity.id == id);
            }
            if has_enemy(enemies, id) {
                let k = enemy_place(enemies, id);
                assert(rest[k].entity.id == id);
            }
        }
    }
}

/// Every enemy either stays or leaves one orb: the orbs that drop and the
/// enemies that are left are as many as the enemies were.
pub proof fn lemma_one_orb_per_fallen_enemy(enemies: Seq<Enemy>, deaths: Seq<DeathEvent>)
    requires
        ascending(enemy_ids(enemies)),
    ensures
        drop_places(enemies, deaths).len() + enemies.filter(survives(deaths)).len()
            == enemies.len(),
    decreases deaths.len(),
{
    if deaths.len() == 0 {
        assert(deaths =~= Seq::<DeathEvent>::empty());
        lemma_none_fall(enemies);
    } else {
        let before = deaths.drop_last();
        let last = deaths.last();
        assert(before.push(last) =~= deaths);
        lemma_one_orb_per_fallen_enemy(enemies, before);
        lemma_fall_step(enemies, before, last);
        lemma_drop_places_len(enemies, before);
        assert(drop_places(enemies, deaths).len() == drop_places(enemies, before).len() + (
        if has_enemy(enemies, last.entity.id) && !is_named(before, last.entity.id) {
            1nat
        } else {
            0nat
        }));
    }
}

/// Without a death event every enemy stays.
pub proof fn lemma_none_fall(enemies: Seq<Enemy>)
    ensures
        enemies.filter(survives(Seq::empty())) == enemies,
    decreases enemies.len(),
{
    reveal(Seq::filter);
    if enemies.len() > 0 {
        lemma_none_fall(enemies.drop_last());
        assert(enemies.drop_last().push(enemies.last()) =~= enemies);
    }
}

/// Lets the enemies die that the death events name.
///
/// Every enemy that a death event is for leaves the world, and an
/// experience orb appears where it stood. The orbs come in the order of
/// the death events. A death event for an entity that is no enemy, or that
/// is gone already, changes nothing, so that each enemy falls once.
pub fn enemy_death_system(world: &mut World, deaths: &Vec<DeathEvent>)
    requires
        old(world).wf(),
        old(world).next_id + deaths@.len() <= u64::MAX,
    ensures
        final(world).wf(),
        final(world).enemies@ == old(world).enemies@.filter(survives(deaths@)),
        final(world).orbs@ == old(world).orbs@ + orbs_at(
            drop_places(old(world).enemies@, deaths@),
            old(world).next_id,
        ),
        final(world).next_id == old(world).next_id + drop_places(
            old(world).enemies@,
            deaths@,
        ).len(),
        final(world).player == old(world).player,
        final(world).projectiles@ == old(world).projectiles@,
{
    let ghost enemies = world.enemies@;
    let ghost first = world.next_id;
    let mut i: usize = 0;
    assert(world.orbs@ =~= old(world).orbs@ + orbs_at(drop_places(enemies, deaths@.take(0)), first));
    while i < deaths.len()
        invariant
            i <= deaths@.len(),
            enemies == old(world).enemies@,
            first == old(world).next_id,
            first + deaths@.len() <= u64::MAX,
            world.wf(),
            world.enemies@ == enemies,
            world.orbs@ == old(world).orbs@ + orbs_at(
                drop_places(enemies, deaths@.take(i as int)),
                first,
            ),
            world.next_id == first + drop_places(enemies, deaths@.take(i as int)).len(),
            world.player == old(world).player,
            world.projectiles@ == old(world).projectiles@,
        decreases deaths@.len() - i,
    {
        let entity = deaths[i].entity;
        proof {
            assert(deaths@.take(i as int + 1).drop_last() =~= deaths@.take(i as int));
            lemma_drop_places_len(enemies, deaths@.take(i as int));
        }
        match find_enemy(&world.enemies, entity) {
            Some(k) => {
                if !names_before(deaths, i, entity) {
                    proof {
                        lemma_enemy_place(enemies, k as int);
                    }
                    let place = world.enemies[k].position;
                    spawn_xp(world, place);
                    assert(world.orbs@ =~= old(world).orbs@ + orbs_at(
                        drop_places(enemies, deaths@.take(i as int + 1)),
                        first,
                    ));
                }
            },
            None => {},
        }
        i = i + 1;
    }
    assert(deaths@.take(i as int) =~= deaths@);
    let ghost alive = survives(deaths@);
    let mut kept: Vec<Enemy> = Vec::new();
    let mut k: usize = 0;
    while k < world.enemies.len()
        invariant
            k <= world.enemies@.len(),
            world.enemies@ == enemies,
            alive == survives(deaths@),
            kept@ == enemies.take(k as int).filter(alive),
        decreases world.enemies@.len() - k,
    {
        let enemy = world.enemies[k];
        proof {
            assert(enemies.take(k as int + 1) =~= enemies.take(k as int).push(enemy));
            enemies.take(k as int).lemma_filter_push(enemy, alive);
            assert(deaths@.take(deaths@.len() as int) =~= deaths@);
        }
        if !names_before(deaths, deaths.len(), enemy.entity) {
            kept.push(enemy);
        }
        k = k + 1;
    }
    proof {
        assert(enemies.take(k as int) =~= enemies);
        lemma_filter_ascending(enemies, enemy_id(), alive);
        lemma_disjoint_symmetric(player_ids(world.player), enemy_ids(enemies));
        lemma_filter_apart(enemies, enemy_id(), alive, world.next_id, player_ids(world.player));
        lemma_filter_apart(
            enemies,
            enemy_id(),
            alive,
            world.next_id,
            projectile_ids(world.projectiles@),
        );
        lemma_filter_apart(enemies, enemy_id(), alive, world.next_id, orb_ids(world.orbs@));
    }
    world.enemies = kept;
}

/// Lets the player die if a death event names it. Says whether it did:
/// with that the game is over.
pub fn player_death_system(world: &mut World, deaths: &Vec<DeathEvent>) -> (over: bool)
    requires
        old(world).wf(),
    ensures
        final(world).wf(),
        over == (old(world).player is Some && is_named(
            deaths@,
            old(world).player.unwrap().entity.id,
        )),
        over ==> final(world).player is None,
        !over ==> final(world).player == old(world).player,
        final(world).next_id == old(world).next_id,
        final(world).enemies@ == old(world).enemies@,
        final(world).projectiles@ == old(world).projectiles@,
        final(world).orbs@ == old(world).orbs@,
{
    match world.player {
        Some(player) => {
            assert(deaths@.take(deaths@.len() as int) =~= deaths@);
            if names_before(deaths, deaths.len(), player.entity) {
                world.player = None;
                true
            } else {
                false
            }
        },
        None => false,
    }
}

/// The colours of a health bar.
#[derive(Clone, Copy, Debug, PartialEq, Eq, Structural)]
pub enum BarColor {
    /// More than half of the health is left.
    Green,
    /// At least a fifth of the health is left, and no more than half.
    Orange,
    /// Less than a fifth of the health is left.
    Red,
}

/// What the health bar of an entity shows.
#[derive(Clone, Copy, Debug, PartialEq, Eq, Structural)]
pub struct HealthBar {
    pub entity: Entity,
    /// Filled part of the bar, in thousandths of its length.
    pub fill: u32,
    pub color: BarColor,
}

impl Health {
    /// The filled part of the bar, in thousandths and rounded down: the
    /// health that is left, counted as no less than zero and no more than
    /// full health, against full health.
    pub open spec fn bar_fill(self) -> u32 {
        if self.max == 0 || self.current <= 0 {
            0
        } else if self.current >= self.max {
            1000
        } else {
            (self.current * 1000 / (self.max as int)) as u32
        }
    }

    /// The colour of the bar: green above half of full health, orange
    /// from a fifth of it up to half, red below a fifth. Where full health
    /// is nothing there is no such share, and the bar is green if any health
    /// is left and red if none is.
    pub open spec fn bar_color(self) -> BarColor {
        if 2 * self.current > self.max {
            BarColor::Green
        } else if self.max > 0 && 5 * self.current >= self.max {
            BarColor::Orange
        } else {
            BarColor::Red
        }
    }

    /// The bar that shows this health for `entity`.
    pub open spec fn bar_of(self, entity: Entity) -> HealthBar {
        HealthBar { entity, fill: self.bar_fill(), color: self.bar_color() }
    }

    /// Computes [`Health::bar_of`].
    pub fn bar(&self, entity: Entity) -> (bar: HealthBar)
        ensures
            bar == self.bar_of(entity),
            bar.fill <= 1000,
    {
        let current: i128 = self.current as i128;
        let max: i128 = self.max as i128;
        proof {
            if 0 < current < max {
                assert(0 <= current * 1000 / (max as int) < 1000) by (nonlinear_arith)
                    requires
                        0 < current < max,
                ;
            }
        }
        let fill: u32 = if max == 0 || current <= 0 {
            0
        } else if current >= max {
            1000
        } else {
            (current * 1000 / max) as u32
        };
        let color = if 2 * current > max {
            BarColor::Green
        } else if max > 0 && 5 * current >= max {
            BarColor::Orange
        } else {
            BarColor::Red
        };
        HealthBar { entity, fill, color }
    }
}

/// The health bar that an entity gets when it comes into the world: full
/// and green.
pub fn spawn_health_bar(entity: Entity) -> (bar: HealthBar)
    ensures
        bar == (HealthBar { entity, fill: 1000, color: BarColor::Green }),
{
    HealthBar { entity, fill: 1000, color: BarColor::Green }
}

/// The health bar of an enemy.
pub open spec fn enemy_bar() -> spec_fn(Enemy) -> HealthBar {
    |e: Enemy| e.health.bar_of(e.entity)
}

/// The health bars of a world: that of the player, if there is one, and
/// those of the enemies in their order.
pub open spec fn bars_of(player: Option<Player>, enemies: Seq<Enemy>) -> Seq<HealthBar> {
    let bars = enemies.map_values(enemy_bar());
    match player {
        Some(p) => seq![p.health.bar_of(p.entity)] + bars,
        None => bars,
    }
}

/// Works out what every health bar shows.
pub fn update_health_bars(world: &World) -> (bars: Vec<HealthBar>)
    ensures
        bars@ == bars_of(world.player, world.enemies@),
{
    let mut bars: Vec<HealthBar> = Vec::new();
    match world.player {
        Some(player) => {
            bars.push(player.health.bar(player.entity));
        },
        None => {},
    }
    let ghost head = bars@;
    let mut k: usize = 0;
    while k < world.enemies.len()
        invariant
            k <= world.enemies@.len(),
            bars@ == head + world.enemies@.take(k as int).map_values(enemy_bar()),
        decreases world.enemies@.len() - k,
    {
        let enemy = world.enemies[k];
        bars.push(enemy.health.bar(enemy.entity));
        k = k + 1;
        assert(bars@ =~= head + world.enemies@.take(k as int).map_values(enemy_bar()));
    }
    assert(world.enemies@.take(k as int) =~= world.enemies@);
    assert(bars@ =~= bars_of(world.player, world.enemies@));
    bars
}

} // verus!
