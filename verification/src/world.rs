//! The entities of one game and the identities they go by.

use vstd::prelude::*;
use crate::enemy::Enemy;
use crate::enemy::EnemyType;
use crate::geometry::Vec2;
use crate::health::Health;
use crate::player::Player;
use crate::projectile::Projectile;
use crate::projectile::ProjectileKind;
use crate::xp::XP;

verus! {

/// The identity of an entity. No two entities of one world share it, and
/// it is not given out again once its entity is gone.
#[derive(Clone, Copy, Debug, PartialEq, Eq, Structural)]
pub struct Entity {
    pub id: u64,
}

/// Everything that lives in the arena. Each list is in the order in which
/// its entities came to be.
#[derive(Debug)]
pub struct World {
    /// The identity that the next new entity gets.
    pub next_id: u64,
    pub player: Option<Player>,
    pub enemies: Vec<Enemy>,
    pub projectiles: Vec<Projectile>,
    pub orbs: Vec<XP>,
}

/// Each identity is smaller than every later one.
pub open spec fn ascending(ids: Seq<u64>) -> bool {
    forall|i: int, j: int| 0 <= i < j < ids.len() ==> ids[i] < ids[j]
}

/// Every identity is smaller than `bound`.
pub open spec fn all_below(ids: Seq<u64>, bound: u64) -> bool {
    forall|i: int| 0 <= i < ids.len() ==> ids[i] < bound
}

/// No identity occurs in both lists.
pub open spec fn disjoint(a: Seq<u64>, b: Seq<u64>) -> bool {
    forall|i: int, j: int| 0 <= i < a.len() && 0 <= j < b.len() ==> a[i] != b[j]
}

/// Reads the identity of an enemy.
pub open spec fn enemy_id() -> spec_fn(Enemy) -> u64 {
    |e: Enemy| e.entity.id
}

/// Reads the identity of a projectile.
pub open spec fn projectile_id() -> spec_fn(Projectile) -> u64 {
    |p: Projectile| p.entity.id
}

/// Reads the identity of an orb.
pub open spec fn orb_id() -> spec_fn(XP) -> u64 {
    |o: XP| o.entity.id
}

/// The identities of a list of enemies, in its order.
pub open spec fn enemy_ids(enemies: Seq<Enemy>) -> Seq<u64> {
    enemies.map_values(enemy_id())
}

/// The identities of a list of projectiles, in its order.
pub open spec fn projectile_ids(projectiles: Seq<Projectile>) -> Seq<u64> {
    projectiles.map_values(projectile_id())
}

/// The identities of a list of orbs, in its order.
pub open spec fn orb_ids(orbs: Seq<XP>) -> Seq<u64> {
    orbs.map_values(orb_id())
}

/// The identity of the player, if there is one.
pub open spec fn player_ids(player: Option<Player>) -> Seq<u64> {
    match player {
        Some(p) => seq![p.entity.id],
        None => Seq::empty(),
    }
}

/// The identities of a list with one more enemy.
pub proof fn lemma_enemy_ids_push(enemies: Seq<Enemy>, e: Enemy)
    ensures
        enemy_ids(enemies.push(e)) == enemy_ids(enemies).push(e.entity.id),
{
    assert(enemy_ids(enemies.push(e)) =~= enemy_ids(enemies).push(e.entity.id));
}

/// The identities of a list with one more projectile.
pub proof fn lemma_projectile_ids_push(projectiles: Seq<Projectile>, p: Projectile)
    ensures
        projectile_ids(projectiles.push(p)) == projectile_ids(projectiles).push(p.entity.id),
{
    assert(projectile_ids(projectiles.push(p)) =~= projectile_ids(projectiles).push(p.entity.id));
}

/// The identities of a list with one more orb.
pub proof fn lemma_orb_ids_push(orbs: Seq<XP>, o: XP)
    ensures
        orb_ids(orbs.push(o)) == orb_ids(orbs).push(o.entity.id),
{
    assert(orb_ids(orbs.push(o)) =~= orb_ids(orbs).push(o.entity.id));
}

/// A list whose identities are all below the next one stays in order when
/// the next one is put at its end.
pub proof fn lemma_push_next(ids: Seq<u64>, next: u64)
    requires
        ascending(ids),
        all_below(ids, next),
        next < u64::MAX,
    ensures
        ascending(ids.push(next)),
        all_below(ids.push(next), (next + 1) as u64),
{
}

/// Identities below a bound are below every larger bound.
pub proof fn lemma_all_below_weaken(ids: Seq<u64>, bound: u64, larger: u64)
    requires
        all_below(ids, bound),
        bound <= larger,
    ensures
        all_below(ids, larger),
{
}

/// An identity that is not in use is in neither of two lists that share
/// none, also after it has joined one of them.
pub proof fn lemma_disjoint_push_next(a: Seq<u64>, b: Seq<u64>, next: u64)
    requires
        disjoint(a, b),
        all_below(b, next),
    ensures
        disjoint(a.push(next), b),
        disjoint(b, a.push(next)),
{
}

/// A list from which some items are taken out stays in the order of its
/// identities.
pub proof fn lemma_filter_ascending<T>(items: Seq<T>, key: spec_fn(T) -> u64, keep: spec_fn(T) -> bool)
    requires
        ascending(items.map_values(key)),
    ensures
        ascending(items.filter(keep).map_values(key)),
    decreases items.len(),
{
    reveal(Seq::filter);
    if items.len() > 0 {
        let rest = items.drop_last();
        let ids = items.map_values(key);
        assert forall|i: int, j: int| 0 <= i < j < rest.len() implies rest.map_values(key)[i]
            < rest.map_values(key)[j] by {
            assert(ids[i] < ids[j]);
        }
        lemma_filter_ascending(rest, key, keep);
        let kept = items.filter(keep);
        let kept_rest = rest.filter(keep);
        assert forall|i: int, j: int| 0 <= i < j < kept.len() implies kept.map_values(key)[i]
            < kept.map_values(key)[j] by {
            if j < kept_rest.len() {
                assert(kept_rest.map_values(key)[i] < kept_rest.map_values(key)[j]);
            } else {
                assert(kept_rest.contains(kept_rest[i]));
                rest.lemma_filter_contains_rev(keep, kept_rest[i]);
                let b = choose|b: int| 0 <= b < rest.len() && rest[b] == kept_rest[i];
                assert(ids[b] < ids[items.len() - 1]);
            }
        }
    }
}

/// The identities of a list from which some items are taken out stay
/// below a bound that held before, and apart from a list that they were
/// apart from.
pub proof fn lemma_filter_apart<T>(
    items: Seq<T>,
    key: spec_fn(T) -> u64,
    keep: spec_fn(T) -> bool,
    bound: u64,
    other: Seq<u64>,
)
    requires
        all_below(items.map_values(key), bound),
        disjoint(items.map_values(key), other),
    ensures
        all_below(items.filter(keep).map_values(key), bound),
        disjoint(items.filter(keep).map_values(key), other),
        disjoint(other, items.filter(keep).map_values(key)),
{
    let kept = items.filter(keep);
    let ids = items.map_values(key);
    assert forall|i: int| 0 <= i < kept.len() implies kept.map_values(key)[i] < bound by {
        assert(kept.contains(kept[i]));
        items.lemma_filter_contains_rev(keep, kept[i]);
        let b = choose|b: int| 0 <= b < items.len() && items[b] == kept[i];
        assert(ids[b] < bound);
    }
    assert forall|i: int, j: int| 0 <= i < kept.len() && 0 <= j < other.len() implies kept.map_values(
        key,
    )[i] != other[j] by {
        assert(kept.contains(kept[i]));
        items.lemma_filter_contains_rev(keep, kept[i]);
        let b = choose|b: int| 0 <= b < items.len() && items[b] == kept[i];
        assert(ids[b] != other[j]);
    }
}

/// Sharing no identity does not depend on the order of the two lists.
pub proof fn lemma_disjoint_symmetric(a: Seq<u64>, b: Seq<u64>)
    requires
        disjoint(a, b),
    ensures
        disjoint(b, a),
{
}

impl World {
    /// No two entities share an identity, every identity in use is smaller
    /// than the next one to be given out, and each list is in the order of
    /// its identities.
    pub open spec fn wf(&self) -> bool {
        &&& ascending(enemy_ids(self.enemies@))
        &&& ascending(projectile_ids(self.projectiles@))
        &&& ascending(orb_ids(self.orbs@))
        &&& all_below(player_ids(self.player), self.next_id)
        &&& all_below(enemy_ids(self.enemies@), self.next_id)
        &&& all_below(projectile_ids(self.projectiles@), self.next_id)
        &&& all_below(orb_ids(self.orbs@), self.next_id)
        &&& disjoint(player_ids(self.player), enemy_ids(self.enemies@))
        &&& disjoint(player_ids(self.player), projectile_ids(self.projectiles@))
        &&& disjoint(player_ids(self.player), orb_ids(self.orbs@))
        &&& disjoint(enemy_ids(self.enemies@), projectile_ids(self.projectiles@))
        &&& disjoint(enemy_ids(self.enemies@), orb_ids(self.orbs@))
        &&& disjoint(projectile_ids(self.projectiles@), orb_ids(self.orbs@))
    }

    /// An empty world.
    pub fn new() -> (world: World)
        ensures
            world.wf(),
            world.next_id == 0,
            world.player.is_none(),
            world.enemies@.len() == 0,
            world.projectiles@.len() == 0,
            world.orbs@.len() == 0,
    {
        World {
            next_id: 0,
            player: None,
            enemies: Vec::new(),
            projectiles: Vec::new(),
            orbs: Vec::new(),
        }
    }

    /// Puts a player with full health at `position`. A player that was
    /// there before is gone.
    pub fn spawn_player(&mut self, position: Vec2, max_health: u32) -> (entity: Entity)
        requires
            old(self).wf(),
            old(self).next_id < u64::MAX,
        ensures
            final(self).wf(),
            entity.id == old(self).next_id,
            final(self).next_id == old(self).next_id + 1,
            final(self).player == Some(
                Player {
                    entity,
                    position,
                    health: Health { current: max_health as i64, max: max_health },
                },
            ),
            final(self).enemies@ == old(self).enemies@,
            final(self).projectiles@ == old(self).projectiles@,
            final(self).orbs@ == old(self).orbs@,
    {
        let entity = Entity { id: self.next_id };
        self.next_id = self.next_id + 1;
        self.player = Some(Player { entity, position, health: Health::new(max_health) });
        entity
    }

    /// Puts an enemy of the given kind at `position`, with the speed and
    /// the full health of its kind.
    pub fn spawn_enemy(&mut self, enemy_type: EnemyType, position: Vec2) -> (entity: Entity)
        requires
            old(self).wf(),
            old(self).next_id < u64::MAX,
        ensures
            final(self).wf(),
            entity.id == old(self).next_id,
            final(self).next_id == old(self).next_id + 1,
            final(self).enemies@ == old(self).enemies@.push(
                Enemy {
                    entity,
                    position,
                    speed: enemy_type.spec_definition().speed,
                    enemy_type,
                    health: Health {
                        current: enemy_type.spec_definition().max_health as i64,
                        max: enemy_type.spec_definition().max_health,
                    },
                },
            ),
            final(self).player == old(self).player,
            final(self).projectiles@ == old(self).projectiles@,
            final(self).orbs@ == old(self).orbs@,
    {
        let entity = Entity { id: self.next_id };
        let def = enemy_type.definition();
        let enemy = Enemy {
            entity,
            position,
            speed: def.speed,
            enemy_type,
            health: Health::new(def.max_health),
        };
        proof {
            let next = self.next_id;
            let after = (next + 1) as u64;
            lemma_enemy_ids_push(self.enemies@, enemy);
            lemma_push_next(enemy_ids(self.enemies@), next);
            lemma_all_below_weaken(player_ids(self.player), next, after);
            lemma_all_below_weaken(projectile_ids(self.projectiles@), next, after);
            lemma_all_below_weaken(orb_ids(self.orbs@), next, after);
            lemma_disjoint_symmetric(player_ids(self.player), enemy_ids(self.enemies@));
            lemma_disjoint_push_next(
                enemy_ids(self.enemies@),
                player_ids(self.player),
                next,
            );
            lemma_disjoint_push_next(
                enemy_ids(self.enemies@),
                projectile_ids(self.projectiles@),
                next,
            );
            lemma_disjoint_push_next(enemy_ids(self.enemies@), orb_ids(self.orbs@), next);
        }
        self.next_id = self.next_id + 1;
        self.enemies.push(enemy);
        entity
    }

    /// Puts a projectile at `position`.
    pub fn spawn_projectile(
        &mut self,
        position: Vec2,
        direction: Vec2,
        kind: ProjectileKind,
        damage: u32,
    ) -> (entity: Entity)
        requires
            old(self).wf(),
            old(self).next_id < u64::MAX,
        ensures
            final(self).wf(),
            entity.id == old(self).next_id,
            final(self).next_id == old(self).next_id + 1,
            final(self).projectiles@ == old(self).projectiles@.push(
                Projectile { entity, position, direction, kind, damage },
            ),
            final(self).player == old(self).player,
            final(self).enemies@ == old(self).enemies@,
            final(self).orbs@ == old(self).orbs@,
    {
        let entity = Entity { id: self.next_id };
        let projectile = Projectile { entity, position, direction, kind, damage };
        proof {
            let next = self.next_id;
            let after = (next + 1) as u64;
            lemma_projectile_ids_push(self.projectiles@, projectile);
            lemma_push_next(projectile_ids(self.projectiles@), next);
            lemma_all_below_weaken(player_ids(self.player), next, after);
            lemma_all_below_weaken(enemy_ids(self.enemies@), next, after);
            lemma_all_below_weaken(orb_ids(self.orbs@), next, after);
            lemma_disjoint_symmetric(player_ids(self.player), projectile_ids(self.projectiles@));
            lemma_disjoint_symmetric(enemy_ids(self.enemies@), projectile_ids(self.projectiles@));
            lemma_disjoint_push_next(
                projectile_ids(self.projectiles@),
                player_ids(self.player),
                next,
            );
            lemma_disjoint_push_next(
                projectile_ids(self.projectiles@),
                enemy_ids(self.enemies@),
                next,
            );
            lemma_disjoint_push_next(
                projectile_ids(self.projectiles@),
                orb_ids(self.orbs@),
                next,
            );
        }
        self.next_id = self.next_id + 1;
        self.projectiles.push(projectile);
        entity
    }
}

/// Computes [`ascending`].
pub fn is_ascending(ids: &Vec<u64>) -> (ok: bool)
    ensures
        ok == ascending(ids@),
{
    let mut i: usize = 1;
    while i < ids.len()
        invariant
            1 <= i,
            forall|a: int, b: int| 0 <= a < b < i && b < ids@.len() ==> ids@[a] < ids@[b],
        decreases ids.len() - i,
    {
        if ids[i - 1] >= ids[i] {
            return false;
        }
        assert forall|a: int, b: int| 0 <= a < b < i + 1 && b < ids@.len() implies ids@[a]
            < ids@[b] by {
            if b == i && a < i - 1 {
                assert(ids@[a] < ids@[i - 1]);
            }
        }
        i = i + 1;
    }
    true
}

/// Computes [`all_below`].
pub fn is_all_below(ids: &Vec<u64>, bound: u64) -> (ok: bool)
    ensures
        ok == all_below(ids@, bound),
{
    let mut i: usize = 0;
    while i < ids.len()
        invariant
            i <= ids.len(),
            forall|a: int| 0 <= a < i ==> ids@[a] < bound,
        decreases ids.len() - i,
    {
        if ids[i] >= bound {
            return false;
        }
        i = i + 1;
    }
    true
}

/// Computes [`disjoint`].
pub fn is_disjoint(a: &Vec<u64>, b: &Vec<u64>) -> (ok: bool)
    ensures
        ok == disjoint(a@, b@),
{
    let mut i: usize = 0;
    while i < a.len()
        invariant
            i <= a.len(),
            forall|x: int, y: int| 0 <= x < i && 0 <= y < b@.len() ==> a@[x] != b@[y],
        decreases a.len() - i,
    {
        let mut j: usize = 0;
        while j < b.len()
            invariant
                i < a.len(),
                j <= b.len(),
                forall|y: int| 0 <= y < j ==> a@[i as int] != b@[y],
            decreases b.len() - j,
        {
            if a[i] == b[j] {
                return false;
            }
            j = j + 1;
        }
        i = i + 1;
    }
    true
}

impl World {
    /// The identities of the enemies, in their order.
    pub fn enemy_id_list(&self) -> (ids: Vec<u64>)
        ensures
            ids@ == enemy_ids(self.enemies@),
    {
        let mut ids: Vec<u64> = Vec::new();
        let mut i: usize = 0;
        while i < self.enemies.len()
            invariant
                i <= self.enemies@.len(),
                ids@ == enemy_ids(self.enemies@.take(i as int)),
            decreases self.enemies@.len() - i,
        {
            ids.push(self.enemies[i].entity.id);
            i = i + 1;
            assert(ids@ =~= enemy_ids(self.enemies@.take(i as int)));
        }
        assert(self.enemies@.take(i as int) =~= self.enemies@);
        ids
    }

    /// The identities of the projectiles, in their order.
    pub fn projectile_id_list(&self) -> (ids: Vec<u64>)
        ensures
            ids@ == projectile_ids(self.projectiles@),
    {
        let mut ids: Vec<u64> = Vec::new();
        let mut i: usize = 0;
        while i < self.projectiles.len()
            invariant
                i <= self.projectiles@.len(),
                ids@ == projectile_ids(self.projectiles@.take(i as int)),
            decreases self.projectiles@.len() - i,
        {
            ids.push(self.projectiles[i].entity.id);
            i = i + 1;
            assert(ids@ =~= projectile_ids(self.projectiles@.take(i as int)));
        }
        assert(self.projectiles@.take(i as int) =~= self.projectiles@);
        ids
    }

    /// The identities of the orbs, in their order.
    pub fn orb_id_list(&self) -> (ids: Vec<u64>)
        ensures
            ids@ == orb_ids(self.orbs@),
    {
        let mut ids: Vec<u64> = Vec::new();
        let mut i: usize = 0;
        while i < self.orbs.len()
            invariant
                i <= self.orbs@.len(),
                ids@ == orb_ids(self.orbs@.take(i as int)),
            decreases self.orbs@.len() - i,
        {
            ids.push(self.orbs[i].entity.id);
            i = i + 1;
            assert(ids@ =~= orb_ids(self.orbs@.take(i as int)));
        }
        assert(self.orbs@.take(i as int) =~= self.orbs@);
        ids
    }

    /// The identity of the player, if there is one.
    pub fn player_id_list(&self) -> (ids: Vec<u64>)
        ensures
            ids@ == player_ids(self.player),
    {
        let mut ids: Vec<u64> = Vec::new();
        match self.player {
            Some(player) => {
                ids.push(player.entity.id);
                assert(ids@ =~= player_ids(self.player));
            },
            None => {},
        }
        ids
    }

    /// Computes [`World::wf`]: whether a world that was put together by
    /// hand is in order.
    pub fn is_wf(&self) -> (ok: bool)
        ensures
            ok == self.wf(),
    {
        let player = self.player_id_list();
        let enemies = self.enemy_id_list();
        let projectiles = self.projectile_id_list();
        let orbs = self.orb_id_list();
        is_ascending(&enemies) && is_ascending(&projectiles) && is_ascending(&orbs)
            && is_all_below(&player, self.next_id) && is_all_below(&enemies, self.next_id)
            && is_all_below(&projectiles, self.next_id) && is_all_below(&orbs, self.next_id)
            && is_disjoint(&player, &enemies) && is_disjoint(&player, &projectiles)
            && is_disjoint(&player, &orbs) && is_disjoint(&enemies, &projectiles) && is_disjoint(
            &enemies,
            &orbs,
        ) && is_disjoint(&projectiles, &orbs)
    }
}

} // verus!
