//! Experience orbs: how they are dropped, drawn in and picked up.

use vstd::prelude::*;
use crate::config::ORB_ATTRACT_RADIUS;
use crate::config::ORB_COLLECT_RADIUS;
use crate::config::ORB_SPEED;
use crate::geometry::step_len;
use crate::geometry::step_length;
use crate::geometry::Vec2;
use crate::level::LevelUpEvent;
use crate::level::PlayerXP;
use crate::world::enemy_ids;
use crate::world::lemma_all_below_weaken;
use crate::world::lemma_disjoint_push_next;
use crate::world::lemma_disjoint_symmetric;
use crate::world::lemma_filter_apart;
use crate::world::lemma_filter_ascending;
use crate::world::lemma_orb_ids_push;
use crate::world::lemma_push_next;
use crate::world::orb_id;
use crate::world::orb_ids;
use crate::world::player_ids;
use crate::world::projectile_ids;
use crate::world::Entity;
use crate::world::World;

verus! {

/// An experience orb that lies on the ground.
#[derive(Clone, Copy, Debug, PartialEq, Eq, Structural)]
pub struct XP {
    pub entity: Entity,
    pub position: Vec2,
}

impl XP {
    /// The orb after `delta` microseconds with the player at `at`: drawn
    /// straight toward the player if it lies closer than the radius of
    /// attraction, and where it was if not.
    pub open spec fn pulled(self, at: Vec2, delta: u64) -> XP {
        if at.within(self.position, ORB_ATTRACT_RADIUS as int) {
            XP {
                position: self.position.stepped_toward(
                    at,
                    step_length(ORB_SPEED as int, delta as int),
                ),
                ..self
            }
        } else {
            self
        }
    }
}

/// Whether the player at `at` picks an orb up.
pub open spec fn picked_up(at: Vec2) -> spec_fn(XP) -> bool {
    |o: XP| at.within(o.position, ORB_COLLECT_RADIUS as int)
}

/// Whether the player at `at` leaves an orb where it is.
pub open spec fn left_lying(at: Vec2) -> spec_fn(XP) -> bool {
    |o: XP| !at.within(o.position, ORB_COLLECT_RADIUS as int)
}

/// [`XP::pulled`] for a fixed place of the player and a fixed time.
pub open spec fn pull(at: Vec2, delta: u64) -> spec_fn(XP) -> XP {
    |o: XP| o.pulled(at, delta)
}

/// `count` level-up events.
pub open spec fn level_ups(count: nat) -> Seq<LevelUpEvent> {
    Seq::new(count, |k: int| LevelUpEvent)
}

/// Drops an experience orb at `position`.
pub fn spawn_xp(world: &mut World, position: Vec2) -> (entity: Entity)
    requires
        old(world).wf(),
        old(world).next_id < u64::MAX,
    ensures
        final(world).wf(),
        entity.id == old(world).next_id,
        final(world).next_id == old(world).next_id + 1,
        final(world).orbs@ == old(world).orbs@.push(XP { entity, position }),
        final(world).player == old(world).player,
        final(world).enemies@ == old(world).enemies@,
        final(world).projectiles@ == old(world).projectiles@,
{
    let entity = Entity { id: world.next_id };
    let orb = XP { entity, position };
    proof {
        let next = world.next_id;
        let after = (next + 1) as u64;
        lemma_orb_ids_push(world.orbs@, orb);
        lemma_push_next(orb_ids(world.orbs@), next);
        lemma_all_below_weaken(player_ids(world.player), next, after);
        lemma_all_below_weaken(enemy_ids(world.enemies@), next, after);
        lemma_all_below_weaken(projectile_ids(world.projectiles@), next, after);
        lemma_disjoint_symmetric(player_ids(world.player), orb_ids(world.orbs@));
        lemma_disjoint_symmetric(enemy_ids(world.enemies@), orb_ids(world.orbs@));
        lemma_disjoint_symmetric(projectile_ids(world.projectiles@), orb_ids(world.orbs@));
        lemma_disjoint_push_next(orb_ids(world.orbs@), player_ids(world.player), next);
        lemma_disjoint_push_next(orb_ids(world.orbs@), enemy_ids(world.enemies@), next);
        lemma_disjoint_push_next(orb_ids(world.orbs@), projectile_ids(world.projectiles@), next);
    }
    world.next_id = world.next_id + 1;
    world.orbs.push(orb);
    entity
}

/// Lets the player gather experience.
///
/// Every orb closer than the collect radius to the player is taken out of
/// the world and taken in (see [`PlayerXP::collected`]), one after the
/// other; for each that brings a new level, a level-up event is put at the
/// end of `level_ups`. Every other orb closer than the radius of attraction
/// is drawn toward the player for `delta` microseconds. Without a player
/// nothing happens.
pub fn xp_collection(
    world: &mut World,
    xp: &mut PlayerXP,
    level_ups: &mut Vec<LevelUpEvent>,
    delta: u64,
)
    requires
        old(world).wf(),
    ensures
        final(world).wf(),
        final(world).next_id == old(world).next_id,
        final(world).player == old(world).player,
        final(world).enemies@ == old(world).enemies@,
        final(world).projectiles@ == old(world).projectiles@,
        old(world).player is None ==> {
            &&& final(world).orbs@ == old(world).orbs@
            &&& *final(xp) == *old(xp)
            &&& final(level_ups)@ == old(level_ups)@
        },
        old(world).player is Some ==> {
            let at = old(world).player.unwrap().position;
            let found = old(world).orbs@.filter(picked_up(at)).len();
            &&& final(world).orbs@ == old(world).orbs@.filter(left_lying(at)).map_values(
                pull(at, delta),
            )
            &&& *final(xp) == old(xp).collected_many(found)
            &&& final(level_ups)@ == old(level_ups)@ + self::level_ups(
                old(xp).level_ups_in(found),
            )
        },
{
    let at = match world.player {
        Some(player) => player.position,
        None => {
            return ;
        },
    };
    let len = step_len(ORB_SPEED, delta);
    let ghost all = world.orbs@;
    let ghost taken = picked_up(at);
    let ghost left = left_lying(at);
    let ghost draw = pull(at, delta);
    let mut kept: Vec<XP> = Vec::new();
    let mut i: usize = 0;
    while i < world.orbs.len()
        invariant
            i <= world.orbs@.len(),
            world.orbs@ == all,
            taken == picked_up(at),
            left == left_lying(at),
            draw == pull(at, delta),
            len as int == step_length(ORB_SPEED as int, delta as int),
            kept@ == all.take(i as int).filter(left).map_values(draw),
            *xp == old(xp).collected_many(all.take(i as int).filter(taken).len()),
            level_ups@ == old(level_ups)@ + self::level_ups(
                old(xp).level_ups_in(all.take(i as int).filter(taken).len()),
            ),
        decreases world.orbs@.len() - i,
    {
        let mut orb = world.orbs[i];
        proof {
            assert(all.take(i as int + 1) =~= all.take(i as int).push(orb));
            all.take(i as int).lemma_filter_push(orb, taken);
            all.take(i as int).lemma_filter_push(orb, left);
        }
        if at.is_within(&orb.position, ORB_COLLECT_RADIUS) {
            let ghost before = level_ups@;
            let leveled = xp.collect_orb();
            if leveled {
                level_ups.push(LevelUpEvent);
            }
            assert(level_ups@ =~= old(level_ups)@ + self::level_ups(
                old(xp).level_ups_in(all.take(i as int + 1).filter(taken).len()),
            ));
        } else {
            if at.is_within(&orb.position, ORB_ATTRACT_RADIUS) {
                orb.position = orb.position.step_toward(&at, len);
            }
            kept.push(orb);
            assert(kept@ =~= all.take(i as int + 1).filter(left).map_values(draw));
        }
        i = i + 1;
    }
    proof {
        assert(all.take(i as int) =~= all);
        assert(orb_ids(kept@) =~= orb_ids(all.filter(left)));
        lemma_filter_ascending(all, orb_id(), left);
        lemma_disjoint_symmetric(player_ids(world.player), orb_ids(all));
        lemma_disjoint_symmetric(enemy_ids(world.enemies@), orb_ids(all));
        lemma_disjoint_symmetric(projectile_ids(world.projectiles@), orb_ids(all));
        lemma_filter_apart(all, orb_id(), left, world.next_id, player_ids(world.player));
        lemma_filter_apart(all, orb_id(), left, world.next_id, enemy_ids(world.enemies@));
        lemma_filter_apart(all, orb_id(), left, world.next_id, projectile_ids(world.projectiles@));
    }
    world.orbs = kept;
}

} // verus!
