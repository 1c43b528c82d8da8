//! Experience and levels of the player.

use vstd::prelude::*;
use crate::upgrade::capped_sum;

verus! {

/// Experience of the player.
#[derive(Clone, Copy, Debug, PartialEq, Eq, Structural)]
pub struct PlayerXP {
    /// Experience gathered toward the next level.
    pub current: u32,
    pub level: u32,
    /// Experience that the next level takes.
    pub required: u32,
    /// Experience that one orb gives.
    pub orb_value: u32,
}

impl Default for PlayerXP {
    fn default() -> (xp: PlayerXP)
        ensures
            xp == (PlayerXP { current: 0, level: 1, required: 10, orb_value: 1 }),
    {
        PlayerXP { current: 0, level: 1, required: 10, orb_value: 1 }
    }
}

/// Experience that the level after one of `required` takes: one and a half
/// times as much, rounded up, and no more than `u32::MAX`.
pub open spec fn next_required(required: u32) -> u32 {
    if (3 * required + 1) / 2 > u32::MAX {
        u32::MAX
    } else {
        ((3 * required + 1) / 2) as u32
    }
}

impl PlayerXP {
    /// Whether the next orb brings a new level.
    pub open spec fn levels_up(self) -> bool {
        capped_sum(self.current, self.orb_value) >= self.required
    }

    /// The experience after one more orb.
    ///
    /// The value of the orb is added. If that reaches what the next level
    /// takes, that much is taken off again, the level goes up by one and
    /// the level after takes one and a half times as much. One orb brings
    /// at most one level, whatever is left over. Sums stop at `u32::MAX`.
    pub open spec fn collected(self) -> PlayerXP {
        let gained = capped_sum(self.current, self.orb_value);
        if gained >= self.required {
            PlayerXP {
                current: (gained - self.required) as u32,
                level: capped_sum(self.level, 1),
                required: next_required(self.required),
                orb_value: self.orb_value,
            }
        } else {
            PlayerXP { current: gained, ..self }
        }
    }

    /// The experience after `orbs` more orbs.
    pub open spec fn collected_many(self, orbs: nat) -> PlayerXP
        decreases orbs,
    {
        if orbs == 0 {
            self
        } else {
            self.collected_many((orbs - 1) as nat).collected()
        }
    }

    /// How many of the next `orbs` orbs bring a new level.
    pub open spec fn level_ups_in(self, orbs: nat) -> nat
        decreases orbs,
    {
        if orbs == 0 {
            0
        } else {
            let before = self.level_ups_in((orbs - 1) as nat);
            if self.collected_many((orbs - 1) as nat).levels_up() {
                before + 1
            } else {
                before
            }
        }
    }

    /// Takes in one orb; says whether it has brought a new level.
    pub fn collect_orb(&mut self) -> (leveled: bool)
        ensures
            *final(self) == old(self).collected(),
            leveled == old(self).levels_up(),
    {
        let gained = self.current.saturating_add(self.orb_value);
        if gained >= self.required {
            self.current = gained - self.required;
            self.level = self.level.saturating_add(1);
            let grown: u64 = (3 * (self.required as u64) + 1) / 2;
            self.required = if grown > u32::MAX as u64 {
                u32::MAX
            } else {
                grown as u32
            };
            true
        } else {
            self.current = gained;
            false
        }
    }
}

/// Experience that was below what the next level takes stays below it
/// after an orb, as long as one orb is worth no more than the level after
/// takes.
pub proof fn lemma_collect_stays_below(xp: PlayerXP)
    requires
        xp.current < xp.required,
        xp.orb_value <= next_required(xp.required),
    ensures
        xp.collected().current < xp.collected().required,
{
}

/// Notice that the player has reached a new level.
#[derive(Clone, Copy, Debug, PartialEq, Eq, Structural)]
pub struct LevelUpEvent;

/// Whether the upgrade menu is on offer.
#[derive(Clone, Copy, Debug, PartialEq, Eq, Structural)]
pub struct IsUpgradeMenuOpen(pub bool);

impl Default for IsUpgradeMenuOpen {
    fn default() -> (open: IsUpgradeMenuOpen)
        ensures
            open == IsUpgradeMenuOpen(false),
    {
        IsUpgradeMenuOpen(false)
    }
}

} // verus!
