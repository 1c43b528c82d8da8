//! The upgrades that a new level offers, what each is called and what each
//! does.

use vstd::prelude::*;
use vstd::string::StringExecFns;
use crate::level::PlayerXP;
use crate::projectile::ProjectileKind;
use crate::weapon::WeaponStats;

verus! {

/// One upgrade.
#[derive(Clone, Copy, Debug, PartialEq, Eq, Structural)]
pub enum UpgradeEffect {
    /// More projectiles in a volley.
    IncreaseMultishot(u32),
    /// A wider fan, in degrees.
    IncreaseSpread(u32),
    /// Faster projectiles, in world units per second.
    IncreaseProjectileSpeed(u32),
    /// A faster player. It is on offer, and choosing it changes nothing.
    IncreaseMoveSpeed(u32),
    /// More experience from each orb.
    IncreaseXPGain(u32),
    /// Another kind of projectile.
    ChangeShotType(ProjectileKind),
}

/// A button of the upgrade menu and the upgrade that it stands for.
#[derive(Clone, Copy, Debug, PartialEq, Eq, Structural)]
pub struct UpgradeButton(pub UpgradeEffect);

/// An upgrade menu on offer.
#[derive(Debug)]
pub struct UpgradeMenuRoot {
    pub buttons: Vec<UpgradeButton>,
}

/// The upgrades that can be on offer, in their fixed order.
pub open spec fn catalog() -> Seq<UpgradeEffect> {
    seq![
        UpgradeEffect::IncreaseMultishot(1),
        UpgradeEffect::IncreaseSpread(10),
        UpgradeEffect::IncreaseProjectileSpeed(100),
        UpgradeEffect::IncreaseMoveSpeed(50),
        UpgradeEffect::IncreaseXPGain(1),
        UpgradeEffect::ChangeShotType(ProjectileKind::Fireball),
        UpgradeEffect::ChangeShotType(ProjectileKind::Ice),
        UpgradeEffect::ChangeShotType(ProjectileKind::Piercing),
    ]
}

/// Builds [`catalog`].
pub fn upgrade_catalog() -> (all: Vec<UpgradeEffect>)
    ensures
        all@ == catalog(),
{
    let mut all: Vec<UpgradeEffect> = Vec::new();
    all.push(UpgradeEffect::IncreaseMultishot(1));
    all.push(UpgradeEffect::IncreaseSpread(10));
    all.push(UpgradeEffect::IncreaseProjectileSpeed(100));
    all.push(UpgradeEffect::IncreaseMoveSpeed(50));
    all.push(UpgradeEffect::IncreaseXPGain(1));
    all.push(UpgradeEffect::ChangeShotType(ProjectileKind::Fireball));
    all.push(UpgradeEffect::ChangeShotType(ProjectileKind::Ice));
    all.push(UpgradeEffect::ChangeShotType(ProjectileKind::Piercing));
    assert(all@ =~= catalog());
    all
}

/// No upgrade is in the catalog twice.
pub proof fn lemma_catalog_distinct()
    ensures
        catalog().len() == 8,
        catalog().no_duplicates(),
{
}

/// `a + b`, limited to `u32::MAX`.
pub open spec fn capped_sum(a: u32, b: u32) -> u32 {
    if a + b > u32::MAX {
        u32::MAX
    } else {
        (a + b) as u32
    }
}

/// The decimal digit `d` as a character.
pub open spec fn digit_char(d: int) -> char {
    if d == 0 {
        '0'
    } else if d == 1 {
        '1'
    } else if d == 2 {
        '2'
    } else if d == 3 {
        '3'
    } else if d == 4 {
        '4'
    } else if d == 5 {
        '5'
    } else if d == 6 {
        '6'
    } else if d == 7 {
        '7'
    } else if d == 8 {
        '8'
    } else {
        '9'
    }
}

/// `n` in decimal digits, without leading zeros.
pub open spec fn decimal(n: nat) -> Seq<char>
    decreases n,
{
    if n < 10 {
        seq![digit_char(n as int)]
    } else {
        decimal(n / 10).push(digit_char((n % 10) as int))
    }
}

fn digit_str(d: u32) -> (s: &'static str)
    requires
        d < 10,
    ensures
        s@ == seq![digit_char(d as int)],
{
    proof {
        reveal_strlit("0");
        reveal_strlit("1");
        reveal_strlit("2");
        reveal_strlit("3");
        reveal_strlit("4");
        reveal_strlit("5");
        reveal_strlit("6");
        reveal_strlit("7");
        reveal_strlit("8");
        reveal_strlit("9");
    }
    let s = if d == 0 {
        "0"
    } else if d == 1 {
        "1"
    } else if d == 2 {
        "2"
    } else if d == 3 {
        "3"
    } else if d == 4 {
        "4"
    } else if d == 5 {
        "5"
    } else if d == 6 {
        "6"
    } else if d == 7 {
        "7"
    } else if d == 8 {
        "8"
    } else {
        "9"
    };
    assert(s@ =~= seq![digit_char(d as int)]);
    s
}

/// Writes `n` in decimal digits.
pub fn decimal_string(n: u32) -> (s: String)
    ensures
        s@ == decimal(n as nat),
    decreases n,
{
    if n < 10 {
        String::from_str(digit_str(n))
    } else {
        let mut s = decimal_string(n / 10);
        s.append(digit_str(n % 10));
        assert(s@ =~= decimal(n as nat));
        s
    }
}

impl UpgradeEffect {
    /// The name under which the upgrade is on offer.
    pub open spec fn spec_label(self) -> Seq<char> {
        match self {
            UpgradeEffect::IncreaseMultishot(n) => "+"@ + decimal(n as nat) + " Multishot"@,
            UpgradeEffect::IncreaseSpread(s) => "+"@ + decimal(s as nat) + "\u{b0} Spread"@,
            UpgradeEffect::IncreaseProjectileSpeed(s) => "+"@ + decimal(s as nat)
                + " Shot Speed"@,
            UpgradeEffect::IncreaseMoveSpeed(s) => "+"@ + decimal(s as nat) + " Move Speed"@,
            UpgradeEffect::IncreaseXPGain(n) => "+"@ + decimal(n as nat) + " XP per Orb"@,
            UpgradeEffect::ChangeShotType(kind) => match kind {
                ProjectileKind::Fireball => "Fireball Shot"@,
                ProjectileKind::Ice => "Ice Shot"@,
                ProjectileKind::Piercing => "Piercing Shot"@,
                ProjectileKind::Normal => "Normal Shot"@,
            },
        }
    }

    /// Writes [`UpgradeEffect::spec_label`].
    pub fn label(&self) -> (text: String)
        ensures
            text@ == self.spec_label(),
    {
        match self {
            UpgradeEffect::IncreaseMultishot(n) => amount_label(*n, " Multishot"),
            UpgradeEffect::IncreaseSpread(s) => amount_label(*s, "\u{b0} Spread"),
            UpgradeEffect::IncreaseProjectileSpeed(s) => amount_label(*s, " Shot Speed"),
            UpgradeEffect::IncreaseMoveSpeed(s) => amount_label(*s, " Move Speed"),
            UpgradeEffect::IncreaseXPGain(n) => amount_label(*n, " XP per Orb"),
            UpgradeEffect::ChangeShotType(kind) => match kind {
                ProjectileKind::Fireball => String::from_str("Fireball Shot"),
                ProjectileKind::Ice => String::from_str("Ice Shot"),
                ProjectileKind::Piercing => String::from_str("Piercing Shot"),
                ProjectileKind::Normal => String::from_str("Normal Shot"),
            },
        }
    }

    /// The weapon after the upgrade.
    pub open spec fn upgraded_stats(self, stats: WeaponStats) -> WeaponStats {
        match self {
            UpgradeEffect::IncreaseMultishot(n) => WeaponStats {
                multishot: capped_sum(stats.multishot, n),
                ..stats
            },
            UpgradeEffect::IncreaseSpread(s) => WeaponStats {
                spread_deg: capped_sum(stats.spread_deg, s),
                ..stats
            },
            UpgradeEffect::IncreaseProjectileSpeed(s) => WeaponStats {
                projectile_speed: capped_sum(stats.projectile_speed, s),
                ..stats
            },
            UpgradeEffect::ChangeShotType(kind) => WeaponStats { current_shot_type: kind, ..stats },
            UpgradeEffect::IncreaseMoveSpeed(_) => stats,
            UpgradeEffect::IncreaseXPGain(_) => stats,
        }
    }

    /// The experience of the player after the upgrade.
    pub open spec fn upgraded_xp(self, xp: PlayerXP) -> PlayerXP {
        match self {
            UpgradeEffect::IncreaseXPGain(n) => PlayerXP {
                orb_value: capped_sum(xp.orb_value, n),
                ..xp
            },
            _ => xp,
        }
    }

    /// Applies the upgrade: an amount is added to its number and stops at
    /// `u32::MAX`, a kind of shot takes the place of the one before.
    pub fn apply(&self, stats: &mut WeaponStats, xp: &mut PlayerXP)
        ensures
            *final(stats) == self.upgraded_stats(*old(stats)),
            *final(xp) == self.upgraded_xp(*old(xp)),
    {
        match self {
            UpgradeEffect::IncreaseMultishot(n) => {
                stats.multishot = stats.multishot.saturating_add(*n);
            },
            UpgradeEffect::IncreaseSpread(s) => {
                stats.spread_deg = stats.spread_deg.saturating_add(*s);
            },
            UpgradeEffect::IncreaseProjectileSpeed(s) => {
                stats.projectile_speed = stats.projectile_speed.saturating_add(*s);
            },
            UpgradeEffect::ChangeShotType(kind) => {
                stats.current_shot_type = *kind;
            },
            UpgradeEffect::IncreaseMoveSpeed(_) => {},
            UpgradeEffect::IncreaseXPGain(n) => {
                xp.orb_value = xp.orb_value.saturating_add(*n);
            },
        }
    }
}

fn amount_label(amount: u32, what: &str) -> (text: String)
    ensures
        text@ == "+"@ + decimal(amount as nat) + what@,
{
    let mut text = String::from_str("+");
    let digits = decimal_string(amount);
    text.append(digits.as_str());
    text.append(what);
    text
}

} // verus!
