//! The upgrade menu: when it opens, what it offers and what a choice does.

use vstd::prelude::*;
use crate::level::IsUpgradeMenuOpen;
use crate::level::LevelUpEvent;
use crate::level::PlayerXP;
use crate::random::choose_upgrades;
use crate::random::is_draw;
use crate::upgrade::catalog;
use crate::upgrade::lemma_catalog_distinct;
use crate::upgrade::upgrade_catalog;
use crate::upgrade::UpgradeButton;
use crate::upgrade::UpgradeEffect;
use crate::upgrade::UpgradeMenuRoot;
use crate::weapon::WeaponStats;

verus! {

/// How many upgrades a menu offers.
pub const MENU_SIZE: usize = 3;

/// The buttons that stand for `picked`, in its order.
pub open spec fn buttons_of(picked: Seq<UpgradeEffect>) -> Seq<UpgradeButton> {
    picked.map_values(|effect: UpgradeEffect| UpgradeButton(effect))
}

/// A menu as it may be on offer: three buttons, each for an upgrade of the
/// catalog, no two for the same one.
pub open spec fn is_offer(buttons: Seq<UpgradeButton>) -> bool {
    &&& buttons.len() == MENU_SIZE
    &&& buttons.no_duplicates()
    &&& forall|k: int| 0 <= k < buttons.len() ==> catalog().contains((#[trigger] buttons[k]).0)
}

/// Whether a menu on offer holds `button`.
pub open spec fn is_offered(menus: Seq<UpgradeMenuRoot>, button: UpgradeButton) -> bool {
    exists|m: int| 0 <= m < menus.len() && (#[trigger] menus[m]).buttons@.contains(button)
}

/// Upgrades drawn from the catalog at different places differ, and their
/// buttons make a menu.
pub proof fn lemma_draw_is_offer(picked: Seq<UpgradeEffect>)
    requires
        is_draw(catalog(), MENU_SIZE as int, picked),
    ensures
        is_offer(buttons_of(picked)),
{
    let places = choose|places: Seq<int>|
        {
            &&& places.len() == picked.len()
            &&& places.no_duplicates()
            &&& forall|k: int|
                0 <= k < places.len() ==> 0 <= #[trigger] places[k] < catalog().len() && picked[k]
                    == catalog()[places[k]]
        };
    let buttons = buttons_of(picked);
    lemma_catalog_distinct();
    assert forall|i: int, j: int| 0 <= i < buttons.len() && 0 <= j < buttons.len() && i != j
        implies buttons[i] != buttons[j] by {
        assert(places[i] != places[j]);
        assert(picked[i] == catalog()[places[i]]);
        assert(picked[j] == catalog()[places[j]]);
    }
    assert forall|k: int| 0 <= k < buttons.len() implies catalog().contains(
        (#[trigger] buttons[k]).0,
    ) by {
        assert(picked[k] == catalog()[places[k]]);
    }
}

/// Makes the menu that offers `picked`, one button for each upgrade, in
/// the order in which they were drawn.
pub fn menu_of(picked: Vec<UpgradeEffect>) -> (menu: UpgradeMenuRoot)
    ensures
        menu.buttons@ == buttons_of(picked@),
{
    let mut buttons: Vec<UpgradeButton> = Vec::new();
    let mut k: usize = 0;
    while k < picked.len()
        invariant
            k <= picked.len(),
            buttons@ == buttons_of(picked@.take(k as int)),
        decreases picked.len() - k,
    {
        buttons.push(UpgradeButton(picked[k]));
        k = k + 1;
        assert(buttons@ =~= buttons_of(picked@.take(k as int)));
    }
    assert(picked@.take(k as int) =~= picked@);
    UpgradeMenuRoot { buttons }
}

/// Opens the upgrade menu if a level was reached and no menu is open.
///
/// The level-up events of the tick are used up either way: while a menu
/// is open they are dropped, and nothing else changes. Otherwise, if there
/// is one, the menu opens and offers three different upgrades of the
/// catalog, drawn by chance.
pub fn show_upgrade_menu(
    level_ups: &mut Vec<LevelUpEvent>,
    open: &mut IsUpgradeMenuOpen,
    menus: &mut Vec<UpgradeMenuRoot>,
)
    ensures
        final(level_ups)@.len() == 0,
        old(level_ups)@.len() == 0 || old(open).0 ==> *final(open) == *old(open) && final(menus)@
            == old(menus)@,
        old(level_ups)@.len() > 0 && !old(open).0 ==> final(open).0 && final(menus)@.len() == old(
            menus,
        )@.len() + 1 && final(menus)@.drop_last() == old(menus)@ && is_offer(
            final(menus)@.last().buttons@,
        ),
{
    if level_ups.len() == 0 || open.0 {
        level_ups.clear();
        return ;
    }
    level_ups.clear();
    open.0 = true;
    let all = upgrade_catalog();
    let picked = choose_upgrades(&all, MENU_SIZE);
    proof {
        lemma_draw_is_offer(picked@);
    }
    let menu = menu_of(picked);
    menus.push(menu);
    assert(menus@.drop_last() =~= old(menus)@);
}

/// Handles a press on `pressed`.
///
/// The press counts if a menu is open and offers that button. Then its
/// upgrade is applied, every menu is taken away and the menu is closed. A
/// press that does not count changes nothing.
pub fn handle_upgrade_selection(
    pressed: &UpgradeButton,
    menus: &mut Vec<UpgradeMenuRoot>,
    stats: &mut WeaponStats,
    xp: &mut PlayerXP,
    open: &mut IsUpgradeMenuOpen,
) -> (chosen: bool)
    ensures
        chosen == (old(open).0 && is_offered(old(menus)@, *pressed)),
        chosen ==> {
            &&& *final(stats) == pressed.0.upgraded_stats(*old(stats))
            &&& *final(xp) == pressed.0.upgraded_xp(*old(xp))
            &&& !final(open).0
            &&& final(menus)@.len() == 0
        },
        !chosen ==> {
            &&& *final(stats) == *old(stats)
            &&& *final(xp) == *old(xp)
            &&& *final(open) == *old(open)
            &&& final(menus)@ == old(menus)@
        },
{
    if !open.0 || !offers(menus, pressed) {
        return false;
    }
    pressed.0.apply(stats, xp);
    menus.clear();
    open.0 = false;
    true
}

/// Whether one of the menus holds `button`.
pub fn offers(menus: &Vec<UpgradeMenuRoot>, button: &UpgradeButton) -> (found: bool)
    ensures
        found == is_offered(menus@, *button),
{
    let mut m: usize = 0;
    while m < menus.len()
        invariant
            m <= menus.len(),
            forall|a: int| 0 <= a < m ==> !(#[trigger] menus@[a]).buttons@.contains(*button),
        decreases menus.len() - m,
    {
        let menu = &menus[m];
        let mut k: usize = 0;
        while k < menu.buttons.len()
            invariant
                k <= menu.buttons.len(),
                m < menus.len(),
                *menu == menus@[m as int],
                forall|b: int| 0 <= b < k ==> menu.buttons@[b] != *button,
            decreases menu.buttons.len() - k,
        {
            if menu.buttons[k] == *button {
                assert(menus@[m as int].buttons@.contains(*button));
                return true;
            }
            k = k + 1;
        }
        m = m + 1;
    }
    false
}

} // verus!
