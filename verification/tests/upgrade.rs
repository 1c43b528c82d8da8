use survivors::level::IsUpgradeMenuOpen;
use survivors::level::LevelUpEvent;
use survivors::level::PlayerXP;
use survivors::projectile::ProjectileKind;
use survivors::upgrade::decimal_string;
use survivors::upgrade::upgrade_catalog;
use survivors::upgrade::UpgradeButton;
use survivors::upgrade::UpgradeEffect;
use survivors::upgrade::UpgradeMenuRoot;
use survivors::upgrade_menu::handle_upgrade_selection;
use survivors::upgrade_menu::menu_of;
use survivors::upgrade_menu::offers;
use survivors::upgrade_menu::show_upgrade_menu;
use survivors::upgrade_menu::MENU_SIZE;
use survivors::weapon::WeaponStats;

fn effects(menu: &UpgradeMenuRoot) -> Vec<UpgradeEffect> {
    menu.buttons.iter().map(|button| button.0).collect()
}

fn open_menu() -> (Vec<UpgradeMenuRoot>, IsUpgradeMenuOpen) {
    let mut level_ups = vec![LevelUpEvent];
    let mut open = IsUpgradeMenuOpen(false);
    let mut menus = Vec::new();
    show_upgrade_menu(&mut level_ups, &mut open, &mut menus);
    (menus, open)
}

#[test]
fn catalog_holds_eight_upgrades() {
    assert_eq!(
        upgrade_catalog(),
        vec![
            UpgradeEffect::IncreaseMultishot(1),
            UpgradeEffect::IncreaseSpread(10),
            UpgradeEffect::IncreaseProjectileSpeed(100),
            UpgradeEffect::IncreaseMoveSpeed(50),
            UpgradeEffect::IncreaseXPGain(1),
            UpgradeEffect::ChangeShotType(ProjectileKind::Fireball),
            UpgradeEffect::ChangeShotType(ProjectileKind::Ice),
            UpgradeEffect::ChangeShotType(ProjectileKind::Piercing),
        ]
    );
}

#[test]
fn decimal_string_writes_numbers() {
    assert_eq!(decimal_string(0), "0");
    assert_eq!(decimal_string(7), "7");
    assert_eq!(decimal_string(10), "10");
    assert_eq!(decimal_string(1_234_567_890), "1234567890");
    assert_eq!(decimal_string(u32::MAX), "4294967295");
}

#[test]
fn labels_of_the_catalog() {
    let labels: Vec<String> = upgrade_catalog().iter().map(|effect| effect.label()).collect();
    assert_eq!(
        labels,
        vec![
            "+1 Multishot",
            "+10\u{b0} Spread",
            "+100 Shot Speed",
            "+50 Move Speed",
            "+1 XP per Orb",
            "Fireball Shot",
            "Ice Shot",
            "Piercing Shot",
        ]
    );
}

#[test]
fn labels_name_the_amount() {
    assert_eq!(UpgradeEffect::IncreaseMultishot(3).label(), "+3 Multishot");
    assert_eq!(UpgradeEffect::IncreaseSpread(0).label(), "+0\u{b0} Spread");
    assert_eq!(UpgradeEffect::IncreaseProjectileSpeed(2_500).label(), "+2500 Shot Speed");
    assert_eq!(UpgradeEffect::IncreaseMoveSpeed(u32::MAX).label(), "+4294967295 Move Speed");
    assert_eq!(UpgradeEffect::IncreaseXPGain(12).label(), "+12 XP per Orb");
    assert_eq!(UpgradeEffect::ChangeShotType(ProjectileKind::Normal).label(), "Normal Shot");
}

#[test]
fn upgrades_add_to_their_number() {
    let mut stats = WeaponStats::default();
    let mut xp = PlayerXP::default();
    UpgradeEffect::IncreaseMultishot(2).apply(&mut stats, &mut xp);
    assert_eq!(stats, WeaponStats { multishot: 3, ..WeaponStats::default() });
    UpgradeEffect::IncreaseSpread(10).apply(&mut stats, &mut xp);
    assert_eq!(stats, WeaponStats { multishot: 3, spread_deg: 20, ..WeaponStats::default() });
    UpgradeEffect::IncreaseProjectileSpeed(100).apply(&mut stats, &mut xp);
    assert_eq!(
        stats,
        WeaponStats {
            multishot: 3,
            spread_deg: 20,
            projectile_speed: 400,
            current_shot_type: ProjectileKind::Normal,
        }
    );
    assert_eq!(xp, PlayerXP::default());
    UpgradeEffect::IncreaseXPGain(4).apply(&mut stats, &mut xp);
    assert_eq!(xp, PlayerXP { orb_value: 5, ..PlayerXP::default() });
    assert_eq!(stats.projectile_speed, 400);
}

#[test]
fn shot_kind_is_replaced() {
    let mut stats = WeaponStats::default();
    let mut xp = PlayerXP::default();
    UpgradeEffect::ChangeShotType(ProjectileKind::Piercing).apply(&mut stats, &mut xp);
    assert_eq!(stats.current_shot_type, ProjectileKind::Piercing);
    UpgradeEffect::ChangeShotType(ProjectileKind::Ice).apply(&mut stats, &mut xp);
    assert_eq!(
        stats,
        WeaponStats { current_shot_type: ProjectileKind::Ice, ..WeaponStats::default() }
    );
    assert_eq!(xp, PlayerXP::default());
}

#[test]
fn move_speed_upgrade_changes_nothing() {
    let mut stats = WeaponStats::default();
    let mut xp = PlayerXP::default();
    UpgradeEffect::IncreaseMoveSpeed(50).apply(&mut stats, &mut xp);
    assert_eq!(stats, WeaponStats::default());
    assert_eq!(xp, PlayerXP::default());
}

#[test]
fn upgrades_stop_at_the_largest_number() {
    let mut stats = WeaponStats { multishot: u32::MAX - 1, ..WeaponStats::default() };
    let mut xp = PlayerXP { orb_value: u32::MAX, ..PlayerXP::default() };
    UpgradeEffect::IncreaseMultishot(5).apply(&mut stats, &mut xp);
    UpgradeEffect::IncreaseXPGain(1).apply(&mut stats, &mut xp);
    assert_eq!(stats.multishot, u32::MAX);
    assert_eq!(xp.orb_value, u32::MAX);
}

#[test]
fn menu_of_keeps_the_order_of_the_draw() {
    let picked = vec![
        UpgradeEffect::IncreaseXPGain(1),
        UpgradeEffect::ChangeShotType(ProjectileKind::Ice),
        UpgradeEffect::IncreaseMultishot(1),
    ];
    let menu = menu_of(picked.clone());
    assert_eq!(effects(&menu), picked);
    assert!(menu_of(Vec::new()).buttons.is_empty());
}

#[test]
fn level_up_opens_a_menu_of_three() {
    let mut level_ups = vec![LevelUpEvent, LevelUpEvent];
    let mut open = IsUpgradeMenuOpen(false);
    let mut menus = Vec::new();
    show_upgrade_menu(&mut level_ups, &mut open, &mut menus);
    assert!(level_ups.is_empty());
    assert_eq!(open, IsUpgradeMenuOpen(true));
    assert_eq!(menus.len(), 1);
    assert_eq!(menus[0].buttons.len(), 3);
    assert_eq!(MENU_SIZE, 3);
}

#[test]
fn menu_offers_different_upgrades_of_the_catalog() {
    let catalog = upgrade_catalog();
    for _ in 0..200 {
        let (menus, _) = open_menu();
        let offered = effects(&menus[0]);
        assert_eq!(offered.len(), 3);
        assert!(offered.iter().all(|effect| catalog.contains(effect)));
        assert_ne!(offered[0], offered[1]);
        assert_ne!(offered[0], offered[2]);
        assert_ne!(offered[1], offered[2]);
    }
}

#[test]
fn menus_vary() {
    let (first, _) = open_menu();
    let mut seen = vec![false; 8];
    let mut other = false;
    for _ in 0..300 {
        let (menus, _) = open_menu();
        other = other || effects(&menus[0]) != effects(&first[0]);
        for effect in effects(&menus[0]) {
            let place = upgrade_catalog().iter().position(|entry| *entry == effect).unwrap();
            seen[place] = true;
        }
    }
    assert!(other);
    assert_eq!(seen, vec![true; 8]);
}

#[test]
fn no_level_up_opens_no_menu() {
    let mut level_ups = Vec::new();
    let mut open = IsUpgradeMenuOpen(false);
    let mut menus = Vec::new();
    show_upgrade_menu(&mut level_ups, &mut open, &mut menus);
    assert_eq!(open, IsUpgradeMenuOpen(false));
    assert!(menus.is_empty());
}

#[test]
fn open_menu_drops_further_level_ups() {
    let (mut menus, mut open) = open_menu();
    let offered = effects(&menus[0]);
    for _ in 0..5 {
        let mut level_ups = vec![LevelUpEvent, LevelUpEvent];
        show_upgrade_menu(&mut level_ups, &mut open, &mut menus);
        assert!(level_ups.is_empty());
        assert_eq!(open, IsUpgradeMenuOpen(true));
        assert_eq!(menus.len(), 1);
        assert_eq!(effects(&menus[0]), offered);
    }
}

#[test]
fn choice_applies_the_upgrade_and_closes_the_menu() {
    let mut menus = vec![menu_of(vec![
        UpgradeEffect::IncreaseMultishot(1),
        UpgradeEffect::IncreaseXPGain(1),
        UpgradeEffect::ChangeShotType(ProjectileKind::Fireball),
    ])];
    let mut open = IsUpgradeMenuOpen(true);
    let mut stats = WeaponStats::default();
    let mut xp = PlayerXP::default();
    let pressed = UpgradeButton(UpgradeEffect::ChangeShotType(ProjectileKind::Fireball));
    assert!(handle_upgrade_selection(&pressed, &mut menus, &mut stats, &mut xp, &mut open));
    assert_eq!(
        stats,
        WeaponStats { current_shot_type: ProjectileKind::Fireball, ..WeaponStats::default() }
    );
    assert_eq!(xp, PlayerXP::default());
    assert_eq!(open, IsUpgradeMenuOpen(false));
    assert!(menus.is_empty());
}

#[test]
fn choice_of_experience_changes_the_orb_value() {
    let mut menus = vec![menu_of(vec![
        UpgradeEffect::IncreaseMultishot(1),
        UpgradeEffect::IncreaseXPGain(1),
        UpgradeEffect::IncreaseMoveSpeed(50),
    ])];
    let mut open = IsUpgradeMenuOpen(true);
    let mut stats = WeaponStats::default();
    let mut xp = PlayerXP { current: 4, level: 2, required: 15, orb_value: 1 };
    let pressed = UpgradeButton(UpgradeEffect::IncreaseXPGain(1));
    assert!(handle_upgrade_selection(&pressed, &mut menus, &mut stats, &mut xp, &mut open));
    assert_eq!(xp, PlayerXP { current: 4, level: 2, required: 15, orb_value: 2 });
    assert_eq!(stats, WeaponStats::default());
    assert!(menus.is_empty());
}

#[test]
fn press_on_a_button_that_is_not_there_changes_nothing() {
    let (mut menus, mut open) = open_menu();
    let offered = effects(&menus[0]);
    let missing = upgrade_catalog().into_iter().find(|effect| !offered.contains(effect)).unwrap();
    let mut stats = WeaponStats::default();
    let mut xp = PlayerXP::default();
    let pressed = UpgradeButton(missing);
    assert!(!offers(&menus, &pressed));
    assert!(!handle_upgrade_selection(&pressed, &mut menus, &mut stats, &mut xp, &mut open));
    assert_eq!(stats, WeaponStats::default());
    assert_eq!(xp, PlayerXP::default());
    assert_eq!(open, IsUpgradeMenuOpen(true));
    assert_eq!(effects(&menus[0]), offered);
}

#[test]
fn press_without_an_open_menu_changes_nothing() {
    let mut menus = vec![menu_of(vec![UpgradeEffect::IncreaseMultishot(1)])];
    let mut open = IsUpgradeMenuOpen(false);
    let mut stats = WeaponStats::default();
    let mut xp = PlayerXP::default();
    let pressed = UpgradeButton(UpgradeEffect::IncreaseMultishot(1));
    assert!(offers(&menus, &pressed));
    assert!(!handle_upgrade_selection(&pressed, &mut menus, &mut stats, &mut xp, &mut open));
    assert_eq!(stats, WeaponStats::default());
    assert_eq!(menus.len(), 1);
}

#[test]
fn menu_opens_again_after_a_choice() {
    let (mut menus, mut open) = open_menu();
    let pressed = menus[0].buttons[1];
    let mut stats = WeaponStats::default();
    let mut xp = PlayerXP::default();
    assert!(handle_upgrade_selection(&pressed, &mut menus, &mut stats, &mut xp, &mut open));
    assert!(menus.is_empty());
    assert!(!handle_upgrade_selection(&pressed, &mut menus, &mut stats, &mut xp, &mut open));
    let mut level_ups = vec![LevelUpEvent];
    show_upgrade_menu(&mut level_ups, &mut open, &mut menus);
    assert_eq!(open, IsUpgradeMenuOpen(true));
    assert_eq!(menus.len(), 1);
    assert_eq!(menus[0].buttons.len(), 3);
}
