use survivors::geometry::Vec2;
use survivors::health::Health;
use survivors::player::player_movement;
use survivors::player::MoveInput;
use survivors::player::Player;
use survivors::player::PlayerStats;
use survivors::enemy::EnemyType;
use survivors::projectile::ProjectileKind;
use survivors::world::is_all_below;
use survivors::world::is_ascending;
use survivors::world::is_disjoint;
use survivors::world::Entity;
use survivors::world::World;
use survivors::xp::spawn_xp;

fn at(x: i32, y: i32) -> Vec2 {
    Vec2 { x, y }
}

fn keys(up: bool, down: bool, left: bool, right: bool) -> MoveInput {
    MoveInput { up, down, left, right }
}

fn walk(input: MoveInput, delta: u64) -> Vec2 {
    let mut world = World::new();
    world.spawn_player(at(0, 0), 100);
    player_movement(&mut world, &input, &PlayerStats::default(), delta);
    world.player.unwrap().position
}

#[test]
fn new_world_is_empty() {
    let world = World::new();
    assert_eq!(world.next_id, 0);
    assert!(world.player.is_none());
    assert!(world.enemies.is_empty());
    assert!(world.projectiles.is_empty());
    assert!(world.orbs.is_empty());
}

#[test]
fn player_starts_with_full_health() {
    let mut world = World::new();
    let entity = world.spawn_player(at(3, 4), 120);
    assert_eq!(entity, Entity { id: 0 });
    assert_eq!(
        world.player,
        Some(Player { entity, position: at(3, 4), health: Health { current: 120, max: 120 } })
    );
    assert_eq!(world.next_id, 1);
}

#[test]
fn player_walks_at_two_hundred_units_a_second() {
    assert_eq!(PlayerStats::default(), PlayerStats { move_speed: 200 });
    assert_eq!(walk(keys(true, false, false, false), 1_000_000), at(0, 200_000));
    assert_eq!(walk(keys(false, true, false, false), 1_000_000), at(0, -200_000));
    assert_eq!(walk(keys(false, false, true, false), 500_000), at(-100_000, 0));
    assert_eq!(walk(keys(false, false, false, true), 16_667), at(3_333, 0));
}

#[test]
fn player_is_no_faster_on_a_diagonal() {
    assert_eq!(walk(keys(true, false, false, true), 1_000_000), at(141_421, 141_421));
    assert_eq!(walk(keys(false, true, true, false), 1_000_000), at(-141_421, -141_421));
}

#[test]
fn opposite_keys_cancel() {
    assert_eq!(keys(true, true, false, false).heading(), at(0, 0));
    assert_eq!(keys(true, true, true, false).heading(), at(-1, 0));
    assert_eq!(keys(true, true, true, true).heading(), at(0, 0));
    assert_eq!(walk(keys(true, true, false, false), 1_000_000), at(0, 0));
    assert_eq!(walk(keys(false, false, false, false), 1_000_000), at(0, 0));
    assert_eq!(walk(keys(true, true, false, true), 1_000_000), at(200_000, 0));
}

#[test]
fn player_walks_at_the_speed_of_its_stats() {
    let mut world = World::new();
    world.spawn_player(at(1_000, 1_000), 100);
    let stats = PlayerStats { move_speed: 250 };
    player_movement(&mut world, &keys(false, false, false, true), &stats, 100_000);
    assert_eq!(world.player.unwrap().position, at(26_000, 1_000));
    assert_eq!(world.player.unwrap().health, Health { current: 100, max: 100 });
}

#[test]
fn nobody_walks_in_a_world_without_a_player() {
    let mut world = World::new();
    player_movement(&mut world, &keys(true, false, false, false), &PlayerStats::default(), 1_000);
    assert!(world.player.is_none());
}

#[test]
fn world_built_by_its_own_means_is_in_order() {
    let mut world = World::new();
    assert!(world.is_wf());
    world.spawn_enemy(EnemyType::Orc, at(1, 1));
    world.spawn_player(at(0, 0), 100);
    world.spawn_projectile(at(0, 0), at(1, 0), ProjectileKind::Normal, 10);
    spawn_xp(&mut world, at(3, 3));
    world.spawn_enemy(EnemyType::Skeleton, at(2, 2));
    world.spawn_player(at(5, 5), 100);
    assert!(world.is_wf());
    assert_eq!(world.player_id_list(), vec![5]);
    assert_eq!(world.enemy_id_list(), vec![0, 4]);
    assert_eq!(world.projectile_id_list(), vec![2]);
    assert_eq!(world.orb_id_list(), vec![3]);
    assert_eq!(world.next_id, 6);
}

#[test]
fn world_with_a_shared_identity_is_out_of_order() {
    let mut world = World::new();
    world.spawn_enemy(EnemyType::Orc, at(1, 1));
    world.spawn_enemy(EnemyType::Orc, at(2, 2));
    spawn_xp(&mut world, at(3, 3));
    assert!(world.is_wf());
    world.enemies[1].entity.id = 0;
    assert!(!world.is_wf());
    world.enemies[1].entity.id = 2;
    assert!(!world.is_wf());
    world.enemies[1].entity.id = 1;
    world.enemies.swap(0, 1);
    assert!(!world.is_wf());
    world.enemies.swap(0, 1);
    world.next_id = 2;
    assert!(!world.is_wf());
    world.next_id = 3;
    assert!(world.is_wf());
    world.player = Some(Player {
        entity: Entity { id: 2 },
        position: at(0, 0),
        health: Health { current: 1, max: 1 },
    });
    assert!(!world.is_wf());
}

#[test]
fn lists_of_identities_are_checked() {
    assert!(is_ascending(&vec![]));
    assert!(is_ascending(&vec![7]));
    assert!(is_ascending(&vec![1, 2, 9]));
    assert!(!is_ascending(&vec![1, 1]));
    assert!(!is_ascending(&vec![1, 3, 2]));
    assert!(is_all_below(&vec![1, 2, 9], 10));
    assert!(!is_all_below(&vec![1, 2, 9], 9));
    assert!(is_all_below(&vec![], 0));
    assert!(is_disjoint(&vec![1, 3], &vec![2, 4]));
    assert!(!is_disjoint(&vec![1, 3], &vec![4, 3]));
    assert!(is_disjoint(&vec![], &vec![4, 3]));
}
