use survivors::config::CONTACT_DAMAGE;
use survivors::config::SPAWN_RING_MAX;
use survivors::config::SPAWN_RING_MIN;
use survivors::enemy::difficulty_scaling;
use survivors::enemy::enemy_movement;
use survivors::enemy::enemy_player_collision;
use survivors::enemy::enemy_spawner;
use survivors::enemy::spawn_order;
use survivors::enemy::spawn_ordered;
use survivors::enemy::Enemy;
use survivors::enemy::EnemySpawnTimer;
use survivors::enemy::EnemyType;
use survivors::enemy::SpawnOrder;
use survivors::enemy::FULL_TURN;
use survivors::geometry::Turn;
use survivors::geometry::Vec2;
use survivors::health::DamageEvent;
use survivors::health::Health;
use survivors::timer::Timer;
use survivors::timer::TimerMode;
use survivors::world::World;

fn at(x: i32, y: i32) -> Vec2 {
    Vec2 { x, y }
}

#[test]
fn definition_holds_the_table_of_kinds() {
    let skeleton = EnemyType::Skeleton.definition();
    assert_eq!(skeleton.name, "Skeleton");
    assert_eq!(skeleton.texture_path, "Skeleton.png");
    assert_eq!(skeleton.speed, 50);
    let orc = EnemyType::Orc.definition();
    assert_eq!(orc.name, "Orc");
    assert_eq!(orc.texture_path, "Orc.png");
    assert_eq!(orc.speed, 100);
    let werewolf = EnemyType::Werewolf.definition();
    assert_eq!(werewolf.name, "Werewolf");
    assert_eq!(werewolf.texture_path, "Werewolf.png");
    assert_eq!(werewolf.speed, 150);
    for def in [skeleton, orc, werewolf] {
        assert_eq!(def.max_health, 100);
        assert_eq!(def.frame_size, 100);
        assert_eq!(def.columns, 8);
        assert_eq!(def.rows, 7);
        assert_eq!(def.scale_percent, 150);
    }
}

#[test]
fn spawn_timer_starts_at_a_quarter_second() {
    let timer = EnemySpawnTimer::default();
    assert_eq!(
        timer.0,
        Timer { elapsed: 0, duration: 250_000, mode: TimerMode::Repeating, finished: false }
    );
}

#[test]
fn spawn_interval_starts_at_one_and_a_quarter_seconds() {
    let mut timer = EnemySpawnTimer::default();
    difficulty_scaling(&mut timer, 0);
    assert_eq!(timer.0.duration, 1_250_000);
}

#[test]
fn spawn_interval_follows_the_curve() {
    let mut timer = EnemySpawnTimer::default();
    difficulty_scaling(&mut timer, 100_000_000);
    assert_eq!(timer.0.duration, 750_000);
    difficulty_scaling(&mut timer, 900_000_000);
    assert_eq!(timer.0.duration, 350_000);
    difficulty_scaling(&mut timer, 1_000_000);
    assert_eq!(timer.0.duration, 1_240_099);
    difficulty_scaling(&mut timer, u64::MAX);
    assert_eq!(timer.0.duration, 250_000);
}

#[test]
fn spawn_interval_never_grows() {
    let mut timer = EnemySpawnTimer::default();
    let mut last = u64::MAX;
    let mut elapsed: u64 = 0;
    while elapsed < 3_600_000_000 {
        difficulty_scaling(&mut timer, elapsed);
        assert!(timer.0.duration <= last);
        assert!(timer.0.duration > 250_000);
        last = timer.0.duration;
        elapsed += 7_000_000;
    }
    assert!(last < 1_250_000);
}

#[test]
fn difficulty_scaling_keeps_the_time_counted() {
    let mut timer = EnemySpawnTimer::default();
    timer.0.tick(100_000);
    difficulty_scaling(&mut timer, 0);
    assert_eq!(
        timer.0,
        Timer { elapsed: 100_000, duration: 1_250_000, mode: TimerMode::Repeating, finished: false }
    );
}

#[test]
fn spawner_waits_for_its_timer() {
    let mut timer = EnemySpawnTimer::default();
    assert_eq!(enemy_spawner(&mut timer, 100_000), None);
    assert_eq!(enemy_spawner(&mut timer, 149_999), None);
    assert!(enemy_spawner(&mut timer, 1).is_some());
    assert_eq!(enemy_spawner(&mut timer, 249_999), None);
    assert!(enemy_spawner(&mut timer, 1).is_some());
}

#[test]
fn spawner_orders_one_enemy_for_a_long_tick() {
    let mut timer = EnemySpawnTimer::default();
    assert!(enemy_spawner(&mut timer, 1_000_000).is_some());
    assert_eq!(timer.0.elapsed, 0);
    assert_eq!(enemy_spawner(&mut timer, 0), None);
}

#[test]
fn spawner_orders_inside_the_ring() {
    let mut timer = EnemySpawnTimer::default();
    for _ in 0..500 {
        let order = enemy_spawner(&mut timer, 250_000).unwrap();
        assert!(order.radius >= SPAWN_RING_MIN);
        assert!(order.radius < SPAWN_RING_MAX);
        assert!(order.angle < FULL_TURN);
    }
}

#[test]
fn spawner_orders_vary() {
    let mut timer = EnemySpawnTimer::default();
    let first = enemy_spawner(&mut timer, 250_000).unwrap();
    let mut other_angle = false;
    let mut other_radius = false;
    let mut kinds = [false, false, false];
    for _ in 0..500 {
        let order = enemy_spawner(&mut timer, 250_000).unwrap();
        other_angle = other_angle || order.angle != first.angle;
        other_radius = other_radius || order.radius != first.radius;
        match order.enemy_type {
            EnemyType::Skeleton => kinds[0] = true,
            EnemyType::Orc => kinds[1] = true,
            EnemyType::Werewolf => kinds[2] = true,
        }
    }
    assert!(other_angle);
    assert!(other_radius);
    assert_eq!(kinds, [true, true, true]);
}

#[test]
fn spawn_order_reads_the_draws() {
    assert_eq!(
        spawn_order(0, 0, 0),
        SpawnOrder { enemy_type: EnemyType::Skeleton, angle: 0, radius: 300_000 }
    );
    assert_eq!(
        spawn_order(1, 90_000, 50_000),
        SpawnOrder { enemy_type: EnemyType::Orc, angle: 90_000, radius: 350_000 }
    );
    assert_eq!(
        spawn_order(2, 359_999, 99_999),
        SpawnOrder { enemy_type: EnemyType::Werewolf, angle: 359_999, radius: 399_999 }
    );
}

#[test]
fn spawn_order_keeps_wild_draws_in_range() {
    assert_eq!(
        spawn_order(3, 360_000, 100_000),
        SpawnOrder { enemy_type: EnemyType::Werewolf, angle: 0, radius: 300_000 }
    );
    assert_eq!(
        spawn_order(u32::MAX, u32::MAX, u32::MAX),
        SpawnOrder { enemy_type: EnemyType::Werewolf, angle: 167_295, radius: 367_295 }
    );
}

#[test]
fn spawn_enemy_gives_speed_and_health_of_the_kind() {
    let mut world = World::new();
    let skeleton = world.spawn_enemy(EnemyType::Skeleton, at(1, 2));
    let werewolf = world.spawn_enemy(EnemyType::Werewolf, at(3, 4));
    assert_eq!(skeleton.id, 0);
    assert_eq!(werewolf.id, 1);
    assert_eq!(world.next_id, 2);
    assert_eq!(
        world.enemies,
        vec![
            Enemy {
                entity: skeleton,
                position: at(1, 2),
                speed: 50,
                enemy_type: EnemyType::Skeleton,
                health: Health { current: 100, max: 100 },
            },
            Enemy {
                entity: werewolf,
                position: at(3, 4),
                speed: 150,
                enemy_type: EnemyType::Werewolf,
                health: Health { current: 100, max: 100 },
            },
        ]
    );
}

#[test]
fn enemies_go_toward_the_player() {
    let mut world = World::new();
    world.spawn_player(at(0, 0), 100);
    world.spawn_enemy(EnemyType::Skeleton, at(300_000, 400_000));
    world.spawn_enemy(EnemyType::Orc, at(-300_000, 0));
    world.spawn_enemy(EnemyType::Werewolf, at(0, -150_000));
    enemy_movement(&mut world, 1_000_000);
    assert_eq!(world.enemies[0].position, at(270_000, 360_000));
    assert_eq!(world.enemies[1].position, at(-200_000, 0));
    assert_eq!(world.enemies[2].position, at(0, 0));
    assert_eq!(world.player.unwrap().position, at(0, 0));
}

#[test]
fn enemy_on_the_player_stands_still() {
    let mut world = World::new();
    world.spawn_player(at(5_000, 5_000), 100);
    world.spawn_enemy(EnemyType::Werewolf, at(5_000, 5_000));
    enemy_movement(&mut world, 1_000_000);
    assert_eq!(world.enemies[0].position, at(5_000, 5_000));
}

#[test]
fn enemy_goes_past_a_near_player() {
    let mut world = World::new();
    world.spawn_player(at(0, 0), 100);
    world.spawn_enemy(EnemyType::Orc, at(10_000, 0));
    enemy_movement(&mut world, 1_000_000);
    assert_eq!(world.enemies[0].position, at(-90_000, 0));
}

#[test]
fn enemies_wait_without_a_player() {
    let mut world = World::new();
    world.spawn_enemy(EnemyType::Orc, at(10_000, 0));
    enemy_movement(&mut world, 1_000_000);
    assert_eq!(world.enemies[0].position, at(10_000, 0));
}

#[test]
fn enemy_keeps_its_own_speed() {
    let mut world = World::new();
    world.spawn_player(at(0, 0), 100);
    world.spawn_enemy(EnemyType::Skeleton, at(1_000_000, 0));
    world.enemies[0].speed = 400;
    enemy_movement(&mut world, 500_000);
    assert_eq!(world.enemies[0].position, at(800_000, 0));
}

#[test]
fn enemies_in_touch_hurt_the_player_once_a_tick() {
    let mut world = World::new();
    let player = world.spawn_player(at(0, 0), 100);
    world.spawn_enemy(EnemyType::Skeleton, at(5_000, 0));
    world.spawn_enemy(EnemyType::Orc, at(0, 5_000));
    world.spawn_enemy(EnemyType::Werewolf, at(20_000, 0));
    let mut events = vec![DamageEvent { entity: player, amount: 1 }];
    enemy_player_collision(&world, &mut events);
    assert_eq!(
        events,
        vec![
            DamageEvent { entity: player, amount: 1 },
            DamageEvent { entity: player, amount: CONTACT_DAMAGE },
        ]
    );
    assert_eq!(CONTACT_DAMAGE, 10);
}

#[test]
fn touch_is_closer_than_the_hit_radius() {
    let mut world = World::new();
    let player = world.spawn_player(at(0, 0), 100);
    world.spawn_enemy(EnemyType::Orc, at(20_000, 0));
    world.spawn_enemy(EnemyType::Orc, at(-12_000, 16_000));
    let mut events = Vec::new();
    enemy_player_collision(&world, &mut events);
    assert!(events.is_empty());
    world.spawn_enemy(EnemyType::Skeleton, at(19_999, 0));
    enemy_player_collision(&world, &mut events);
    assert_eq!(events, vec![DamageEvent { entity: player, amount: 10 }]);
}

#[test]
fn touch_hurts_in_every_tick() {
    let mut world = World::new();
    let player = world.spawn_player(at(0, 0), 100);
    world.spawn_enemy(EnemyType::Skeleton, at(1_000, 1_000));
    let mut events = Vec::new();
    enemy_player_collision(&world, &mut events);
    enemy_player_collision(&world, &mut events);
    enemy_player_collision(&world, &mut events);
    assert_eq!(events, vec![DamageEvent { entity: player, amount: 10 }; 3]);
}

#[test]
fn nobody_is_hurt_without_a_player() {
    let mut world = World::new();
    world.spawn_enemy(EnemyType::Skeleton, at(0, 0));
    let mut events = Vec::new();
    enemy_player_collision(&world, &mut events);
    assert!(events.is_empty());
}

#[test]
fn ordered_enemy_appears_on_the_ring() {
    let mut world = World::new();
    world.spawn_player(at(50_000, 50_000), 100);
    let order = SpawnOrder { enemy_type: EnemyType::Orc, angle: 90_000, radius: 320_000 };
    let entity = spawn_ordered(&mut world, &order, &Turn::new(0, 1_000_000).unwrap()).unwrap();
    assert_eq!(
        world.enemies,
        vec![Enemy {
            entity,
            position: at(50_000, 370_000),
            speed: 100,
            enemy_type: EnemyType::Orc,
            health: Health { current: 100, max: 100 },
        }]
    );
    assert_eq!(entity.id, 1);
}

#[test]
fn no_enemy_appears_without_a_player() {
    let mut world = World::new();
    let order = SpawnOrder { enemy_type: EnemyType::Orc, angle: 0, radius: 320_000 };
    assert_eq!(spawn_ordered(&mut world, &order, &Turn::new(1_000_000, 0).unwrap()), None);
    assert!(world.enemies.is_empty());
    assert_eq!(world.next_id, 0);
}
