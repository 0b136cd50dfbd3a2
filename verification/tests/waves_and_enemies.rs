use pizza_survivor::enemy::{
    despawn_enemy, enemy_damage_player, enemy_death_check, enemy_death_check_with, enemy_movement,
    spawn_enemy, spawn_enemy_with, spawn_one_enemy, SPAWN_CLEARANCE, SPAWN_REACH,
};
use pizza_survivor::fixed::Vec2;
use pizza_survivor::game::standard_waves;
use pizza_survivor::model::{Enemy, EnemyTemplate, Wave, WaveManager, World};
use pizza_survivor::player::spawn_player;
use pizza_survivor::random::Scatter;
use pizza_survivor::timer::{Stopwatch, Timer, TimerMode};
use pizza_survivor::wave::{compute_difficulty, grow, Batch, WAVE_WINDOW};
use turborand::rng::Rng;
use turborand::SeededCore;

fn manager_at(elapsed: u64) -> WaveManager {
    WaveManager { global_time: Stopwatch { elapsed }, waves: standard_waves() }
}

fn template() -> EnemyTemplate {
    EnemyTemplate { speed: 1_300, health: 5_000_000_000, asset: 0, damage_per_second: 10_000 }
}

fn enemy_at(id: u64, x: i32, y: i32) -> Enemy {
    Enemy {
        id,
        position: Vec2::new(x, y),
        flip_x: false,
        speed: 1_300,
        health: 5_000_000_000,
        asset: 0,
        damage_per_second: 10_000,
    }
}

fn world_with_player() -> World {
    let mut world = World::new(standard_waves());
    spawn_player(&mut world);
    world
}

#[test]
fn current_wave_is_elapsed_over_window() {
    assert_eq!(WAVE_WINDOW, 20_000_000);
    assert_eq!(manager_at(0).current_wave(), 0);
    assert_eq!(manager_at(19_999_999).current_wave(), 0);
    assert_eq!(manager_at(20_000_000).current_wave(), 1);
    assert_eq!(manager_at(139_999_999).current_wave(), 6);
    assert_eq!(manager_at(u64::MAX).current_wave(), u64::MAX / 20_000_000);
}

#[test]
fn wave_selection_cycles_through_the_waves() {
    assert_eq!(manager_at(0).wave_index(), Some(0));
    assert_eq!(manager_at(20_000_000).wave_index(), Some(1));
    assert_eq!(manager_at(40_000_000).wave_index(), Some(2));
    assert_eq!(manager_at(60_000_000).wave_index(), Some(0));
    assert_eq!(manager_at(139_999_999).wave_index(), Some(0));
    assert_eq!(manager_at(140_000_000).wave_index(), Some(1));
    let empty = WaveManager { global_time: Stopwatch { elapsed: 5 }, waves: Vec::new() };
    assert_eq!(empty.wave_index(), None);
}

#[test]
fn difficulty_grows_with_each_cycle() {
    assert_eq!(manager_at(59_999_999).difficulty(), 1_000_000_000);
    assert_eq!(manager_at(60_000_000).difficulty(), 1_300_000_000);
    assert_eq!(manager_at(120_000_000).difficulty(), 1_690_000_000);
    let empty = WaveManager { global_time: Stopwatch { elapsed: u64::MAX }, waves: Vec::new() };
    assert_eq!(empty.difficulty(), 1_000_000_000);
}

#[test]
fn difficulty_is_a_power_of_the_growth() {
    assert_eq!(compute_difficulty(0), 1_000_000_000);
    assert_eq!(compute_difficulty(1), 1_300_000_000);
    assert_eq!(compute_difficulty(2), 1_690_000_000);
    assert_eq!(compute_difficulty(3), 2_197_000_000);
    assert_eq!(compute_difficulty(9), 10_604_499_373);
    assert_eq!(compute_difficulty(10), 13_785_849_184);
}

#[test]
fn difficulty_stops_at_the_top_of_its_range() {
    assert_eq!(compute_difficulty(1_000), u64::MAX);
    assert_eq!(compute_difficulty(u64::MAX), u64::MAX);
}

#[test]
fn growth_scales_speed_and_health_only() {
    let grown = grow(template(), 1_300_000_000);
    assert_eq!(
        grown,
        EnemyTemplate { speed: 1_690, health: 6_500_000_000, asset: 0, damage_per_second: 10_000 }
    );
    let capped = grow(
        EnemyTemplate { speed: u32::MAX, health: u64::MAX, asset: 7, damage_per_second: 1 },
        u64::MAX,
    );
    assert_eq!(
        capped,
        EnemyTemplate { speed: u32::MAX, health: u64::MAX, asset: 7, damage_per_second: 1 }
    );
}

#[test]
fn manager_ticks_only_the_active_wave() {
    let mut manager = manager_at(0);
    manager.tick(500_000);
    assert_eq!(manager.global_time.elapsed, 500_000);
    assert_eq!(manager.waves[0].next_spawn.elapsed, 500_000);
    assert_eq!(manager.waves[1].next_spawn.elapsed, 0);
    assert_eq!(manager.waves[2].next_spawn.elapsed, 0);
    assert_eq!(manager.due(), None);
    manager.tick(500_000);
    assert_eq!(manager.waves[0].next_spawn.elapsed, 100_000);
    assert_eq!(manager.due(), Some(Batch { size: 3, enemy: template() }));
}

#[test]
fn manager_switches_to_the_wave_of_the_new_window() {
    let mut manager = manager_at(19_900_000);
    manager.tick(200_000);
    assert_eq!(manager.waves[0].next_spawn.elapsed, 0);
    assert_eq!(manager.waves[1].next_spawn.elapsed, 0);
    assert!(manager.waves[1].next_spawn.finished_this_tick);
    assert_eq!(
        manager.due(),
        Some(Batch {
            size: 1,
            enemy: EnemyTemplate {
                speed: 1_800,
                health: 1_000_000_000,
                asset: 1,
                damage_per_second: 3_000
            }
        })
    );
}

#[test]
fn batches_grow_with_the_difficulty() {
    let mut manager = manager_at(159_999_999);
    assert_eq!(manager.upcoming(10_000_001), manager_after(159_999_999, 10_000_001));
    manager.tick(10_000_001);
    assert_eq!(manager.wave_index(), Some(2));
    assert_eq!(manager.difficulty(), 1_690_000_000);
    assert_eq!(
        manager.due(),
        Some(Batch {
            size: 16,
            enemy: EnemyTemplate {
                speed: 507,
                health: 50_700_000_000,
                asset: 2,
                damage_per_second: 10_000
            }
        })
    );
}

fn manager_after(elapsed: u64, dt: u64) -> Option<Batch> {
    let mut manager = manager_at(elapsed);
    manager.tick(dt);
    manager.due()
}

#[test]
fn upcoming_batch_is_the_batch_after_the_tick() {
    for (elapsed, dt) in [(0u64, 900_000u64), (0, 899_999), (19_900_000, 200_000), (59_500_000, 900_000)] {
        assert_eq!(manager_at(elapsed).upcoming(dt), manager_after(elapsed, dt));
    }
    let empty = WaveManager { global_time: Stopwatch { elapsed: 0 }, waves: Vec::new() };
    assert_eq!(empty.upcoming(1_000_000), None);
}

#[test]
fn manager_without_waves_only_counts_time() {
    let mut empty = WaveManager { global_time: Stopwatch { elapsed: 0 }, waves: Vec::new() };
    empty.tick(1_000_000);
    assert_eq!(empty.global_time.elapsed, 1_000_000);
    assert_eq!(empty.due(), None);
}

#[test]
fn spawn_one_enemy_copies_the_template() {
    let mut world = World::new(Vec::new());
    let id = spawn_one_enemy(&mut world, template(), Vec::from([Vec2::new(4, 5)])[0]);
    assert_eq!(id, Some(0));
    assert_eq!(world.enemies, vec![enemy_at(0, 4, 5)]);
    assert_eq!(world.next_id, 1);
}

#[test]
fn batch_appears_on_the_ring_around_the_player() {
    let mut world = world_with_player();
    let scatters = vec![
        Scatter { direction: Vec2::new(1_000_000, 0), jitter: Vec2::new(0, 0) },
        Scatter { direction: Vec2::new(0, -1_000_000), jitter: Vec2::new(500_000, -250_000) },
        Scatter { direction: Vec2::new(0, 0), jitter: Vec2::new(0, 0) },
    ];
    spawn_enemy_with(&mut world, 900_000, &scatters);
    assert_eq!(world.wave_manager.global_time.elapsed, 900_000);
    assert_eq!(
        world.enemies,
        vec![
            enemy_at(2, 22_000_000, 0),
            enemy_at(3, 500_000, -22_250_000),
            enemy_at(4, 22_000_000, 0),
        ]
    );
    assert_eq!(world.next_id, 5);
}

#[test]
fn batch_follows_the_player() {
    let mut world = world_with_player();
    let mut player = world.player.unwrap();
    player.position = Vec2::new(-5_000_000, 3_000_000);
    world.player = Some(player);
    let scatters = vec![Scatter { direction: Vec2::new(600_000, 800_000), jitter: Vec2::new(-1_000_000, 1_000_000) }];
    spawn_enemy_with(&mut world, 900_000, &scatters);
    assert_eq!(world.enemies.len(), 3);
    assert_eq!(world.enemies[0].position, Vec2::new(-5_000_000 + 13_200_000 - 1_000_000, 3_000_000 + 17_600_000 + 1_000_000));
    assert_eq!(world.enemies[1].position, Vec2::new(17_000_000, 3_000_000));
}

#[test]
fn no_batch_before_the_spawn_timer_finishes() {
    let mut world = world_with_player();
    spawn_enemy_with(&mut world, 899_999, &Vec::new());
    assert!(world.enemies.is_empty());
    assert_eq!(world.wave_manager.waves[0].next_spawn.elapsed, 899_999);
    spawn_enemy_with(&mut world, 1, &Vec::new());
    assert_eq!(world.enemies.len(), 3);
}

#[test]
fn wave_manager_rests_without_a_player() {
    let mut world = World::new(standard_waves());
    spawn_enemy_with(&mut world, 900_000, &Vec::new());
    assert!(world.enemies.is_empty());
    assert_eq!(world.wave_manager.global_time.elapsed, 0);
    assert_eq!(world.wave_manager.waves[0].next_spawn.elapsed, 0);
}

#[test]
fn spawn_stops_when_identifiers_run_out() {
    let mut world = world_with_player();
    world.next_id = u64::MAX - 2;
    spawn_enemy_with(&mut world, 900_000, &Vec::new());
    assert_eq!(world.enemies.len(), 2);
    assert_eq!(world.enemies[1].id, u64::MAX - 1);
    assert_eq!(world.next_id, u64::MAX);
    assert_eq!(spawn_one_enemy(&mut world, template(), Vec2::new(0, 0)), None);
    assert_eq!(world.enemies.len(), 2);
}

#[test]
fn random_batch_lands_near_the_ring() {
    let rng = Rng::with_seed(7);
    let mut world = world_with_player();
    spawn_enemy(&mut world, 900_000, &rng);
    assert_eq!(world.enemies.len(), 3);
    let mut places = Vec::new();
    for enemy in &world.enemies {
        let d = enemy.position.compute_distance_squared(Vec2::new(0, 0));
        assert!(d >= (SPAWN_CLEARANCE as u128) * (SPAWN_CLEARANCE as u128));
        assert!(d <= (SPAWN_REACH as u128) * (SPAWN_REACH as u128));
        assert_eq!(enemy.health, 5_000_000_000);
        places.push(enemy.position);
    }
    assert!(places[0] != places[1] || places[1] != places[2]);
}

#[test]
fn corners_of_the_jitter_keep_the_clearance() {
    let mut world = world_with_player();
    let scatters = vec![
        Scatter { direction: Vec2::new(1_000_000, 1_000_000), jitter: Vec2::new(-1_000_000, -1_000_000) },
        Scatter { direction: Vec2::new(-1, 1_000_000), jitter: Vec2::new(0, -1_000_000) },
        Scatter { direction: Vec2::new(-999_999, -1), jitter: Vec2::new(1_000_000, 1_000_000) },
    ];
    spawn_enemy_with(&mut world, 900_000, &scatters);
    assert_eq!(world.enemies.len(), 3);
    assert_eq!(world.enemies[0].position, Vec2::new(14_556_349, 14_556_349));
    assert_eq!(
        world.enemies[0].position.compute_distance_squared(Vec2::new(0, 0)),
        423_774_592_419_602
    );
    for enemy in &world.enemies {
        let d = enemy.position.compute_distance_squared(Vec2::new(0, 0));
        assert!(d >= (SPAWN_CLEARANCE as u128) * (SPAWN_CLEARANCE as u128));
    }
}

#[test]
fn enemies_walk_toward_the_player() {
    let mut world = world_with_player();
    world.enemies.push(enemy_at(10, 10_000_000, 0));
    world.enemies.push(enemy_at(11, -3_000_000, -4_000_000));
    enemy_movement(&mut world, 1_000_000);
    assert_eq!(world.enemies[0].position, Vec2::new(8_700_000, 0));
    assert!(!world.enemies[0].flip_x);
    assert_eq!(world.enemies[1].position, Vec2::new(-2_220_000, -2_960_000));
    assert!(world.enemies[1].flip_x);
}

#[test]
fn enemy_beside_the_player_walks_at_its_speed() {
    let mut world = world_with_player();
    world.enemies.push(enemy_at(10, 1, 1));
    enemy_movement(&mut world, 1_000_000);
    assert_eq!(world.enemies[0].position, Vec2::new(1 - 919_238, 1 - 919_238));
}

#[test]
fn tiny_direction_draw_spawns_on_the_ring() {
    let mut world = world_with_player();
    let scatters = vec![Scatter { direction: Vec2::new(1, 1), jitter: Vec2::new(0, 0) }];
    spawn_enemy_with(&mut world, 900_000, &scatters);
    assert_eq!(world.enemies[0].position, Vec2::new(15_556_349, 15_556_349));
    let d = world.enemies[0].position.compute_distance_squared(Vec2::new(0, 0));
    assert!(d <= 22_000_000u128 * 22_000_000u128);
    assert!(d >= 21_999_998u128 * 21_999_998u128);
}

#[test]
fn enemies_stand_still_without_a_player() {
    let mut world = World::new(Vec::new());
    world.enemies.push(enemy_at(10, 10_000_000, 0));
    enemy_movement(&mut world, 1_000_000);
    assert_eq!(world.enemies, vec![enemy_at(10, 10_000_000, 0)]);
}

#[test]
fn contact_drains_health_by_rate_times_time() {
    let mut world = world_with_player();
    world.enemies.push(enemy_at(10, 0, 0));
    enemy_damage_player(&mut world, 16_667, &vec![10]);
    assert_eq!(world.player.unwrap().health, 100_000_000_000 - 166_670_000);
}

#[test]
fn contact_counts_each_report() {
    let mut world = world_with_player();
    world.enemies.push(enemy_at(10, 0, 0));
    let mut weak = enemy_at(11, 0, 0);
    weak.damage_per_second = 3_000;
    world.enemies.push(weak);
    world.enemies.push(enemy_at(12, 0, 0));
    enemy_damage_player(&mut world, 1_000_000, &vec![11, 10, 10, 99]);
    assert_eq!(world.player.unwrap().health, 100_000_000_000 - 23_000_000_000);
}

#[test]
fn health_stops_at_zero() {
    let mut world = world_with_player();
    world.enemies.push(enemy_at(10, 0, 0));
    enemy_damage_player(&mut world, 9_999_999, &vec![10]);
    assert_eq!(world.player.unwrap().health, 10_000);
    enemy_damage_player(&mut world, 2, &vec![10]);
    assert_eq!(world.player.unwrap().health, 0);
    enemy_damage_player(&mut world, u64::MAX, &vec![10]);
    assert_eq!(world.player.unwrap().health, 0);
}

#[test]
fn contact_over_many_ticks_adds_up() {
    let mut world = world_with_player();
    world.enemies.push(enemy_at(10, 0, 0));
    let steps = [16_667u64, 1, 33_333, 250_000, 999, 4_000_000];
    let mut total = 0u64;
    for dt in steps {
        enemy_damage_player(&mut world, dt, &vec![10]);
        total += dt;
    }
    assert_eq!(world.player.unwrap().health, 100_000_000_000 - 10_000 * total);
}

#[test]
fn no_contact_no_damage() {
    let mut world = world_with_player();
    world.enemies.push(enemy_at(10, 0, 0));
    enemy_damage_player(&mut world, 1_000_000, &Vec::new());
    assert_eq!(world.player.unwrap().health, 100_000_000_000);
}

#[test]
fn strays_are_removed() {
    let mut world = world_with_player();
    world.enemies.push(enemy_at(10, 30_000_000, 0));
    world.enemies.push(enemy_at(11, 30_000_001, 0));
    world.enemies.push(enemy_at(12, 0, -29_999_999));
    world.enemies.push(enemy_at(13, -30_000_000, -1));
    despawn_enemy(&mut world);
    assert_eq!(world.enemies, vec![enemy_at(10, 30_000_000, 0), enemy_at(12, 0, -29_999_999)]);
}

#[test]
fn strays_stay_without_a_player() {
    let mut world = World::new(Vec::new());
    world.enemies.push(enemy_at(11, 300_000_000, 0));
    despawn_enemy(&mut world);
    assert_eq!(world.enemies.len(), 1);
}

#[test]
fn dead_enemies_leave_and_may_drop_an_orb() {
    let mut world = World::new(Vec::new());
    world.next_id = 20;
    let mut dead_a = enemy_at(10, 1_000_000, 2_000_000);
    dead_a.health = 0;
    let mut dead_b = enemy_at(12, 5_000_000, 6_000_000);
    dead_b.health = 0;
    let mut dead_c = enemy_at(13, 7_000_000, 8_000_000);
    dead_c.health = 0;
    world.enemies.push(dead_a);
    world.enemies.push(enemy_at(11, 3_000_000, 4_000_000));
    world.enemies.push(dead_b);
    world.enemies.push(dead_c);
    enemy_death_check_with(&mut world, &vec![500_001, 999_999, 500_000]);
    assert_eq!(world.enemies, vec![enemy_at(11, 3_000_000, 4_000_000)]);
    assert_eq!(world.orbs.len(), 1);
    let orb = world.orbs[0];
    assert_eq!(orb.id, 20);
    assert_eq!(orb.position, Vec2::new(1_000_000, 2_000_000));
    assert_eq!(orb.value, 1);
    assert_eq!(orb.collection_speed, 5_000);
    assert!(!orb.collecting);
    assert_eq!(orb.animation.timer, Timer::new(300_000, TimerMode::Repeating));
    assert_eq!(world.next_id, 21);
}

#[test]
fn random_death_check_removes_exactly_the_dead() {
    let rng = Rng::with_seed(11);
    let mut world = World::new(Vec::new());
    for id in 0..200u64 {
        let mut enemy = enemy_at(id, id as i32, 0);
        if id % 2 == 0 {
            enemy.health = 0;
        }
        world.enemies.push(enemy);
    }
    world.next_id = 200;
    enemy_death_check(&mut world, &rng);
    assert_eq!(world.enemies.len(), 100);
    assert!(world.enemies.iter().all(|enemy| enemy.id % 2 == 1));
    assert!(world.orbs.len() > 50 - 40 && world.orbs.len() < 50 + 40);
    assert!(world.orbs.iter().all(|orb| orb.position.x % 2 == 0));
}

#[test]
fn waves_are_plain_values() {
    let wave = Wave {
        next_spawn: Timer::new(900_000, TimerMode::Repeating),
        wave_size: 3,
        to_spawn: template(),
    };
    assert_eq!(standard_waves()[0], wave);
    assert_eq!(standard_waves().len(), 3);
}
