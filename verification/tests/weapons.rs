use pizza_survivor::attack::{
    apply_hits, area_shot_attack, area_shot_attack_with, area_shot_bullet, close_shot_attack,
    close_shot_bullet, close_shot_bullet_hits, damage_enemy, find_nearest_enemy, is_struck,
    spawn_area_shot, spawn_area_shot_bullet, spawn_close_shot, spawn_close_shot_bullet, spawn_whip,
    whip_attack, whip_attack_facing, AREA_SHOT_FARTHEST, AREA_SHOT_NEAREST,
};
use pizza_survivor::fixed::Vec2;
use pizza_survivor::game::standard_waves;
use pizza_survivor::model::{
    AreaShot, AreaShotBullet, CloseShot, CloseShotBullet, Enemy, Facing, Overlap,
    TwoFrameAnimation, Whip, World, WorldTextUI,
};
use pizza_survivor::player::spawn_player;
use pizza_survivor::random::Scatter;
use pizza_survivor::timer::{Timer, TimerMode};
use turborand::rng::Rng;
use turborand::SeededCore;

fn enemy_at(id: u64, x: i32, y: i32) -> Enemy {
    Enemy {
        id,
        position: Vec2::new(x, y),
        flip_x: false,
        speed: 1_300,
        health: 5_000_000_000,
        asset: 0,
        damage_per_second: 10_000,
    }
}

fn world_with_player() -> World {
    let mut world = World::new(standard_waves());
    spawn_player(&mut world);
    world
}

fn text(id: u64, x: i32, y: i32, amount: u64) -> WorldTextUI {
    WorldTextUI {
        id,
        lifetime: Timer::new(500_000, TimerMode::Once),
        velocity: Vec2::new(150, 1_500),
        position: Vec2::new(x, y),
        amount,
    }
}

#[test]
fn new_whip_waits_half_a_period() {
    let mut world = World::new(Vec::new());
    world.next_id = 3;
    assert_eq!(spawn_whip(&mut world), Some(3));
    assert_eq!(world.next_id, 4);
    assert_eq!(
        world.whips,
        vec![Whip {
            id: 3,
            position: Vec2::new(3_500_000, 0),
            flip_x: true,
            visible: true,
            timer: Timer {
                duration: 2_000_000,
                elapsed: 1_000_000,
                mode: TimerMode::Repeating,
                finished: false,
                finished_this_tick: false
            },
            damage: 5_000_000_000,
            animation: TwoFrameAnimation {
                current_frame: false,
                shown_frame: false,
                timer: Timer::new(10_000_000_000, TimerMode::Repeating)
            },
        }]
    );
}

#[test]
fn new_area_shot_has_its_period() {
    let mut world = World::new(Vec::new());
    assert_eq!(spawn_area_shot(&mut world), Some(0));
    assert_eq!(
        world.area_shots,
        vec![AreaShot { id: 0, timer: Timer::new(2_500_000, TimerMode::Repeating) }]
    );
}

#[test]
fn new_area_shot_bullet_has_its_tuning() {
    let mut world = World::new(Vec::new());
    assert_eq!(spawn_area_shot_bullet(&mut world, Vec2::new(-1, 2)), Some(0));
    assert_eq!(
        world.area_shot_bullets,
        vec![AreaShotBullet {
            id: 0,
            position: Vec2::new(-1, 2),
            timer: Timer::new(250_000, TimerMode::Repeating),
            lifetime: Timer::new(8_000_000, TimerMode::Once),
            damage_per_second: 4_100,
        }]
    );
}

#[test]
fn new_close_shot_has_its_period() {
    let mut world = World::new(Vec::new());
    world.next_id = 9;
    assert_eq!(spawn_close_shot(&mut world), Some(9));
    assert_eq!(
        world.close_shots,
        vec![CloseShot { id: 9, timer: Timer::new(1_200_000, TimerMode::Repeating) }]
    );
}

#[test]
fn new_close_shot_bullet_has_its_tuning() {
    let mut world = World::new(Vec::new());
    let id = spawn_close_shot_bullet(&mut world, Vec2::new(5, 6), Vec2::new(0, -1_000_000));
    assert_eq!(id, Some(0));
    assert_eq!(
        world.close_shot_bullets,
        vec![CloseShotBullet {
            id: 0,
            position: Vec2::new(5, 6),
            lifetime: Timer::new(5_000_000, TimerMode::Once),
            speed: 4_500,
            damage: 2_000_000_000,
            direction: Vec2::new(0, -1_000_000),
        }]
    );
}

#[test]
fn nothing_spawns_without_an_identifier() {
    let mut world = World::new(Vec::new());
    world.next_id = u64::MAX;
    assert_eq!(spawn_whip(&mut world), None);
    assert_eq!(spawn_area_shot(&mut world), None);
    assert_eq!(spawn_close_shot(&mut world), None);
    assert_eq!(spawn_area_shot_bullet(&mut world, Vec2::new(0, 0)), None);
    assert_eq!(spawn_close_shot_bullet(&mut world, Vec2::new(0, 0), Vec2::new(1, 0)), None);
    assert!(world.whips.is_empty());
    assert!(world.area_shots.is_empty());
    assert!(world.close_shots.is_empty());
    assert!(world.area_shot_bullets.is_empty());
    assert!(world.close_shot_bullets.is_empty());
    assert_eq!(world.next_id, u64::MAX);
}

#[test]
fn damage_lowers_health_and_shows_a_number() {
    let mut world = World::new(Vec::new());
    world.next_id = 50;
    world.enemies.push(enemy_at(1, 1_000_000, 1_000_000));
    world.enemies.push(enemy_at(2, 2_000_000, 2_000_000));
    damage_enemy(&mut world, 2, 2_999_999_999);
    assert_eq!(world.enemies[0], enemy_at(1, 1_000_000, 1_000_000));
    assert_eq!(world.enemies[1].health, 2_000_000_001);
    assert_eq!(world.texts, vec![text(50, 1_800_000, 3_400_000, 2)]);
    assert_eq!(world.next_id, 51);
}

#[test]
fn damage_never_takes_health_below_zero() {
    let mut world = World::new(Vec::new());
    world.enemies.push(enemy_at(1, 0, 0));
    damage_enemy(&mut world, 1, u64::MAX);
    assert_eq!(world.enemies[0].health, 0);
    assert_eq!(world.texts[0].amount, u64::MAX / 1_000_000_000);
}

#[test]
fn damage_to_an_unknown_enemy_does_nothing() {
    let mut world = World::new(Vec::new());
    world.enemies.push(enemy_at(1, 0, 0));
    damage_enemy(&mut world, 7, 1_000_000_000);
    assert_eq!(world.enemies, vec![enemy_at(1, 0, 0)]);
    assert!(world.texts.is_empty());
    assert_eq!(world.next_id, 0);
}

#[test]
fn damage_is_dealt_even_without_a_number() {
    let mut world = World::new(Vec::new());
    world.next_id = u64::MAX;
    world.enemies.push(enemy_at(1, 0, 0));
    damage_enemy(&mut world, 1, 1_000_000_000);
    assert_eq!(world.enemies[0].health, 4_000_000_000);
    assert!(world.texts.is_empty());
}

#[test]
fn hits_follow_the_reports_of_the_source() {
    let mut world = World::new(Vec::new());
    world.next_id = 100;
    world.enemies.push(enemy_at(1, 0, 0));
    world.enemies.push(enemy_at(2, 0, 0));
    world.enemies.push(enemy_at(3, 0, 0));
    let overlaps = vec![
        Overlap { source: 9, target: 2 },
        Overlap { source: 8, target: 1 },
        Overlap { source: 9, target: 3 },
        Overlap { source: 9, target: 2 },
        Overlap { source: 9, target: 77 },
    ];
    apply_hits(&mut world, 9, &overlaps, 1_000_000_000);
    assert_eq!(world.enemies[0].health, 5_000_000_000);
    assert_eq!(world.enemies[1].health, 3_000_000_000);
    assert_eq!(world.enemies[2].health, 4_000_000_000);
    assert_eq!(world.texts.len(), 3);
    assert_eq!(world.texts[2].id, 102);
}

#[test]
fn single_whip_follows_the_facing() {
    let mut world = world_with_player();
    whip_attack_facing(&mut world);
    assert_eq!(world.whips[0].position, Vec2::new(-3_500_000, 0));
    assert!(!world.whips[0].flip_x);
    let mut player = world.player.unwrap();
    player.facing = Facing::Right;
    world.player = Some(player);
    whip_attack_facing(&mut world);
    assert_eq!(world.whips[0].position, Vec2::new(3_500_000, 0));
    assert!(world.whips[0].flip_x);
}

#[test]
fn two_whips_keep_their_sides() {
    let mut world = world_with_player();
    spawn_whip(&mut world);
    let before = world.whips.clone();
    whip_attack_facing(&mut world);
    assert_eq!(world.whips, before);
}

#[test]
fn whip_without_a_player_stays() {
    let mut world = World::new(Vec::new());
    spawn_whip(&mut world);
    let before = world.whips.clone();
    whip_attack_facing(&mut world);
    assert_eq!(world.whips, before);
}

#[test]
fn whip_strikes_when_its_timer_finishes() {
    let mut world = world_with_player();
    world.enemies.push(enemy_at(10, 3_000_000, 0));
    world.enemies.push(enemy_at(11, 9_000_000, 0));
    world.next_id = 20;
    let overlaps = vec![Overlap { source: 0, target: 10 }];
    whip_attack(&mut world, 999_999, &overlaps);
    assert_eq!(world.enemies[0].health, 5_000_000_000);
    assert!(world.texts.is_empty());
    whip_attack(&mut world, 1, &overlaps);
    assert_eq!(world.enemies[0].health, 0);
    assert_eq!(world.enemies[1].health, 5_000_000_000);
    assert_eq!(world.texts, vec![text(20, 2_800_000, 1_400_000, 5)]);
    assert_eq!(world.whips[0].timer.elapsed, 0);
    assert!(world.whips[0].timer.finished_this_tick);
}

#[test]
fn whip_shows_in_the_first_fifth_of_its_period() {
    let mut world = world_with_player();
    let none: Vec<Overlap> = Vec::new();
    whip_attack(&mut world, 500_000, &none);
    assert!(!world.whips[0].visible);
    assert!(world.whips[0].animation.current_frame);
    whip_attack(&mut world, 300_001, &none);
    assert_eq!(world.whips[0].timer.elapsed, 1_800_001);
    assert!(!world.whips[0].visible);
    whip_attack(&mut world, 199_998, &none);
    assert_eq!(world.whips[0].timer.elapsed, 1_999_999);
    assert!(!world.whips[0].visible);
    whip_attack(&mut world, 1, &none);
    assert!(world.whips[0].visible);
    assert!(!world.whips[0].animation.current_frame);
    assert_eq!(world.whips[0].timer.elapsed, 0);
    whip_attack(&mut world, 399_999, &none);
    assert!(world.whips[0].visible);
    whip_attack(&mut world, 1, &none);
    assert!(!world.whips[0].visible);
    assert!(!world.whips[0].animation.current_frame);
    whip_attack(&mut world, 600_001, &none);
    assert!(world.whips[0].animation.current_frame);
    assert!(!world.whips[0].visible);
}

#[test]
fn each_whip_strikes_for_itself() {
    let mut world = world_with_player();
    spawn_whip(&mut world);
    let mut second = world.whips[1];
    second.timer.set_elapsed(0);
    second.damage = 1_000_000_000;
    world.whips[1] = second;
    world.enemies.push(enemy_at(10, 0, 0));
    let overlaps = vec![Overlap { source: 0, target: 10 }, Overlap { source: 2, target: 10 }];
    whip_attack(&mut world, 1_000_000, &overlaps);
    assert_eq!(world.enemies[0].health, 0);
    world.enemies[0].health = 5_000_000_000;
    whip_attack(&mut world, 1_000_000, &overlaps);
    assert_eq!(world.enemies[0].health, 4_000_000_000);
}

#[test]
fn nearest_enemy_is_the_first_of_the_nearest() {
    let enemies = vec![
        enemy_at(1, 0, 10_000_000),
        enemy_at(2, 5_000_000, 0),
        enemy_at(3, -5_000_000, 0),
        enemy_at(4, 3_000_000, 4_000_000),
    ];
    assert_eq!(find_nearest_enemy(&enemies, Vec2::new(0, 0)), Some(1));
    assert_eq!(find_nearest_enemy(&enemies, Vec2::new(-1, 0)), Some(2));
    assert_eq!(find_nearest_enemy(&enemies, Vec2::new(3_000_000, 4_000_001)), Some(3));
    assert_eq!(find_nearest_enemy(&Vec::new(), Vec2::new(0, 0)), None);
}

#[test]
fn close_shot_fires_at_the_nearest_enemy() {
    let mut world = world_with_player();
    spawn_close_shot(&mut world);
    world.enemies.push(enemy_at(10, 0, 10_000_000));
    world.enemies.push(enemy_at(11, -3_000_000, -4_000_000));
    world.next_id = 30;
    close_shot_attack(&mut world, 1_199_999);
    assert!(world.close_shot_bullets.is_empty());
    close_shot_attack(&mut world, 1);
    assert_eq!(
        world.close_shot_bullets,
        vec![CloseShotBullet {
            id: 30,
            position: Vec2::new(0, 0),
            lifetime: Timer::new(5_000_000, TimerMode::Once),
            speed: 4_500,
            damage: 2_000_000_000,
            direction: Vec2::new(-600_000, -800_000),
        }]
    );
}

#[test]
fn close_shot_aims_with_a_unit_direction_at_a_near_enemy() {
    let mut world = world_with_player();
    spawn_close_shot(&mut world);
    world.enemies.push(enemy_at(10, 1, 1));
    close_shot_attack(&mut world, 1_200_000);
    assert_eq!(world.close_shot_bullets.len(), 1);
    assert_eq!(world.close_shot_bullets[0].direction, Vec2::new(707_106, 707_106));
}

#[test]
fn close_shot_holds_fire_without_an_enemy() {
    let mut world = world_with_player();
    spawn_close_shot(&mut world);
    close_shot_attack(&mut world, 1_200_000);
    assert!(world.close_shot_bullets.is_empty());
    assert!(world.close_shots[0].timer.finished_this_tick);
}

#[test]
fn close_shot_rests_without_a_player() {
    let mut world = World::new(Vec::new());
    spawn_close_shot(&mut world);
    world.enemies.push(enemy_at(10, 0, 10_000_000));
    close_shot_attack(&mut world, 1_200_000);
    assert!(world.close_shot_bullets.is_empty());
    assert_eq!(world.close_shots[0].timer.elapsed, 0);
}

#[test]
fn bullets_fly_along_their_direction() {
    let mut world = World::new(Vec::new());
    spawn_close_shot_bullet(&mut world, Vec2::new(1_000_000, 1_000_000), Vec2::new(600_000, 800_000));
    spawn_close_shot_bullet(&mut world, Vec2::new(0, 0), Vec2::new(0, 0));
    close_shot_bullet(&mut world, 1_000_000);
    assert_eq!(world.close_shot_bullets[0].position, Vec2::new(3_700_000, 4_600_000));
    assert_eq!(world.close_shot_bullets[0].lifetime.elapsed, 1_000_000);
    assert_eq!(world.close_shot_bullets[1].position, Vec2::new(0, 0));
}

#[test]
fn struck_needs_an_enemy_at_the_other_end() {
    let enemies = vec![enemy_at(1, 0, 0)];
    let overlaps = vec![Overlap { source: 5, target: 9 }, Overlap { source: 6, target: 1 }];
    assert!(!is_struck(&enemies, 5, &overlaps));
    assert!(is_struck(&enemies, 6, &overlaps));
    assert!(!is_struck(&enemies, 7, &overlaps));
}

#[test]
fn spent_bullets_are_removed() {
    let mut world = World::new(Vec::new());
    world.enemies.push(enemy_at(100, 0, 0));
    world.enemies.push(enemy_at(101, 0, 0));
    world.next_id = 200;
    for id in 0..4u64 {
        world.close_shot_bullets.push(CloseShotBullet {
            id,
            position: Vec2::new(0, 0),
            lifetime: Timer::new(5_000_000, TimerMode::Once),
            speed: 4_500,
            damage: 2_000_000_000,
            direction: Vec2::new(1_000_000, 0),
        });
    }
    world.close_shot_bullets[2].lifetime.tick(5_000_000);
    let overlaps = vec![
        Overlap { source: 0, target: 100 },
        Overlap { source: 0, target: 101 },
        Overlap { source: 1, target: 555 },
        Overlap { source: 2, target: 100 },
    ];
    close_shot_bullet_hits(&mut world, &overlaps);
    assert_eq!(world.enemies[0].health, 1_000_000_000);
    assert_eq!(world.enemies[1].health, 3_000_000_000);
    let left: Vec<u64> = world.close_shot_bullets.iter().map(|bullet| bullet.id).collect();
    assert_eq!(left, vec![1, 3]);
    assert_eq!(world.texts.len(), 3);
}

#[test]
fn bullet_dies_of_old_age() {
    let mut world = World::new(Vec::new());
    spawn_close_shot_bullet(&mut world, Vec2::new(0, 0), Vec2::new(1_000_000, 0));
    close_shot_bullet(&mut world, 4_999_999);
    close_shot_bullet_hits(&mut world, &Vec::new());
    assert_eq!(world.close_shot_bullets.len(), 1);
    close_shot_bullet(&mut world, 1);
    close_shot_bullet_hits(&mut world, &Vec::new());
    assert!(world.close_shot_bullets.is_empty());
}

#[test]
fn area_shot_drops_a_zone_where_the_scatter_says() {
    let mut world = world_with_player();
    let mut player = world.player.unwrap();
    player.position = Vec2::new(1_000_000, 2_000_000);
    world.player = Some(player);
    spawn_area_shot(&mut world);
    world.next_id = 40;
    let scatters = vec![Scatter { direction: Vec2::new(0, 1_000_000), jitter: Vec2::new(1_000_000, -1_000_000) }];
    area_shot_attack_with(&mut world, 2_499_999, &scatters);
    assert!(world.area_shot_bullets.is_empty());
    area_shot_attack_with(&mut world, 1, &scatters);
    assert_eq!(world.area_shot_bullets.len(), 1);
    assert_eq!(world.area_shot_bullets[0].id, 40);
    assert_eq!(world.area_shot_bullets[0].position, Vec2::new(2_500_000, 7_500_000));
}

#[test]
fn area_shot_uses_the_scatter_of_its_place() {
    let mut world = world_with_player();
    spawn_area_shot(&mut world);
    spawn_area_shot(&mut world);
    spawn_area_shot(&mut world);
    let scatters = vec![
        Scatter { direction: Vec2::new(-1, 0), jitter: Vec2::new(0, 0) },
        Scatter { direction: Vec2::new(0, -1), jitter: Vec2::new(-333_333, 1) },
    ];
    area_shot_attack_with(&mut world, 2_500_000, &scatters);
    let places: Vec<Vec2> = world.area_shot_bullets.iter().map(|zone| zone.position).collect();
    assert_eq!(
        places,
        vec![Vec2::new(-7_000_000, 0), Vec2::new(-499_999, -6_999_999), Vec2::new(7_000_000, 0)]
    );
}

#[test]
fn random_area_shot_stays_near_its_ring() {
    let rng = Rng::with_seed(3);
    let mut world = world_with_player();
    for _ in 0..20 {
        spawn_area_shot(&mut world);
    }
    area_shot_attack(&mut world, 2_500_000, &rng);
    assert_eq!(world.area_shot_bullets.len(), 20);
    let mut different = false;
    for zone in &world.area_shot_bullets {
        let d = zone.position.compute_distance_squared(Vec2::new(0, 0));
        assert!(d >= (AREA_SHOT_NEAREST as u128) * (AREA_SHOT_NEAREST as u128));
        assert!(d <= (AREA_SHOT_FARTHEST as u128) * (AREA_SHOT_FARTHEST as u128));
        different = different || zone.position != world.area_shot_bullets[0].position;
    }
    assert!(different);
}

#[test]
fn zone_pulses_a_quarter_second_of_damage() {
    let mut world = World::new(Vec::new());
    world.enemies.push(enemy_at(100, 1_000_000, 0));
    world.enemies.push(enemy_at(101, 50_000_000, 0));
    spawn_area_shot_bullet(&mut world, Vec2::new(0, 0));
    let overlaps = vec![Overlap { source: 0, target: 100 }];
    area_shot_bullet(&mut world, 249_999, &overlaps);
    assert_eq!(world.enemies[0].health, 5_000_000_000);
    area_shot_bullet(&mut world, 1, &overlaps);
    assert_eq!(world.enemies[0].health, 5_000_000_000 - 1_025_000_000);
    assert_eq!(world.enemies[1].health, 5_000_000_000);
    assert_eq!(world.texts.len(), 1);
    assert_eq!(world.texts[0].amount, 1);
    assert_eq!(world.area_shot_bullets[0].lifetime.elapsed, 250_000);
}

#[test]
fn zone_goes_after_its_last_pulse() {
    let mut world = World::new(Vec::new());
    world.enemies.push(enemy_at(100, 1_000_000, 0));
    spawn_area_shot_bullet(&mut world, Vec2::new(0, 0));
    spawn_area_shot_bullet(&mut world, Vec2::new(9, 9));
    world.area_shot_bullets[1].lifetime.set_elapsed(1);
    let overlaps = vec![Overlap { source: 0, target: 100 }];
    area_shot_bullet(&mut world, 7_999_999, &overlaps);
    assert_eq!(world.area_shot_bullets.len(), 1);
    assert_eq!(world.area_shot_bullets[0].id, 0);
    assert_eq!(world.enemies[0].health, 5_000_000_000 - 1_025_000_000);
    area_shot_bullet(&mut world, 1, &overlaps);
    assert!(world.area_shot_bullets.is_empty());
}
