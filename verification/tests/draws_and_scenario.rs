use pizza_survivor::enemy::{enemy_damage_player, enemy_movement};
use pizza_survivor::fixed::Vec2;
use pizza_survivor::game::{begin_frame, build_schedule, despawn_game_play, standard_waves};
use pizza_survivor::model::{Enemy, GameState, World};
use pizza_survivor::player::{player_game_over, spawn_player};
use pizza_survivor::random::{
    draw_fraction, draw_fractions, draw_index, draw_scatter, draw_scatters, draw_signed_unit,
    scatter_around, stretch, Scatter,
};
use pizza_survivor::schedule::{System, Trigger};
use turborand::rng::Rng;
use turborand::SeededCore;

#[test]
fn signed_units_lie_in_range_and_vary() {
    let rng = Rng::with_seed(42);
    let mut low = 0;
    let mut high = 0;
    let mut negative = 0;
    for _ in 0..1_000 {
        let v = draw_signed_unit(&rng);
        assert!(-1_000_000 <= v && v <= 1_000_000);
        if v == -1_000_000 {
            low += 1;
        }
        if v == 1_000_000 {
            high += 1;
        }
        if v < 0 {
            negative += 1;
        }
    }
    assert!(low < 10 && high < 10);
    assert!(negative > 300 && negative < 700);
}

#[test]
fn fractions_lie_in_range_and_vary() {
    let rng = Rng::with_seed(43);
    let mut above = 0;
    for _ in 0..1_000 {
        let v = draw_fraction(&rng);
        assert!(0 <= v && v < 1_000_000);
        if v > 500_000 {
            above += 1;
        }
    }
    assert!(above > 300 && above < 700);
    let many = draw_fractions(&rng, 64);
    assert_eq!(many.len(), 64);
    assert!(many.iter().all(|v| 0 <= *v && *v < 1_000_000));
    assert!(many.iter().any(|v| *v != many[0]));
    assert!(draw_fractions(&rng, 0).is_empty());
}

#[test]
fn indices_lie_below_the_length() {
    let rng = Rng::with_seed(44);
    assert_eq!(draw_index(&rng, 0), None);
    assert_eq!(draw_index(&rng, 1), Some(0));
    let mut seen = [false; 5];
    for _ in 0..200 {
        let i = draw_index(&rng, 5).unwrap();
        assert!(i < 5);
        seen[i] = true;
    }
    assert_eq!(seen, [true; 5]);
}

#[test]
fn scatters_lie_in_range() {
    let rng = Rng::with_seed(45);
    let one = draw_scatter(&rng);
    for v in [one.direction.x, one.direction.y, one.jitter.x, one.jitter.y] {
        assert!(-1_000_000 <= v && v <= 1_000_000);
    }
    let many = draw_scatters(&rng, 50);
    assert_eq!(many.len(), 50);
    assert!(many.iter().any(|s| *s != many[0]));
    for s in &many {
        for v in [s.direction.x, s.direction.y, s.jitter.x, s.jitter.y] {
            assert!(-1_000_000 <= v && v <= 1_000_000);
        }
    }
}

#[test]
fn same_seed_same_draws() {
    let a = Rng::with_seed(9);
    let b = Rng::with_seed(9);
    assert_eq!(draw_scatters(&a, 10), draw_scatters(&b, 10));
}

#[test]
fn stretch_rounds_toward_zero() {
    assert_eq!(stretch(1_000_000, 1_500_000), 1_500_000);
    assert_eq!(stretch(-1_000_000, 1_500_000), -1_500_000);
    assert_eq!(stretch(333_333, 1_500_000), 499_999);
    assert_eq!(stretch(-333_333, 1_500_000), -499_999);
    assert_eq!(stretch(1, 999_999), 0);
    assert_eq!(stretch(i32::MIN, u32::MAX), -9_223_372_034_707);
}

#[test]
fn scatter_places_on_a_ring() {
    let center = Vec2::new(1_000_000, -1_000_000);
    let scatter = Scatter { direction: Vec2::new(-300_000, 400_000), jitter: Vec2::new(100_000, -100_000) };
    assert_eq!(
        scatter_around(center, scatter, 22_000_000, 1_000_000),
        Vec2::new(1_000_000 - 13_200_000 + 100_000, -1_000_000 + 17_600_000 - 100_000)
    );
    let still = Scatter { direction: Vec2::new(0, 0), jitter: Vec2::new(0, 0) };
    assert_eq!(scatter_around(center, still, 7_000_000, 1_500_000), Vec2::new(8_000_000, -1_000_000));
}

fn brute() -> Enemy {
    Enemy {
        id: 1_000,
        position: Vec2::new(0, 0),
        flip_x: false,
        speed: 0,
        health: 30_000_000_000,
        asset: 2,
        damage_per_second: 10_000,
    }
}

#[test]
fn ten_seconds_of_contact_end_the_round() {
    let schedule = build_schedule();
    let mut world = World::new(standard_waves());
    world.state = GameState::Gameplay;
    spawn_player(&mut world);
    assert_eq!(world.player.unwrap().position, Vec2::new(0, 0));
    assert_eq!(world.player.unwrap().health, 100_000_000_000);
    assert_eq!(world.player.unwrap().max_health, 100_000_000_000);
    world.enemies.push(brute());
    let contacts = vec![1_000u64];
    let frame = 10_000u64;
    for _ in 0..500 {
        enemy_movement(&mut world, frame);
        enemy_damage_player(&mut world, frame, &contacts);
        assert!(!player_game_over(&mut world));
    }
    assert_eq!(world.player.unwrap().health, 50_000_000_000);
    for _ in 0..499 {
        enemy_damage_player(&mut world, frame, &contacts);
        assert!(!player_game_over(&mut world));
    }
    assert_eq!(world.player.unwrap().health, 100_000_000);
    assert_eq!(world.next_state, None);
    enemy_damage_player(&mut world, frame, &contacts);
    assert_eq!(world.player.unwrap().health, 0);
    assert!(player_game_over(&mut world));
    assert_eq!(world.next_state, Some(GameState::GameOver));
    let moments = begin_frame(&mut world);
    assert_eq!(world.state, GameState::GameOver);
    assert_eq!(
        moments,
        vec![
            Trigger::OnExit(GameState::Gameplay),
            Trigger::OnEnter(GameState::GameOver),
            Trigger::Always,
            Trigger::OnUpdate(GameState::GameOver),
            Trigger::PostUpdate
        ]
    );
    assert!(schedule.due(moments[1]).contains(&System::DespawnGamePlay));
    despawn_game_play(&mut world);
    assert_eq!(world.player, None);
    assert!(world.enemies.is_empty());
}

#[test]
fn uneven_frames_drain_the_same() {
    let mut world = World::new(standard_waves());
    spawn_player(&mut world);
    world.enemies.push(brute());
    let contacts = vec![1_000u64];
    let mut left = 5_000_000u64;
    let mut dt = 1u64;
    while left > 0 {
        let step = dt.min(left);
        enemy_damage_player(&mut world, step, &contacts);
        left -= step;
        dt = dt * 3 % 40_001 + 1;
    }
    assert_eq!(world.player.unwrap().health, 50_000_000_000);
}
