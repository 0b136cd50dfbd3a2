use pizza_survivor::animation::{
    animate, despawn_particles, spawn_particles, spawn_particles_with, two_frame_animation,
    update_particles, GameAnimationPlugin,
};
use pizza_survivor::attack::{spawn_close_shot_bullet, spawn_whip, AttackPlugin};
use pizza_survivor::camera::{camera_follow, update_cursor, CursorPosition, GameCameraPlugin};
use pizza_survivor::enemy::EnemyPlugin;
use pizza_survivor::exp::{spawn_orb, ExpPlugin};
use pizza_survivor::fixed::Vec2;
use pizza_survivor::game::{
    advance_state, apply_state_transition, begin_frame, build_schedule, despawn_game_play,
    standard_waves, startup_moments, Transition,
};
use pizza_survivor::model::{
    GameState, LevelUpParticle, TwoFrameAnimation, UpgradeSelected, WeaponUpgrade, World,
};
use pizza_survivor::player::{spawn_player, PlayerPlugin};
use pizza_survivor::schedule::{Entry, Schedule, System, Trigger};
use pizza_survivor::timer::{Timer, TimerMode};
use pizza_survivor::ui::{
    about_back_button_system, about_button_system, compute_bar_fill, compute_button_color,
    despawn_level_up_ui, game_over_button_system, level_up_button_system, player_exp_ui_sync,
    player_health_ui_sync, show_about_ui, spawn_level_up_ui, spawn_level_up_ui_with,
    spawn_world_text, start_button_system, update_world_text, ButtonColor, GameUiPlugin,
    Interaction,
};
use pizza_survivor::upgrade::UpgradePlugin;
use turborand::rng::Rng;
use turborand::SeededCore;

fn world_with_player() -> World {
    let mut world = World::new(standard_waves());
    spawn_player(&mut world);
    world
}

#[test]
fn new_world_is_at_the_main_menu() {
    let world = World::new(standard_waves());
    assert_eq!(world.state, GameState::MainMenu);
    assert_eq!(GameState::default(), GameState::MainMenu);
    assert_eq!(world.next_state, None);
    assert!(!world.about_shown);
    assert_eq!(world.next_id, 0);
    assert_eq!(world.player, None);
    assert!(world.enemies.is_empty() && world.whips.is_empty() && world.orbs.is_empty());
    assert_eq!(world.wave_manager.global_time.elapsed, 0);
    assert_eq!(world.wave_manager.waves, standard_waves());
}

#[test]
fn identifiers_count_up() {
    let mut world = World::new(Vec::new());
    assert_eq!(world.allocate(), Some(0));
    assert_eq!(world.allocate(), Some(1));
    world.next_id = u64::MAX - 1;
    assert_eq!(world.allocate(), Some(u64::MAX - 1));
    assert_eq!(world.allocate(), None);
    assert_eq!(world.next_id, u64::MAX);
}

#[test]
fn damage_number_starts_beside_the_hit() {
    let mut world = World::new(Vec::new());
    spawn_world_text(&mut world, Vec2::new(1_000_000, -1_000_000), 12);
    assert_eq!(world.texts.len(), 1);
    let text = world.texts[0];
    assert_eq!(text.id, 0);
    assert_eq!(text.position, Vec2::new(800_000, 400_000));
    assert_eq!(text.velocity, Vec2::new(150, 1_500));
    assert_eq!(text.lifetime, Timer::new(500_000, TimerMode::Once));
    assert_eq!(text.amount, 12);
    world.next_id = u64::MAX;
    spawn_world_text(&mut world, Vec2::new(0, 0), 1);
    assert_eq!(world.texts.len(), 1);
}

#[test]
fn damage_numbers_rise_and_fade() {
    let mut world = World::new(Vec::new());
    spawn_world_text(&mut world, Vec2::new(0, 0), 5);
    update_world_text(&mut world, 100_000);
    assert_eq!(world.texts[0].position, Vec2::new(-185_000, 1_550_000));
    assert_eq!(world.texts[0].lifetime.elapsed, 100_000);
    spawn_world_text(&mut world, Vec2::new(0, 0), 6);
    update_world_text(&mut world, 399_999);
    assert_eq!(world.texts.len(), 2);
    update_world_text(&mut world, 1);
    assert_eq!(world.texts.len(), 1);
    assert_eq!(world.texts[0].amount, 6);
    assert_eq!(world.texts[0].position, Vec2::new(-200_000 + 59_999, 1_400_000 + 599_998 + 1));
}

#[test]
fn button_colours() {
    assert_eq!(compute_button_color(Interaction::Clicked), ButtonColor::Red);
    assert_eq!(compute_button_color(Interaction::Hovered), ButtonColor::Green);
    assert_eq!(compute_button_color(Interaction::Idle), ButtonColor::DarkGreen);
}

#[test]
fn level_up_button_chooses_an_upgrade() {
    let mut world = World::new(Vec::new());
    world.state = GameState::LevelUp;
    assert_eq!(
        level_up_button_system(&mut world, WeaponUpgrade::AreaShot, Interaction::Hovered),
        ButtonColor::Green
    );
    assert_eq!(
        level_up_button_system(&mut world, WeaponUpgrade::AreaShot, Interaction::Idle),
        ButtonColor::DarkGreen
    );
    assert!(world.upgrades.is_empty());
    assert_eq!(world.next_state, None);
    assert_eq!(
        level_up_button_system(&mut world, WeaponUpgrade::AreaShot, Interaction::Clicked),
        ButtonColor::Red
    );
    assert_eq!(world.upgrades, vec![UpgradeSelected(WeaponUpgrade::AreaShot)]);
    assert_eq!(world.next_state, Some(GameState::Gameplay));
}

#[test]
fn start_button_starts_a_round() {
    let mut world = World::new(Vec::new());
    assert_eq!(start_button_system(&mut world, Interaction::Hovered), Some(ButtonColor::Green));
    assert_eq!(world.next_state, None);
    assert_eq!(start_button_system(&mut world, Interaction::Clicked), Some(ButtonColor::Red));
    assert_eq!(world.next_state, Some(GameState::StartingLoop));
}

#[test]
fn about_page_covers_the_menu_buttons() {
    let mut world = World::new(Vec::new());
    assert!(!show_about_ui(&world));
    assert_eq!(about_back_button_system(&mut world, Interaction::Clicked), None);
    assert_eq!(about_button_system(&mut world, Interaction::Idle), Some(ButtonColor::DarkGreen));
    assert!(!world.about_shown);
    assert_eq!(about_button_system(&mut world, Interaction::Clicked), Some(ButtonColor::Red));
    assert!(show_about_ui(&world));
    assert_eq!(start_button_system(&mut world, Interaction::Clicked), None);
    assert_eq!(about_button_system(&mut world, Interaction::Clicked), None);
    assert_eq!(world.next_state, None);
    assert_eq!(about_back_button_system(&mut world, Interaction::Hovered), Some(ButtonColor::Green));
    assert!(world.about_shown);
    assert_eq!(about_back_button_system(&mut world, Interaction::Clicked), Some(ButtonColor::Red));
    assert!(!world.about_shown);
}

#[test]
fn game_over_button_leads_to_the_menu() {
    let mut world = World::new(Vec::new());
    world.state = GameState::GameOver;
    assert_eq!(game_over_button_system(&mut world, Interaction::Idle), ButtonColor::DarkGreen);
    assert_eq!(world.next_state, None);
    assert_eq!(game_over_button_system(&mut world, Interaction::Clicked), ButtonColor::Red);
    assert_eq!(world.next_state, Some(GameState::MainMenu));
}

#[test]
fn offered_upgrades_are_two_different_ones() {
    let all = WeaponUpgrade::all();
    let mut seen = Vec::new();
    for first in 0..5usize {
        for second in 0..4usize {
            let mut world = World::new(Vec::new());
            spawn_level_up_ui_with(&mut world, first, second);
            assert_eq!(world.level_up_options.len(), 2);
            assert_eq!(world.level_up_options[0], all[first]);
            assert_ne!(world.level_up_options[0], world.level_up_options[1]);
            assert!(!seen.contains(&world.level_up_options));
            seen.push(world.level_up_options.clone());
        }
    }
    assert_eq!(seen.len(), 20);
}

#[test]
fn offered_upgrades_by_draw() {
    let mut world = World::new(Vec::new());
    spawn_level_up_ui_with(&mut world, 1, 1);
    assert_eq!(world.level_up_options, vec![WeaponUpgrade::CloseShot, WeaponUpgrade::AreaShot]);
    spawn_level_up_ui_with(&mut world, 4, 3);
    assert_eq!(world.level_up_options, vec![WeaponUpgrade::SpeedUp, WeaponUpgrade::HealthUp]);
    spawn_level_up_ui_with(&mut world, 2, 0);
    assert_eq!(world.level_up_options, vec![WeaponUpgrade::AreaShot, WeaponUpgrade::Whip]);
    spawn_level_up_ui_with(&mut world, 7, 6);
    assert_eq!(world.level_up_options, vec![WeaponUpgrade::AreaShot, WeaponUpgrade::HealthUp]);
    despawn_level_up_ui(&mut world);
    assert!(world.level_up_options.is_empty());
}

#[test]
fn random_offers_are_different_and_vary() {
    let rng = Rng::with_seed(5);
    let mut seen = Vec::new();
    for _ in 0..200 {
        let mut world = World::new(Vec::new());
        spawn_level_up_ui(&mut world, &rng);
        assert_eq!(world.level_up_options.len(), 2);
        assert_ne!(world.level_up_options[0], world.level_up_options[1]);
        if !seen.contains(&world.level_up_options) {
            seen.push(world.level_up_options.clone());
        }
    }
    assert!(seen.len() > 10);
}

#[test]
fn bars_show_shares() {
    assert_eq!(compute_bar_fill(50, 100), 500_000);
    assert_eq!(compute_bar_fill(1, 3), 333_333);
    assert_eq!(compute_bar_fill(100, 100), 1_000_000);
    assert_eq!(compute_bar_fill(3, 0), 0);
    assert_eq!(compute_bar_fill(u64::MAX, 1), u32::MAX);
    let mut world = World::new(Vec::new());
    assert_eq!(player_health_ui_sync(&world), None);
    assert_eq!(player_exp_ui_sync(&world), None);
    spawn_player(&mut world);
    let mut player = world.player.unwrap();
    player.health = 25_000_000_000;
    player.exp = 2;
    world.player = Some(player);
    assert_eq!(player_health_ui_sync(&world), Some(250_000));
    assert_eq!(player_exp_ui_sync(&world), Some(400_000));
}

#[test]
fn animation_shows_the_image_before_the_change() {
    let start = TwoFrameAnimation {
        current_frame: false,
        shown_frame: true,
        timer: Timer::new(300_000, TimerMode::Repeating),
    };
    let a = animate(start, 299_999);
    assert!(!a.current_frame && !a.shown_frame);
    let b = animate(a, 1);
    assert!(b.current_frame && !b.shown_frame);
    let c = animate(b, 1);
    assert!(c.current_frame && c.shown_frame);
    let d = animate(c, 299_999);
    assert!(!d.current_frame && d.shown_frame);
    assert_eq!(d.timer.elapsed, 0);
}

#[test]
fn all_animations_run_together() {
    let mut world = world_with_player();
    spawn_orb(&mut world, Vec2::new(0, 0));
    world.particles.push(LevelUpParticle {
        position: Vec2::new(0, 0),
        animation: TwoFrameAnimation {
            current_frame: true,
            shown_frame: false,
            timer: Timer::new(300_000, TimerMode::Repeating),
        },
    });
    two_frame_animation(&mut world, 300_000);
    assert!(world.player.unwrap().animation.current_frame);
    assert!(world.orbs[0].animation.current_frame);
    assert!(!world.particles[0].animation.current_frame);
    assert!(world.particles[0].animation.shown_frame);
    assert!(!world.whips[0].animation.current_frame);
    assert_eq!(world.whips[0].animation.timer.elapsed, 300_000);
    assert_eq!(world.whips[0].timer.elapsed, 1_000_000);
}

#[test]
fn coin_shower_has_five_hundred_coins() {
    let mut world = World::new(Vec::new());
    let draws = vec![
        Vec2::new(1_000_000, -1_000_000),
        Vec2::new(-500_000, 500_000),
        Vec2::new(1_000_001, 0),
    ];
    spawn_particles_with(&mut world, &draws);
    assert_eq!(world.particles.len(), 500);
    assert_eq!(world.particles[0].position, Vec2::new(20_000_000, 10_000_000));
    assert_eq!(world.particles[1].position, Vec2::new(-10_000_000, 47_500_000));
    assert_eq!(world.particles[2].position, Vec2::new(20_000_020, 35_000_000));
    assert_eq!(world.particles[499].position, Vec2::new(0, 35_000_000));
    assert_eq!(world.particles[0].animation.timer, Timer::new(300_000, TimerMode::Repeating));
    despawn_particles(&mut world);
    assert!(world.particles.is_empty());
}

#[test]
fn random_coin_shower_is_spread_out() {
    let rng = Rng::with_seed(1);
    let mut world = World::new(Vec::new());
    spawn_particles(&mut world, &rng);
    assert_eq!(world.particles.len(), 500);
    let mut different = false;
    for coin in &world.particles {
        assert!(coin.position.x >= -20_000_000 && coin.position.x <= 20_000_000);
        assert!(coin.position.y >= 10_000_000 && coin.position.y <= 60_000_000);
        different = different || coin.position != world.particles[0].position;
    }
    assert!(different);
}

#[test]
fn coins_fall_and_start_over() {
    let mut world = World::new(Vec::new());
    for y in [35_000_000, -9_950_000, -9_900_000] {
        world.particles.push(LevelUpParticle {
            position: Vec2::new(7, y),
            animation: TwoFrameAnimation {
                current_frame: false,
                shown_frame: false,
                timer: Timer::new(300_000, TimerMode::Repeating),
            },
        });
    }
    update_particles(&mut world, 10_000);
    assert_eq!(world.particles[0].position, Vec2::new(7, 34_900_000));
    assert_eq!(world.particles[1].position, Vec2::new(7, 10_000_000));
    assert_eq!(world.particles[2].position, Vec2::new(7, -10_000_000));
}

#[test]
fn camera_follows_the_player() {
    let mut world = world_with_player();
    let mut player = world.player.unwrap();
    player.position = Vec2::new(12, -34);
    world.player = Some(player);
    camera_follow(&mut world);
    assert_eq!(world.camera, Vec2::new(12, -34));
    world.player = None;
    world.camera = Vec2::new(1, 1);
    camera_follow(&mut world);
    assert_eq!(world.camera, Vec2::new(1, 1));
}

#[test]
fn cursor_is_a_share_of_the_window() {
    let mut cursor = CursorPosition::default();
    assert_eq!(cursor.screen_position, Vec2::new(0, 0));
    update_cursor(&mut cursor, Some((237, 533)), 948, 533);
    assert_eq!(cursor.screen_position, Vec2::new(250_000, 0));
    update_cursor(&mut cursor, Some((948, 0)), 948, 533);
    assert_eq!(cursor.screen_position, Vec2::new(1_000_000, 1_000_000));
    update_cursor(&mut cursor, None, 948, 533);
    assert_eq!(cursor.screen_position, Vec2::new(1_000_000, 1_000_000));
    update_cursor(&mut cursor, Some((949, 0)), 948, 533);
    assert_eq!(cursor.screen_position, Vec2::new(1_000_000, 1_000_000));
    update_cursor(&mut cursor, Some((0, 0)), 0, 0);
    assert_eq!(cursor.screen_position, Vec2::new(1_000_000, 1_000_000));
    update_cursor(&mut cursor, Some((1, 1)), 3, 3);
    assert_eq!(cursor.screen_position, Vec2::new(333_333, 666_667));
}

#[test]
fn phases_change_at_the_start_of_a_frame() {
    let mut world = World::new(Vec::new());
    assert_eq!(apply_state_transition(&mut world), None);
    assert_eq!(
        begin_frame(&mut world),
        vec![Trigger::Always, Trigger::OnUpdate(GameState::MainMenu), Trigger::PostUpdate]
    );
    world.next_state = Some(GameState::StartingLoop);
    assert_eq!(
        begin_frame(&mut world),
        vec![
            Trigger::OnExit(GameState::MainMenu),
            Trigger::OnEnter(GameState::StartingLoop),
            Trigger::Always,
            Trigger::OnUpdate(GameState::StartingLoop),
            Trigger::PostUpdate
        ]
    );
    assert_eq!(world.state, GameState::StartingLoop);
    assert_eq!(world.next_state, None);
    advance_state(&mut world);
    assert_eq!(world.next_state, Some(GameState::Gameplay));
    assert_eq!(
        apply_state_transition(&mut world),
        Some(Transition { exited: GameState::StartingLoop, entered: GameState::Gameplay })
    );
    world.next_state = Some(GameState::Gameplay);
    assert_eq!(
        apply_state_transition(&mut world),
        Some(Transition { exited: GameState::Gameplay, entered: GameState::Gameplay })
    );
    assert_eq!(
        startup_moments(&world),
        vec![Trigger::Startup, Trigger::OnEnter(GameState::Gameplay)]
    );
}

#[test]
fn round_is_cleared_away() {
    let mut world = world_with_player();
    pizza_survivor::attack::spawn_area_shot(&mut world);
    pizza_survivor::attack::spawn_close_shot(&mut world);
    pizza_survivor::attack::spawn_area_shot_bullet(&mut world, Vec2::new(0, 0));
    spawn_close_shot_bullet(&mut world, Vec2::new(0, 0), Vec2::new(1, 0));
    spawn_orb(&mut world, Vec2::new(0, 0));
    spawn_world_text(&mut world, Vec2::new(0, 0), 3);
    spawn_whip(&mut world);
    pizza_survivor::enemy::spawn_one_enemy(
        &mut world,
        standard_waves()[0].to_spawn,
        Vec2::new(0, 0),
    );
    let next_id = world.next_id;
    despawn_game_play(&mut world);
    assert_eq!(world.player, None);
    assert!(world.enemies.is_empty());
    assert!(world.whips.is_empty());
    assert!(world.close_shots.is_empty());
    assert!(world.area_shots.is_empty());
    assert!(world.area_shot_bullets.is_empty());
    assert!(world.orbs.is_empty());
    assert_eq!(world.close_shot_bullets.len(), 1);
    assert_eq!(world.texts.len(), 1);
    assert_eq!(world.next_id, next_id);
    assert_eq!(world.wave_manager.waves.len(), 3);
}

#[test]
fn schedule_keeps_the_order_of_entry() {
    let mut schedule = Schedule::new();
    schedule.add(Trigger::Always, System::UpdateCursor);
    schedule.add_after(Trigger::Always, System::CameraFollow, System::OrbMoveToPlayer);
    schedule.add(Trigger::Startup, System::SpawnCamera);
    schedule.add(Trigger::Always, System::OrbMoveToPlayer);
    assert_eq!(
        schedule.entries[1],
        Entry {
            trigger: Trigger::Always,
            system: System::CameraFollow,
            after: Some(System::OrbMoveToPlayer)
        }
    );
    assert_eq!(
        schedule.due(Trigger::Always),
        vec![System::UpdateCursor, System::OrbMoveToPlayer, System::CameraFollow]
    );
    assert_eq!(schedule.due(Trigger::Startup), vec![System::SpawnCamera]);
    assert_eq!(schedule.due(Trigger::PostUpdate), Vec::new());
    assert_eq!(schedule.due(Trigger::OnEnter(GameState::MainMenu)), Vec::new());
}

#[test]
fn plugins_enter_their_systems() {
    let mut schedule = Schedule::new();
    ExpPlugin.build(&mut schedule);
    GameCameraPlugin.build(&mut schedule);
    assert_eq!(schedule.entries.len(), 4);
    assert_eq!(schedule.due(Trigger::Always), vec![System::OrbMoveToPlayer, System::UpdateCursor]);
    assert_eq!(schedule.due(Trigger::PostUpdate), vec![System::CameraFollow]);
    let mut schedule = Schedule::new();
    GameAnimationPlugin.build(&mut schedule);
    AttackPlugin.build(&mut schedule);
    EnemyPlugin.build(&mut schedule);
    PlayerPlugin.build(&mut schedule);
    GameUiPlugin.build(&mut schedule);
    UpgradePlugin.build(&mut schedule);
    assert_eq!(schedule.entries.len(), 4 + 6 + 5 + 6 + 18 + 4);
    assert_eq!(
        schedule.due(Trigger::OnEnter(GameState::LevelUp)),
        vec![System::SpawnParticles, System::SpawnLevelUpUi]
    );
}

#[test]
fn game_schedule_by_moment() {
    let schedule = build_schedule();
    assert_eq!(schedule.entries.len(), 50);
    assert_eq!(
        schedule.due(Trigger::Startup),
        vec![System::SpawnCamera, System::SpawnAboutUi, System::SpawnBackground]
    );
    assert_eq!(
        schedule.due(Trigger::OnEnter(GameState::StartingLoop)),
        vec![System::SpawnHeaderUi, System::SpawnPlayerUi, System::SpawnPlayer]
    );
    assert_eq!(schedule.due(Trigger::OnUpdate(GameState::StartingLoop)), vec![System::AdvanceState]);
    assert_eq!(
        schedule.due(Trigger::OnEnter(GameState::GameOver)),
        vec![System::SpawnGameOverUi, System::DespawnGamePlay]
    );
    assert_eq!(
        schedule.due(Trigger::OnExit(GameState::LevelUp)),
        vec![System::DespawnLevelUpUi, System::DespawnParticles]
    );
    assert_eq!(schedule.due(Trigger::OnUpdate(GameState::LevelUp)), vec![System::UpdateParticles]);
    assert_eq!(schedule.due(Trigger::OnUpdate(GameState::MainMenu)), Vec::new());
    assert_eq!(
        schedule.due(Trigger::Always),
        vec![
            System::OrbMoveToPlayer,
            System::UpdateCursor,
            System::LevelUpButtonSystem,
            System::AboutButtonSystem,
            System::AboutBackButtonSystem,
            System::ShowAboutUi,
            System::StartButtonSystem,
            System::GameOverButtonSystem,
            System::UpdateWorldText,
            System::TwoFrameAnimation,
        ]
    );
}

#[test]
fn play_runs_its_systems_in_order() {
    let due = build_schedule().due(Trigger::OnUpdate(GameState::Gameplay));
    assert_eq!(
        due,
        vec![
            System::ApplyPlayerUpgrade,
            System::ApplyAreaShotUpgrade,
            System::ApplyCloseShotUpgrade,
            System::WhipAttackFacing,
            System::WhipAttack,
            System::CloseShotAttack,
            System::CloseShotBullet,
            System::AreaShotAttack,
            System::AreaShotBullet,
            System::PlayerHealthUiSync,
            System::PlayerExpUiSync,
            System::PlayerMovement,
            System::PlayerExpStartPickup,
            System::PlayerGainExp,
            System::PlayerLevelUp,
            System::PlayerGameOver,
            System::EnemyDeathCheck,
            System::EnemyMovement,
            System::SpawnEnemy,
            System::DespawnEnemy,
            System::ApplyWhipUpgrade,
            System::EnemyDamagePlayer,
        ]
    );
    let place = |system: System| due.iter().position(|s| *s == system).unwrap();
    assert!(place(System::EnemyMovement) < place(System::EnemyDamagePlayer));
    assert!(place(System::WhipAttackFacing) < place(System::ApplyWhipUpgrade));
}
