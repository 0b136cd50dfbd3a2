//! The course of a session: the phases and their changes, the standard
//! waves, and the plan of a frame.

use crate::animation::GameAnimationPlugin;
use crate::attack::AttackPlugin;
use crate::camera::GameCameraPlugin;
use crate::enemy::EnemyPlugin;
use crate::exp::ExpPlugin;
use crate::model::{EnemyTemplate, GameState, Wave, World, WorldView};
use crate::player::PlayerPlugin;
use crate::schedule::{due_systems, lemma_due_respects_after, Entry, Schedule, System, Trigger};
use crate::timer::{Timer, TimerMode};
use crate::ui::GameUiPlugin;
use crate::upgrade::UpgradePlugin;
use vstd::prelude::*;

verus! {

/// The three waves of the standard game: a steady trickle, a swarm of
/// weak runners, and a rare crowd of slow and tough enemies.
pub open spec fn standard_wave_list() -> Seq<Wave> {
    seq![
        Wave {
            next_spawn: Timer::started(900_000, TimerMode::Repeating),
            wave_size: 3,
            to_spawn: EnemyTemplate {
                speed: 1_300,
                health: 5_000_000_000,
                asset: 0,
                damage_per_second: 10_000,
            },
        },
        Wave {
            next_spawn: Timer::started(200_000, TimerMode::Repeating),
            wave_size: 1,
            to_spawn: EnemyTemplate {
                speed: 1_800,
                health: 1_000_000_000,
                asset: 1,
                damage_per_second: 3_000,
            },
        },
        Wave {
            next_spawn: Timer::started(10_000_000, TimerMode::Repeating),
            wave_size: 10,
            to_spawn: EnemyTemplate {
                speed: 300,
                health: 30_000_000_000,
                asset: 2,
                damage_per_second: 10_000,
            },
        },
    ]
}

/// Makes the waves of the standard game.
pub fn standard_waves() -> (r: Vec<Wave>)
    ensures
        r@ == standard_wave_list(),
{
    let mut waves: Vec<Wave> = Vec::new();
    waves.push(
        Wave {
            next_spawn: Timer::new(900_000, TimerMode::Repeating),
            wave_size: 3,
            to_spawn: EnemyTemplate {
                speed: 1_300,
                health: 5_000_000_000,
                asset: 0,
                damage_per_second: 10_000,
            },
        },
    );
    waves.push(
        Wave {
            next_spawn: Timer::new(200_000, TimerMode::Repeating),
            wave_size: 1,
            to_spawn: EnemyTemplate {
                speed: 1_800,
                health: 1_000_000_000,
                asset: 1,
                damage_per_second: 3_000,
            },
        },
    );
    waves.push(
        Wave {
            next_spawn: Timer::new(10_000_000, TimerMode::Repeating),
            wave_size: 10,
            to_spawn: EnemyTemplate {
                speed: 300,
                health: 30_000_000_000,
                asset: 2,
                damage_per_second: 10_000,
            },
        },
    );
    assert(waves@ =~= standard_wave_list());
    waves
}

/// The world with play asked for.
pub open spec fn advance_state_done(w: WorldView) -> WorldView {
    WorldView { next_state: Some(GameState::Gameplay), ..w }
}

/// Asks for play: the step from the start of a round to the round itself.
pub fn advance_state(world: &mut World)
    ensures
        final(world)@ == advance_state_done(old(world)@),
{
    world.next_state = Some(GameState::Gameplay);
}

/// The world after the round is cleared away: the player is gone, and with
/// the player the weapons; so are the enemies, the damage zones and the
/// orbs. Bullets in flight and damage numbers stay until their time is up.
pub open spec fn despawn_game_play_done(w: WorldView) -> WorldView {
    WorldView {
        player: None,
        enemies: Seq::empty(),
        whips: Seq::empty(),
        close_shots: Seq::empty(),
        area_shots: Seq::empty(),
        area_shot_bullets: Seq::empty(),
        orbs: Seq::empty(),
        ..w
    }
}

/// Clears the round away.
pub fn despawn_game_play(world: &mut World)
    ensures
        final(world)@ == despawn_game_play_done(old(world)@),
{
    world.player = None;
    world.enemies = Vec::new();
    world.whips = Vec::new();
    world.close_shots = Vec::new();
    world.area_shots = Vec::new();
    world.area_shot_bullets = Vec::new();
    world.orbs = Vec::new();
}

/// A change of phase.
#[derive(Clone, Copy, PartialEq, Eq, Structural, Debug)]
pub struct Transition {
    pub exited: GameState,
    pub entered: GameState,
}

/// The world after the phase asked for has been entered.
pub open spec fn transition_applied(w: WorldView) -> WorldView {
    match w.next_state {
        Some(entered) => WorldView { state: entered, next_state: None, ..w },
        None => w,
    }
}

/// Enters the phase asked for, if one is; returns the change made. A phase
/// that is asked for while it is the current one is left and entered again.
pub fn apply_state_transition(world: &mut World) -> (r: Option<Transition>)
    ensures
        final(world)@ == transition_applied(old(world)@),
        r == match old(world).next_state {
            Some(entered) => Some(Transition { exited: old(world).state, entered }),
            None => None,
        },
{
    match world.next_state {
        Some(entered) => {
            let exited: GameState = world.state;
            world.state = entered;
            world.next_state = None;
            Some(Transition { exited, entered })
        },
        None => None,
    }
}

/// The moments of a frame in their order: the change of phase, if there is
/// one, with the exit before the entry; then what runs in every frame; then
/// what runs in the current phase; then what runs last.
pub open spec fn frame_moments(state: GameState, change: Option<Transition>) -> Seq<Trigger> {
    let body = seq![Trigger::Always, Trigger::OnUpdate(state), Trigger::PostUpdate];
    match change {
        Some(t) => seq![Trigger::OnExit(t.exited), Trigger::OnEnter(t.entered)] + body,
        None => body,
    }
}

/// Begins a frame: enters the phase asked for and returns the moments of
/// the frame in their order.
pub fn begin_frame(world: &mut World) -> (r: Vec<Trigger>)
    ensures
        final(world)@ == transition_applied(old(world)@),
        r@ == frame_moments(
            final(world).state,
            match old(world).next_state {
                Some(entered) => Some(Transition { exited: old(world).state, entered }),
                None => None,
            },
        ),
{
    let change = apply_state_transition(world);
    let mut moments: Vec<Trigger> = Vec::new();
    if let Some(t) = change {
        moments.push(Trigger::OnExit(t.exited));
        moments.push(Trigger::OnEnter(t.entered));
    }
    moments.push(Trigger::Always);
    moments.push(Trigger::OnUpdate(world.state));
    moments.push(Trigger::PostUpdate);
    assert(moments@ =~= frame_moments(world.state, change));
    moments
}

/// The moments before the first frame: the start, then the entry into the
/// first phase.
pub fn startup_moments(world: &World) -> (r: Vec<Trigger>)
    ensures
        r@ == seq![Trigger::Startup, Trigger::OnEnter(world.state)],
{
    let mut moments: Vec<Trigger> = Vec::new();
    moments.push(Trigger::Startup);
    moments.push(Trigger::OnEnter(world.state));
    moments
}

/// The systems that the game itself enters, beside those of its plugins.
pub open spec fn game_entries() -> Seq<Entry> {
    seq![
        Entry { trigger: Trigger::Startup, system: System::SpawnBackground, after: None },
        Entry {
            trigger: Trigger::OnUpdate(GameState::StartingLoop),
            system: System::AdvanceState,
            after: None,
        },
        Entry {
            trigger: Trigger::OnEnter(GameState::GameOver),
            system: System::DespawnGamePlay,
            after: None,
        },
    ]
}

/// The schedule of the whole game.
pub open spec fn game_schedule() -> Seq<Entry> {
    UpgradePlugin::entries() + ExpPlugin::entries() + GameCameraPlugin::entries()
        + AttackPlugin::entries() + GameUiPlugin::entries() + GameAnimationPlugin::entries()
        + PlayerPlugin::entries() + EnemyPlugin::entries() + game_entries()
}

/// Builds the schedule of the whole game: the plugins, then the game's
/// own systems.
pub fn build_schedule() -> (r: Schedule)
    ensures
        r@ == game_schedule(),
{
    let mut schedule = Schedule::new();
    UpgradePlugin.build(&mut schedule);
    ExpPlugin.build(&mut schedule);
    GameCameraPlugin.build(&mut schedule);
    AttackPlugin.build(&mut schedule);
    GameUiPlugin.build(&mut schedule);
    GameAnimationPlugin.build(&mut schedule);
    PlayerPlugin.build(&mut schedule);
    EnemyPlugin.build(&mut schedule);
    schedule.add(Trigger::Startup, System::SpawnBackground);
    schedule.add(Trigger::OnUpdate(GameState::StartingLoop), System::AdvanceState);
    schedule.add(Trigger::OnEnter(GameState::GameOver), System::DespawnGamePlay);
    assert(schedule@ =~= game_schedule());
    schedule
}

/// During play the enemies hurt the player only after they have moved, and
/// a whip upgrade is applied only after the whip has followed the player.
pub proof fn lemma_play_order()
    ensures
        ({
            let due = due_systems(game_schedule(), Trigger::OnUpdate(GameState::Gameplay));
            &&& exists|a: int, b: int|
                0 <= a < b < due.len() && due[a] == System::EnemyMovement && due[b]
                    == System::EnemyDamagePlayer
            &&& exists|a: int, b: int|
                0 <= a < b < due.len() && due[a] == System::WhipAttackFacing && due[b]
                    == System::ApplyWhipUpgrade
        }),
{
    let entries = game_schedule();
    let play = Trigger::OnUpdate(GameState::Gameplay);
    let upgrade = UpgradePlugin::entries();
    let exp = ExpPlugin::entries();
    let camera = GameCameraPlugin::entries();
    let attack = AttackPlugin::entries();
    let ui = GameUiPlugin::entries();
    let animation = GameAnimationPlugin::entries();
    let player = PlayerPlugin::entries();
    let enemy = EnemyPlugin::entries();
    assert(upgrade.len() == 4 && exp.len() == 1 && camera.len() == 3 && attack.len() == 6);
    assert(ui.len() == 18 && animation.len() == 4 && player.len() == 6 && enemy.len() == 5);
    assert(entries.len() == 50);
    assert(entries[1] == upgrade[1]);
    assert(entries[8] == attack[0]);
    assert(entries[43] == enemy[1]);
    assert(entries[46] == enemy[4]);
    lemma_due_respects_after(entries, play, 43, 46);
    lemma_due_respects_after(entries, play, 8, 1);
}

} // verus!
