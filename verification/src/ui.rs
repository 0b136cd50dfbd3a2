//! What the player sees beside the sprites: the damage numbers, the bars,
//! the buttons and the choice of upgrades.

use crate::fixed::{cap_u32, Vec2};
use crate::model::{
    GameState, UpgradeSelected, WeaponUpgrade, World, WorldTextUI, WorldView, UPGRADE_COUNT,
};
use crate::random::draw_index;
use crate::schedule::{Entry, Schedule, System, Trigger};
use crate::timer::{Timer, TimerMode};
use turborand::rng::Rng;
use vstd::prelude::*;

verus! {

/// The pages, the buttons, the bars and the damage numbers.
#[derive(Clone, Copy, Debug)]
pub struct GameUiPlugin;

impl GameUiPlugin {
    /// The systems of this plugin with their moments, in the order in
    /// which they are entered.
    pub open spec fn entries() -> Seq<Entry> {
        seq![
            Entry {
                trigger: Trigger::OnEnter(GameState::StartingLoop),
                system: System::SpawnHeaderUi,
                after: None,
            },
            Entry {
                trigger: Trigger::OnEnter(GameState::StartingLoop),
                system: System::SpawnPlayerUi,
                after: None,
            },
            Entry {
                trigger: Trigger::OnEnter(GameState::LevelUp),
                system: System::SpawnLevelUpUi,
                after: None,
            },
            Entry {
                trigger: Trigger::OnExit(GameState::LevelUp),
                system: System::DespawnLevelUpUi,
                after: None,
            },
            Entry {
                trigger: Trigger::OnEnter(GameState::MainMenu),
                system: System::SpawnMainMenuUi,
                after: None,
            },
            Entry {
                trigger: Trigger::OnExit(GameState::MainMenu),
                system: System::DespawnMainMenuUi,
                after: None,
            },
            Entry {
                trigger: Trigger::OnEnter(GameState::GameOver),
                system: System::SpawnGameOverUi,
                after: None,
            },
            Entry {
                trigger: Trigger::OnExit(GameState::GameOver),
                system: System::DespawnGameOverUi,
                after: None,
            },
            Entry { trigger: Trigger::Always, system: System::LevelUpButtonSystem, after: None },
            Entry { trigger: Trigger::Always, system: System::AboutButtonSystem, after: None },
            Entry { trigger: Trigger::Always, system: System::AboutBackButtonSystem, after: None },
            Entry { trigger: Trigger::Always, system: System::ShowAboutUi, after: None },
            Entry { trigger: Trigger::Startup, system: System::SpawnAboutUi, after: None },
            Entry { trigger: Trigger::Always, system: System::StartButtonSystem, after: None },
            Entry { trigger: Trigger::Always, system: System::GameOverButtonSystem, after: None },
            Entry { trigger: Trigger::Always, system: System::UpdateWorldText, after: None },
            Entry {
                trigger: Trigger::OnUpdate(GameState::Gameplay),
                system: System::PlayerHealthUiSync,
                after: None,
            },
            Entry {
                trigger: Trigger::OnUpdate(GameState::Gameplay),
                system: System::PlayerExpUiSync,
                after: None,
            },
        ]
    }

    /// Enters the systems of this plugin into `schedule`.
    pub fn build(&self, schedule: &mut Schedule)
        ensures
            final(schedule)@ == old(schedule)@ + GameUiPlugin::entries(),
    {
        schedule.add(Trigger::OnEnter(GameState::StartingLoop), System::SpawnHeaderUi);
        schedule.add(Trigger::OnEnter(GameState::StartingLoop), System::SpawnPlayerUi);
        schedule.add(Trigger::OnEnter(GameState::LevelUp), System::SpawnLevelUpUi);
        schedule.add(Trigger::OnExit(GameState::LevelUp), System::DespawnLevelUpUi);
        schedule.add(Trigger::OnEnter(GameState::MainMenu), System::SpawnMainMenuUi);
        schedule.add(Trigger::OnExit(GameState::MainMenu), System::DespawnMainMenuUi);
        schedule.add(Trigger::OnEnter(GameState::GameOver), System::SpawnGameOverUi);
        schedule.add(Trigger::OnExit(GameState::GameOver), System::DespawnGameOverUi);
        schedule.add(Trigger::Always, System::LevelUpButtonSystem);
        schedule.add(Trigger::Always, System::AboutButtonSystem);
        schedule.add(Trigger::Always, System::AboutBackButtonSystem);
        schedule.add(Trigger::Always, System::ShowAboutUi);
        schedule.add(Trigger::Startup, System::SpawnAboutUi);
        schedule.add(Trigger::Always, System::StartButtonSystem);
        schedule.add(Trigger::Always, System::GameOverButtonSystem);
        schedule.add(Trigger::Always, System::UpdateWorldText);
        schedule.add(Trigger::OnUpdate(GameState::Gameplay), System::PlayerHealthUiSync);
        schedule.add(Trigger::OnUpdate(GameState::Gameplay), System::PlayerExpUiSync);
        assert(schedule@ =~= old(schedule)@ + GameUiPlugin::entries());
    }
}

/// How long a damage number stays, in microseconds.
pub const TEXT_LIFETIME: u64 = 500_000;

/// The drift of a damage number to the right, in thousandths of a unit per second.
pub const TEXT_VELOCITY_X: i32 = 150;

/// The rise of a damage number, in thousandths of a unit per second.
pub const TEXT_VELOCITY_Y: i32 = 1_500;

/// Where a damage number starts, seen from the place of the hit: to the left.
pub const TEXT_OFFSET_X: i32 = -200_000;

/// Where a damage number starts, seen from the place of the hit: above.
pub const TEXT_OFFSET_Y: i32 = 1_400_000;

/// The damage number `amount` as it is spawned for a hit at `position`.
pub open spec fn new_world_text(id: u64, position: Vec2, amount: u64) -> WorldTextUI {
    WorldTextUI {
        id,
        lifetime: Timer::started(TEXT_LIFETIME, TimerMode::Once),
        velocity: Vec2 { x: TEXT_VELOCITY_X, y: TEXT_VELOCITY_Y },
        position: position.shifted(TEXT_OFFSET_X as int, TEXT_OFFSET_Y as int),
        amount,
    }
}

/// The world with one more damage number; unchanged where no identifier is left.
pub open spec fn world_text_spawned(w: WorldView, position: Vec2, amount: u64) -> WorldView {
    if w.can_spawn() {
        WorldView {
            texts: w.texts.push(new_world_text(w.next_id, position, amount)),
            ..w.allocated()
        }
    } else {
        w
    }
}

/// Spawns the damage number `amount` for a hit at `position`.
pub fn spawn_world_text(world: &mut World, position: Vec2, amount: u64)
    ensures
        final(world)@ == world_text_spawned(old(world)@, position, amount),
{
    if let Some(id) = world.allocate() {
        let text = WorldTextUI {
            id,
            lifetime: Timer::new(TEXT_LIFETIME, TimerMode::Once),
            velocity: Vec2::new(TEXT_VELOCITY_X, TEXT_VELOCITY_Y),
            position: position.shift(TEXT_OFFSET_X as i64, TEXT_OFFSET_Y as i64),
            amount,
        };
        world.texts.push(text);
    }
}

/// The damage number after `dt` microseconds: older, and drifted on.
pub open spec fn text_floated(text: WorldTextUI, dt: u64) -> WorldTextUI {
    WorldTextUI {
        lifetime: text.lifetime.ticked(dt),
        position: text.position.drifted(text.velocity, dt),
        ..text
    }
}

/// The damage numbers that stay: those whose time is not up.
pub open spec fn text_stays() -> spec_fn(WorldTextUI) -> bool {
    |text: WorldTextUI| !text.lifetime.finished_this_tick
}

/// The world after the damage numbers have floated for `dt`; those whose
/// time is up are gone.
pub open spec fn update_world_text_done(w: WorldView, dt: u64) -> WorldView {
    WorldView {
        texts: Seq::new(w.texts.len(), |i: int| text_floated(w.texts[i], dt)).filter(text_stays()),
        ..w
    }
}

/// Lets the damage numbers float for `dt` microseconds and removes those
/// whose time is up.
pub fn update_world_text(world: &mut World, dt: u64)
    ensures
        final(world)@ == update_world_text_done(old(world)@, dt),
{
    let count: usize = world.texts.len();
    let ghost floated = Seq::new(
        old(world)@.texts.len(),
        |i: int| text_floated(old(world)@.texts[i], dt),
    );
    let mut kept: Vec<WorldTextUI> = Vec::new();
    let mut i: usize = 0;
    while i < count
        invariant
            0 <= i <= count,
            count == old(world)@.texts.len(),
            world@ == old(world)@,
            floated == Seq::new(
                old(world)@.texts.len(),
                |i: int| text_floated(old(world)@.texts[i], dt),
            ),
            kept@ == floated.take(i as int).filter(text_stays()),
        decreases count - i,
    {
        let mut text: WorldTextUI = world.texts[i];
        text.lifetime.tick(dt);
        text.position = text.position.drift_by(text.velocity, dt);
        proof {
            assert(floated.take(i + 1).drop_last() == floated.take(i as int));
            assert(floated.take(i + 1).last() == text);
            reveal(Seq::filter);
        }
        if !text.lifetime.just_finished() {
            kept.push(text);
        }
        i += 1;
    }
    assert(floated.take(count as int) == floated);
    world.texts = kept;
}

/// What the pointer does to a button.
#[derive(Clone, Copy, PartialEq, Eq, Structural, Debug)]
pub enum Interaction {
    /// The button is being pressed.
    Clicked,
    /// The pointer is over the button.
    Hovered,
    /// The pointer is elsewhere.
    Idle,
}

/// The fill colours of a button.
#[derive(Clone, Copy, PartialEq, Eq, Structural, Debug)]
pub enum ButtonColor {
    Red,
    Green,
    DarkGreen,
}

/// The colour that shows what the pointer does to a button.
pub open spec fn button_color(interaction: Interaction) -> ButtonColor {
    match interaction {
        Interaction::Clicked => ButtonColor::Red,
        Interaction::Hovered => ButtonColor::Green,
        Interaction::Idle => ButtonColor::DarkGreen,
    }
}

/// Computes [`button_color`].
pub fn compute_button_color(interaction: Interaction) -> (r: ButtonColor)
    ensures
        r == button_color(interaction),
{
    match interaction {
        Interaction::Clicked => ButtonColor::Red,
        Interaction::Hovered => ButtonColor::Green,
        Interaction::Idle => ButtonColor::DarkGreen,
    }
}

/// The world after the button of the upgrade `weapon` has seen
/// `interaction`: a click chooses the upgrade and asks for the return to play.
pub open spec fn level_up_button_done(
    w: WorldView,
    weapon: WeaponUpgrade,
    interaction: Interaction,
) -> WorldView {
    if interaction == Interaction::Clicked {
        WorldView {
            next_state: Some(GameState::Gameplay),
            upgrades: w.upgrades.push(UpgradeSelected(weapon)),
            ..w
        }
    } else {
        w
    }
}

/// Handles a button of the level-up page; returns its new colour.
pub fn level_up_button_system(
    world: &mut World,
    weapon: WeaponUpgrade,
    interaction: Interaction,
) -> (r: ButtonColor)
    ensures
        final(world)@ == level_up_button_done(old(world)@, weapon, interaction),
        r == button_color(interaction),
{
    match interaction {
        Interaction::Clicked => {
            world.next_state = Some(GameState::Gameplay);
            world.upgrades.push(UpgradeSelected(weapon));
        },
        _ => {},
    }
    compute_button_color(interaction)
}

/// The world after the start button has seen `interaction`: a click asks
/// for the start of a round, unless the about page covers the button.
pub open spec fn start_button_done(w: WorldView, interaction: Interaction) -> WorldView {
    if !w.about_shown && interaction == Interaction::Clicked {
        WorldView { next_state: Some(GameState::StartingLoop), ..w }
    } else {
        w
    }
}

/// Handles the start button; returns its new colour, or `None` while the
/// about page covers it.
pub fn start_button_system(world: &mut World, interaction: Interaction) -> (r: Option<ButtonColor>)
    ensures
        final(world)@ == start_button_done(old(world)@, interaction),
        r == if old(world).about_shown {
            None
        } else {
            Some(button_color(interaction))
        },
{
    if world.about_shown {
        return None;
    }
    match interaction {
        Interaction::Clicked => {
            world.next_state = Some(GameState::StartingLoop);
        },
        _ => {},
    }
    Some(compute_button_color(interaction))
}

/// The world after the about button has seen `interaction`: a click opens
/// the about page, unless it is open.
pub open spec fn about_button_done(w: WorldView, interaction: Interaction) -> WorldView {
    if !w.about_shown && interaction == Interaction::Clicked {
        WorldView { about_shown: true, ..w }
    } else {
        w
    }
}

/// Handles the about button; returns its new colour, or `None` while the
/// about page covers it.
pub fn about_button_system(world: &mut World, interaction: Interaction) -> (r: Option<ButtonColor>)
    ensures
        final(world)@ == about_button_done(old(world)@, interaction),
        r == if old(world).about_shown {
            None
        } else {
            Some(button_color(interaction))
        },
{
    if world.about_shown {
        return None;
    }
    match interaction {
        Interaction::Clicked => {
            world.about_shown = true;
        },
        _ => {},
    }
    Some(compute_button_color(interaction))
}

/// The world after the back button of the about page has seen
/// `interaction`: a click closes the page, if it is open.
pub open spec fn about_back_button_done(w: WorldView, interaction: Interaction) -> WorldView {
    if w.about_shown && interaction == Interaction::Clicked {
        WorldView { about_shown: false, ..w }
    } else {
        w
    }
}

/// Handles the back button of the about page; returns its new colour, or
/// `None` while the page is closed.
pub fn about_back_button_system(world: &mut World, interaction: Interaction) -> (r: Option<
    ButtonColor,
>)
    ensures
        final(world)@ == about_back_button_done(old(world)@, interaction),
        r == if old(world).about_shown {
            Some(button_color(interaction))
        } else {
            None
        },
{
    if !world.about_shown {
        return None;
    }
    match interaction {
        Interaction::Clicked => {
            world.about_shown = false;
        },
        _ => {},
    }
    Some(compute_button_color(interaction))
}

/// Whether the about page is to be seen.
pub fn show_about_ui(world: &World) -> (r: bool)
    ensures
        r == world.about_shown,
{
    world.about_shown
}

/// The world after the button of the game-over page has seen
/// `interaction`: a click asks for the main menu.
pub open spec fn game_over_button_done(w: WorldView, interaction: Interaction) -> WorldView {
    if interaction == Interaction::Clicked {
        WorldView { next_state: Some(GameState::MainMenu), ..w }
    } else {
        w
    }
}

/// Handles the button of the game-over page; returns its new colour.
pub fn game_over_button_system(world: &mut World, interaction: Interaction) -> (r: ButtonColor)
    ensures
        final(world)@ == game_over_button_done(old(world)@, interaction),
        r == button_color(interaction),
{
    match interaction {
        Interaction::Clicked => {
            world.next_state = Some(GameState::MainMenu);
        },
        _ => {},
    }
    compute_button_color(interaction)
}

/// The place, in the order of all upgrades, of the second of two upgrades
/// drawn without replacement: `first` is the place of the first, `second`
/// the place of the second among those that are left.
pub open spec fn second_place(first: int, second: int) -> int {
    if second >= first {
        second + 1
    } else {
        second
    }
}

/// The two upgrades on offer for the draws `first` (counted modulo the
/// number of upgrades) and `second` (counted modulo the number that is
/// left after the first).
pub open spec fn offered(first: usize, second: usize) -> Seq<WeaponUpgrade> {
    let a = first as int % UPGRADE_COUNT as int;
    let b = second as int % (UPGRADE_COUNT - 1);
    seq![WeaponUpgrade::at(a), WeaponUpgrade::at(second_place(a, b))]
}

/// The two upgrades on offer are never the same.
pub proof fn lemma_offered_distinct(first: usize, second: usize)
    ensures
        offered(first, second).len() == 2,
        offered(first, second)[0] != offered(first, second)[1],
{
}

/// Every pair of different upgrades is on offer for some draws in range:
/// the draw leaves no pair out.
pub proof fn lemma_offered_covers(a: WeaponUpgrade, b: WeaponUpgrade)
    requires
        a != b,
    ensures
        exists|first: usize, second: usize|
            first < UPGRADE_COUNT && second < UPGRADE_COUNT - 1 && #[trigger] offered(first, second)
                == seq![a, b],
{
    let first = a.ordinal() as usize;
    let second = (if b.ordinal() > a.ordinal() {
        b.ordinal() - 1
    } else {
        b.ordinal()
    }) as usize;
    assert(offered(first, second) =~= seq![a, b]);
}

/// The world with the level-up page open on the two upgrades that the
/// draws pick.
pub open spec fn spawn_level_up_ui_done(w: WorldView, first: usize, second: usize) -> WorldView {
    WorldView { level_up_options: offered(first, second), ..w }
}

/// Opens the level-up page on the two upgrades that the draws pick.
pub fn spawn_level_up_ui_with(world: &mut World, first: usize, second: usize)
    ensures
        final(world)@ == spawn_level_up_ui_done(old(world)@, first, second),
{
    let a: usize = first % UPGRADE_COUNT;
    let b: usize = second % (UPGRADE_COUNT - 1);
    let other: usize = if b >= a {
        b + 1
    } else {
        b
    };
    let mut options: Vec<WeaponUpgrade> = Vec::new();
    options.push(WeaponUpgrade::from_index(a));
    options.push(WeaponUpgrade::from_index(other));
    assert(options@ =~= offered(first, second));
    world.level_up_options = options;
}

/// Opens the level-up page on two different upgrades drawn from `rng`: for
/// some draws in range, the world is as [`spawn_level_up_ui_done`] says.
pub fn spawn_level_up_ui(world: &mut World, rng: &Rng)
    ensures
        exists|first: usize, second: usize|
            first < UPGRADE_COUNT && second < UPGRADE_COUNT - 1 && final(world)@
                == #[trigger] spawn_level_up_ui_done(old(world)@, first, second),
{
    let first: usize = match draw_index(rng, UPGRADE_COUNT) {
        Some(i) => i,
        None => 0,
    };
    let second: usize = match draw_index(rng, UPGRADE_COUNT - 1) {
        Some(i) => i,
        None => 0,
    };
    spawn_level_up_ui_with(world, first, second);
}

/// The world with the level-up page closed.
pub open spec fn despawn_level_up_ui_done(w: WorldView) -> WorldView {
    WorldView { level_up_options: Seq::empty(), ..w }
}

/// Closes the level-up page.
pub fn despawn_level_up_ui(world: &mut World)
    ensures
        final(world)@ == despawn_level_up_ui_done(old(world)@),
{
    world.level_up_options = Vec::new();
}

/// The share that `part` has of `whole`, in millionths, rounded down and
/// cut off at the `u32` range; zero where `whole` is zero.
pub open spec fn bar_fill(part: u64, whole: u64) -> u32 {
    if whole == 0 {
        0
    } else {
        cap_u32((part * 1_000_000) / (whole as int)) as u32
    }
}

/// Computes [`bar_fill`].
pub fn compute_bar_fill(part: u64, whole: u64) -> (r: u32)
    ensures
        r == bar_fill(part, whole),
{
    if whole == 0 {
        return 0;
    }
    let fill: u128 = ((part as u128) * 1_000_000) / (whole as u128);
    if fill > u32::MAX as u128 {
        u32::MAX
    } else {
        fill as u32
    }
}

/// How full the health bar is: the player's health as a share of the
/// maximum health, in millionths. `None` without a player.
pub fn player_health_ui_sync(world: &World) -> (r: Option<u32>)
    ensures
        r == match world@.player {
            Some(player) => Some(bar_fill(player.health, player.max_health)),
            None => None,
        },
{
    match world.player {
        Some(player) => Some(compute_bar_fill(player.health, player.max_health)),
        None => None,
    }
}

/// How full the experience bar is: the player's experience as a share of
/// the level threshold, in millionths. `None` without a player.
pub fn player_exp_ui_sync(world: &World) -> (r: Option<u32>)
    ensures
        r == match world@.player {
            Some(player) => Some(bar_fill(player.exp, player.next_level_exp)),
            None => None,
        },
{
    match world.player {
        Some(player) => Some(compute_bar_fill(player.exp, player.next_level_exp)),
        None => None,
    }
}

} // verus!
