//! The player: movement, experience, levels, and the end of the round.

use crate::attack::{spawn_whip, whip_spawned};
use crate::fixed::{cap_u64, compute_step_length, step_length, Vec2};
use crate::model::{
    contains_id, ExpOrb, Facing, GameState, Player, TwoFrameAnimation, World, WorldView,
};
use crate::schedule::{Entry, Schedule, System, Trigger};
use crate::timer::{Timer, TimerMode};
use vstd::prelude::*;

verus! {

/// The player: spawned at the start of a round, active during play.
#[derive(Clone, Copy, Debug)]
pub struct PlayerPlugin;

impl PlayerPlugin {
    /// The systems of this plugin with their moments, in the order in
    /// which they are entered.
    pub open spec fn entries() -> Seq<Entry> {
        seq![
            Entry {
                trigger: Trigger::OnEnter(GameState::StartingLoop),
                system: System::SpawnPlayer,
                after: None,
            },
            Entry {
                trigger: Trigger::OnUpdate(GameState::Gameplay),
                system: System::PlayerMovement,
                after: None,
            },
            Entry {
                trigger: Trigger::OnUpdate(GameState::Gameplay),
                system: System::PlayerExpStartPickup,
                after: None,
            },
            Entry {
                trigger: Trigger::OnUpdate(GameState::Gameplay),
                system: System::PlayerGainExp,
                after: None,
            },
            Entry {
                trigger: Trigger::OnUpdate(GameState::Gameplay),
                system: System::PlayerLevelUp,
                after: None,
            },
            Entry {
                trigger: Trigger::OnUpdate(GameState::Gameplay),
                system: System::PlayerGameOver,
                after: None,
            },
        ]
    }

    /// Enters the systems of this plugin into `schedule`.
    pub fn build(&self, schedule: &mut Schedule)
        ensures
            final(schedule)@ == old(schedule)@ + PlayerPlugin::entries(),
    {
        schedule.add(Trigger::OnEnter(GameState::StartingLoop), System::SpawnPlayer);
        schedule.add(Trigger::OnUpdate(GameState::Gameplay), System::PlayerMovement);
        schedule.add(Trigger::OnUpdate(GameState::Gameplay), System::PlayerExpStartPickup);
        schedule.add(Trigger::OnUpdate(GameState::Gameplay), System::PlayerGainExp);
        schedule.add(Trigger::OnUpdate(GameState::Gameplay), System::PlayerLevelUp);
        schedule.add(Trigger::OnUpdate(GameState::Gameplay), System::PlayerGameOver);
        assert(schedule@ =~= old(schedule)@ + PlayerPlugin::entries());
    }
}

/// The experience at which a new player reaches the second level.
pub const FIRST_LEVEL_EXP: u64 = 5;

/// The speed of a new player, in thousandths of a unit per second.
pub const PLAYER_SPEED: u32 = 3_000;

/// The health of a new player, in billionths of a point.
pub const PLAYER_HEALTH: u64 = 100_000_000_000;

/// The time between two images of the player, in microseconds.
pub const PLAYER_ANIMATION_PERIOD: u64 = 300_000;

/// How far from the origin the player can go in each coordinate, in
/// millionths of a unit.
pub const PLAYER_LIMIT: i32 = 175_000_000;

/// How near an orb must be to be picked up, in millionths of a unit.
pub const PICKUP_DISTANCE: u32 = 300_000;

/// The growth of the level threshold with each level, as a fraction of ten.
pub const THRESHOLD_GROWTH_TENTHS: u64 = 14;

/// The player as the round starts: at the origin, at full health, on the
/// first level, facing left.
pub open spec fn new_player(id: u64) -> Player {
    Player {
        id,
        position: Vec2 { x: 0, y: 0 },
        flip_x: false,
        exp: 0,
        next_level_exp: FIRST_LEVEL_EXP,
        level: 1,
        speed: PLAYER_SPEED,
        health: PLAYER_HEALTH,
        max_health: PLAYER_HEALTH,
        facing: Facing::Left,
        animation: TwoFrameAnimation {
            current_frame: false,
            shown_frame: false,
            timer: Timer::started(PLAYER_ANIMATION_PERIOD, TimerMode::Repeating),
        },
    }
}

/// The world after the round has started: there is one more whip, and the
/// new player has taken the place of any player there was. Where the
/// identifiers run out, what could not be made is missing.
pub open spec fn player_spawned(w: WorldView) -> WorldView {
    let armed = whip_spawned(w);
    if armed.can_spawn() {
        WorldView { player: Some(new_player(armed.next_id)), ..armed.allocated() }
    } else {
        armed
    }
}

/// Starts the round: spawns a whip and the player.
pub fn spawn_player(world: &mut World)
    ensures
        final(world)@ == player_spawned(old(world)@),
{
    spawn_whip(world);
    if let Some(id) = world.allocate() {
        world.player = Some(
            Player {
                id,
                position: Vec2::zero(),
                flip_x: false,
                exp: 0,
                next_level_exp: FIRST_LEVEL_EXP,
                level: 1,
                speed: PLAYER_SPEED,
                health: PLAYER_HEALTH,
                max_health: PLAYER_HEALTH,
                facing: Facing::Left,
                animation: TwoFrameAnimation {
                    current_frame: false,
                    shown_frame: false,
                    timer: Timer::new(PLAYER_ANIMATION_PERIOD, TimerMode::Repeating),
                },
            },
        );
    }
}

/// The world after the check for the end of the round: with the player's
/// health at zero, the game-over phase is asked for.
pub open spec fn player_game_over_done(w: WorldView) -> WorldView {
    match w.player {
        Some(player) => if player.health == 0 {
            WorldView { next_state: Some(GameState::GameOver), ..w }
        } else {
            w
        },
        None => w,
    }
}

/// Asks for the game-over phase if the player's health is at zero; returns
/// whether it did.
pub fn player_game_over(world: &mut World) -> (r: bool)
    ensures
        final(world)@ == player_game_over_done(old(world)@),
        r == (old(world)@.player matches Some(player) && player.health == 0),
{
    match world.player {
        Some(player) => {
            if player.health == 0 {
                world.next_state = Some(GameState::GameOver);
                true
            } else {
                false
            }
        },
        None => false,
    }
}

/// The level threshold that follows `threshold`: 1.4 times as much,
/// rounded to the nearest whole number and cut off at the `u64` range.
pub open spec fn next_threshold(threshold: u64) -> u64 {
    cap_u64((threshold * THRESHOLD_GROWTH_TENTHS + 5) / 10) as u64
}

/// Whether the player has the experience for the next level.
pub open spec fn levels_up(player: Player) -> bool {
    player.exp >= player.next_level_exp
}

/// The player on the next level: the experience starts over, the threshold
/// has grown.
pub open spec fn leveled_up(player: Player) -> Player {
    Player {
        exp: 0,
        next_level_exp: next_threshold(player.next_level_exp),
        level: if player.level == u64::MAX {
            u64::MAX
        } else {
            (player.level + 1) as u64
        },
        ..player
    }
}

/// The world after the level check: a player with enough experience is on
/// the next level, and the level-up phase is asked for.
pub open spec fn player_level_up_done(w: WorldView) -> WorldView {
    match w.player {
        Some(player) => if levels_up(player) {
            WorldView {
                player: Some(leveled_up(player)),
                next_state: Some(GameState::LevelUp),
                ..w
            }
        } else {
            w
        },
        None => w,
    }
}

/// Computes [`next_threshold`].
pub fn compute_next_threshold(threshold: u64) -> (r: u64)
    ensures
        r == next_threshold(threshold),
{
    let grown: u128 = ((threshold as u128) * 14 + 5) / 10;
    if grown > u64::MAX as u128 {
        u64::MAX
    } else {
        grown as u64
    }
}

/// Puts a player with enough experience on the next level and asks for the
/// level-up phase; returns whether it did.
pub fn player_level_up(world: &mut World) -> (r: bool)
    ensures
        final(world)@ == player_level_up_done(old(world)@),
        r == (old(world)@.player matches Some(player) && levels_up(player)),
{
    match world.player {
        Some(player) => {
            if player.exp >= player.next_level_exp {
                let mut next: Player = player;
                next.exp = 0;
                next.next_level_exp = compute_next_threshold(player.next_level_exp);
                next.level = if player.level == u64::MAX {
                    u64::MAX
                } else {
                    player.level + 1
                };
                world.player = Some(next);
                world.next_state = Some(GameState::LevelUp);
                true
            } else {
                false
            }
        },
        None => false,
    }
}

/// The orb after the player has touched the orbs `touched`.
pub open spec fn orb_touched(orb: ExpOrb, touched: Seq<u64>) -> ExpOrb {
    ExpOrb { collecting: orb.collecting || touched.contains(orb.id), ..orb }
}

/// The world after the orbs `touched` have begun to fly to the player.
pub open spec fn player_exp_start_pickup_done(w: WorldView, touched: Seq<u64>) -> WorldView {
    WorldView { orbs: Seq::new(w.orbs.len(), |i: int| orb_touched(w.orbs[i], touched)), ..w }
}

/// Marks the orbs that the player touches as being collected. `touched`
/// holds the identifier of each orb whose collider overlaps the player's now.
pub fn player_exp_start_pickup(world: &mut World, touched: &Vec<u64>)
    ensures
        final(world)@ == player_exp_start_pickup_done(old(world)@, touched@),
{
    let count: usize = world.orbs.len();
    let mut i: usize = 0;
    while i < count
        invariant
            0 <= i <= count,
            count == old(world)@.orbs.len(),
            world@.orbs.len() == count,
            world@ == (WorldView { orbs: world@.orbs, ..old(world)@ }),
            forall|j: int| 0 <= j < i ==> world@.orbs[j] == orb_touched(
                old(world)@.orbs[j],
                touched@,
            ),
            forall|j: int| i <= j < count ==> world@.orbs[j] == old(world)@.orbs[j],
        decreases count - i,
    {
        let mut orb: ExpOrb = world.orbs[i];
        if !orb.collecting && contains_id(touched, orb.id) {
            orb.collecting = true;
            world.orbs.set(i, orb);
        }
        i += 1;
    }
    assert(world@.orbs =~= player_exp_start_pickup_done(old(world)@, touched@).orbs);
}

/// Whether an orb is near enough to `center` to be picked up.
pub open spec fn in_reach(center: Vec2, orb: ExpOrb) -> bool {
    orb.position.distance_squared(center) < PICKUP_DISTANCE * PICKUP_DISTANCE
}

/// The orbs that stay: those out of reach of `center`.
pub open spec fn orb_out_of_reach(center: Vec2) -> spec_fn(ExpOrb) -> bool {
    |orb: ExpOrb| !in_reach(center, orb)
}

/// `exp` and `value` together, cut off at the `u64` range.
pub open spec fn credited(exp: u64, value: u64) -> u64 {
    cap_u64(exp + value) as u64
}

/// `exp` after the orbs in reach among the first `n` have been credited.
pub open spec fn exp_gained(exp: u64, orbs: Seq<ExpOrb>, center: Vec2, n: int) -> u64
    decreases n,
{
    if n <= 0 || n > orbs.len() {
        exp
    } else {
        let before = exp_gained(exp, orbs, center, n - 1);
        if in_reach(center, orbs[n - 1]) {
            credited(before, orbs[n - 1].value)
        } else {
            before
        }
    }
}

/// The world after the pickup: every orb in reach of the player is gone,
/// and its value has been credited to the player. Unchanged without a player.
pub open spec fn player_gain_exp_done(w: WorldView) -> WorldView {
    match w.player {
        Some(player) => WorldView {
            player: Some(
                Player {
                    exp: exp_gained(player.exp, w.orbs, player.position, w.orbs.len() as int),
                    ..player
                },
            ),
            orbs: w.orbs.filter(orb_out_of_reach(player.position)),
            ..w
        },
        None => w,
    }
}

/// Picks up the orbs in reach of the player.
pub fn player_gain_exp(world: &mut World)
    ensures
        final(world)@ == player_gain_exp_done(old(world)@),
{
    let mut player = match world.player {
        Some(player) => player,
        None => {
            return ;
        },
    };
    let center: Vec2 = player.position;
    let ghost start = player.exp;
    let count: usize = world.orbs.len();
    let mut kept: Vec<ExpOrb> = Vec::new();
    let mut i: usize = 0;
    while i < count
        invariant
            0 <= i <= count,
            count == old(world)@.orbs.len(),
            world@ == old(world)@,
            old(world)@.player == Some(Player { exp: start, ..player }),
            player.exp == exp_gained(start, old(world)@.orbs, center, i as int),
            center == player.position,
            kept@ == old(world)@.orbs.take(i as int).filter(orb_out_of_reach(center)),
        decreases count - i,
    {
        let orb: ExpOrb = world.orbs[i];
        proof {
            let orbs = old(world)@.orbs;
            assert(orbs.take(i + 1).drop_last() == orbs.take(i as int));
            reveal(Seq::filter);
        }
        if orb.position.closer_than(center, PICKUP_DISTANCE) {
            player.exp = match player.exp.checked_add(orb.value) {
                Some(sum) => sum,
                None => u64::MAX,
            };
        } else {
            kept.push(orb);
        }
        i += 1;
    }
    assert(old(world)@.orbs.take(count as int) == old(world)@.orbs);
    world.player = Some(player);
    world.orbs = kept;
}

/// The keys for moving that are held down.
#[derive(Clone, Copy, PartialEq, Eq, Structural, Debug)]
pub struct MoveInput {
    pub up: bool,
    pub down: bool,
    pub left: bool,
    pub right: bool,
}

/// `v` kept inside the field of the player.
pub open spec fn within_limit(v: int) -> int {
    if v < -PLAYER_LIMIT {
        -PLAYER_LIMIT as int
    } else if v > PLAYER_LIMIT {
        PLAYER_LIMIT as int
    } else {
        v
    }
}

/// The player after `dt` microseconds with the keys `input` held down: the
/// place changes by the way covered along each axis whose keys say so, and
/// stays inside the field; a key to the side turns the player, the right
/// one last.
pub open spec fn player_moved(player: Player, input: MoveInput, dt: u64) -> Player {
    let step = step_length(player.speed, dt) as int;
    let dx = (if input.right { step } else { 0 }) - (if input.left { step } else { 0 });
    let dy = (if input.up { step } else { 0 }) - (if input.down { step } else { 0 });
    Player {
        position: Vec2 {
            x: within_limit(player.position.x + dx) as i32,
            y: within_limit(player.position.y + dy) as i32,
        },
        flip_x: if input.right {
            true
        } else if input.left {
            false
        } else {
            player.flip_x
        },
        facing: if input.right {
            Facing::Right
        } else if input.left {
            Facing::Left
        } else {
            player.facing
        },
        ..player
    }
}

/// The world after the player has moved; unchanged without a player.
pub open spec fn player_movement_done(w: WorldView, input: MoveInput, dt: u64) -> WorldView {
    match w.player {
        Some(player) => WorldView { player: Some(player_moved(player, input, dt)), ..w },
        None => w,
    }
}

/// `v + d` kept inside the field of the player.
fn limit_sum(v: i32, d: i64) -> (r: i32)
    requires
        -0xffff_ffff <= d <= 0xffff_ffff,
    ensures
        r == within_limit(v + d),
{
    let sum: i64 = v as i64 + d;
    if sum < -(PLAYER_LIMIT as i64) {
        -PLAYER_LIMIT
    } else if sum > PLAYER_LIMIT as i64 {
        PLAYER_LIMIT
    } else {
        sum as i32
    }
}

/// Moves the player for `dt` microseconds as the keys `input` say.
pub fn player_movement(world: &mut World, input: MoveInput, dt: u64)
    ensures
        final(world)@ == player_movement_done(old(world)@, input, dt),
{
    if let Some(player) = world.player {
        let mut moved: Player = player;
        let step: i64 = compute_step_length(player.speed, dt) as i64;
        let right: i64 = if input.right {
            step
        } else {
            0
        };
        let left: i64 = if input.left {
            step
        } else {
            0
        };
        let up: i64 = if input.up {
            step
        } else {
            0
        };
        let down: i64 = if input.down {
            step
        } else {
            0
        };
        moved.position = Vec2::new(
            limit_sum(player.position.x, right - left),
            limit_sum(player.position.y, up - down),
        );
        if input.left {
            moved.flip_x = false;
            moved.facing = Facing::Left;
        }
        if input.right {
            moved.flip_x = true;
            moved.facing = Facing::Right;
        }
        world.player = Some(moved);
    }
}

} // verus!
