//! What the upgrades do.

use crate::attack::{
    area_shot_spawned, close_shot_spawned, spawn_area_shot, spawn_close_shot, spawn_whip,
    whip_spawned, WHIP_REACH,
};
use crate::fixed::{cap_u32, cap_u64, compute_ratio, ratio, Vec2};
use crate::model::{GameState, Player, UpgradeSelected, WeaponUpgrade, Whip, World, WorldView};
use crate::schedule::{Entry, Schedule, System, Trigger};
use crate::timer::Timer;
use vstd::prelude::*;

verus! {

/// The upgrades: applied during play, the whip upgrade after the whip has followed the player.
#[derive(Clone, Copy, Debug)]
pub struct UpgradePlugin;

impl UpgradePlugin {
    /// The systems of this plugin with their moments, in the order in
    /// which they are entered.
    pub open spec fn entries() -> Seq<Entry> {
        seq![
            Entry {
                trigger: Trigger::OnUpdate(GameState::Gameplay),
                system: System::ApplyPlayerUpgrade,
                after: None,
            },
            Entry {
                trigger: Trigger::OnUpdate(GameState::Gameplay),
                system: System::ApplyWhipUpgrade,
                after: Some(System::WhipAttackFacing),
            },
            Entry {
                trigger: Trigger::OnUpdate(GameState::Gameplay),
                system: System::ApplyAreaShotUpgrade,
                after: None,
            },
            Entry {
                trigger: Trigger::OnUpdate(GameState::Gameplay),
                system: System::ApplyCloseShotUpgrade,
                after: None,
            },
        ]
    }

    /// Enters the systems of this plugin into `schedule`.
    pub fn build(&self, schedule: &mut Schedule)
        ensures
            final(schedule)@ == old(schedule)@ + UpgradePlugin::entries(),
    {
        schedule.add(Trigger::OnUpdate(GameState::Gameplay), System::ApplyPlayerUpgrade);
        schedule.add_after(
            Trigger::OnUpdate(GameState::Gameplay),
            System::ApplyWhipUpgrade,
            System::WhipAttackFacing,
        );
        schedule.add(Trigger::OnUpdate(GameState::Gameplay), System::ApplyAreaShotUpgrade);
        schedule.add(Trigger::OnUpdate(GameState::Gameplay), System::ApplyCloseShotUpgrade);
        assert(schedule@ =~= old(schedule)@ + UpgradePlugin::entries());
    }
}

/// The divisor that gives the share of the maximum health that a health
/// upgrade adds: a tenth.
pub const HEALTH_UP_SHARE: u64 = 10;

/// The factor of a speed upgrade and of a damage upgrade, as a fraction:
/// its numerator.
pub const BOOST_NUM: u64 = 11;

/// The denominator of the boost.
pub const BOOST_DEN: u64 = 10;

/// The time that the first whip has waited when the second joins it, in
/// microseconds: the two then strike out of step.
pub const WHIP_PHASE: u64 = 300_000;

/// The most whips that the player can hold.
pub const WHIP_SLOTS: usize = 2;

/// The player after a health upgrade: a tenth of the maximum health more,
/// both in health and in maximum health.
pub open spec fn health_raised(player: Player) -> Player {
    let increase = player.max_health / HEALTH_UP_SHARE;
    Player {
        health: cap_u64(player.health + increase) as u64,
        max_health: cap_u64(player.max_health + increase) as u64,
        ..player
    }
}

/// The player after a speed upgrade: a tenth faster, rounded down.
pub open spec fn speed_raised(player: Player) -> Player {
    Player {
        speed: cap_u32(ratio(player.speed as u64, BOOST_NUM, BOOST_DEN) as int) as u32,
        ..player
    }
}

/// The world after the player's own rules have seen the upgrade.
pub open spec fn player_upgraded(w: WorldView, upgrade: UpgradeSelected) -> WorldView {
    match w.player {
        Some(player) => match upgrade.0 {
            WeaponUpgrade::HealthUp => WorldView { player: Some(health_raised(player)), ..w },
            WeaponUpgrade::SpeedUp => WorldView { player: Some(speed_raised(player)), ..w },
            _ => w,
        },
        None => w,
    }
}

/// Applies a health or speed upgrade to the player.
pub fn apply_player_upgrade(world: &mut World, upgrade: &UpgradeSelected)
    ensures
        final(world)@ == player_upgraded(old(world)@, *upgrade),
{
    if let Some(player) = world.player {
        match upgrade.0 {
            WeaponUpgrade::HealthUp => {
                let increase: u64 = player.max_health / HEALTH_UP_SHARE;
                let mut raised: Player = player;
                raised.health = match player.health.checked_add(increase) {
                    Some(sum) => sum,
                    None => u64::MAX,
                };
                raised.max_health = match player.max_health.checked_add(increase) {
                    Some(sum) => sum,
                    None => u64::MAX,
                };
                world.player = Some(raised);
            },
            WeaponUpgrade::SpeedUp => {
                let boosted: u64 = compute_ratio(player.speed as u64, BOOST_NUM, BOOST_DEN);
                let mut raised: Player = player;
                raised.speed = if boosted > u32::MAX as u64 {
                    u32::MAX
                } else {
                    boosted as u32
                };
                world.player = Some(raised);
            },
            _ => {},
        }
    }
}

/// The first whip as it makes room for the second: on the left, and out of
/// step with the newcomer.
pub open spec fn whip_paired(whip: Whip) -> Whip {
    Whip {
        position: Vec2 { x: (-WHIP_REACH) as i32, y: 0 },
        timer: Timer { elapsed: WHIP_PHASE, ..whip.timer },
        ..whip
    }
}

/// The whip after a damage upgrade: a tenth stronger, rounded down.
pub open spec fn whip_boosted(whip: Whip) -> Whip {
    Whip { damage: ratio(whip.damage, BOOST_NUM, BOOST_DEN), ..whip }
}

/// The world after a whip upgrade. The first gives a whip. The second
/// moves that whip to the left, sets it out of step, and gives another.
/// From then on each makes every whip stronger and gives none.
pub open spec fn whip_upgraded(w: WorldView) -> WorldView {
    if w.whips.len() == 0 {
        whip_spawned(w)
    } else if w.whips.len() == 1 {
        whip_spawned(WorldView { whips: w.whips.update(0, whip_paired(w.whips[0])), ..w })
    } else {
        WorldView { whips: Seq::new(w.whips.len(), |i: int| whip_boosted(w.whips[i])), ..w }
    }
}

/// The world after the whip's rule has seen the upgrade; unchanged without
/// a player to hold the whip.
pub open spec fn whip_upgrade_applied(w: WorldView, upgrade: UpgradeSelected) -> WorldView {
    if w.player.is_some() && upgrade.0 == WeaponUpgrade::Whip {
        whip_upgraded(w)
    } else {
        w
    }
}

/// Applies a whip upgrade.
pub fn apply_whip_upgrade(world: &mut World, upgrade: &UpgradeSelected)
    ensures
        final(world)@ == whip_upgrade_applied(old(world)@, *upgrade),
{
    if world.player.is_none() {
        return ;
    }
    match upgrade.0 {
        WeaponUpgrade::Whip => {},
        _ => {
            return ;
        },
    }
    let count: usize = world.whips.len();
    if count == 0 {
        spawn_whip(world);
    } else if count == 1 {
        let mut whip: Whip = world.whips[0];
        whip.position = Vec2::new(-WHIP_REACH, 0);
        whip.timer.set_elapsed(WHIP_PHASE);
        world.whips.set(0, whip);
        spawn_whip(world);
    } else {
        let mut i: usize = 0;
        while i < count
            invariant
                0 <= i <= count,
                count == old(world)@.whips.len(),
                world@.whips.len() == count,
                world@ == (WorldView { whips: world@.whips, ..old(world)@ }),
                forall|j: int| 0 <= j < i ==> world@.whips[j] == whip_boosted(old(world)@.whips[j]),
                forall|j: int| i <= j < count ==> world@.whips[j] == old(world)@.whips[j],
            decreases count - i,
        {
            let mut whip: Whip = world.whips[i];
            whip.damage = compute_ratio(whip.damage, BOOST_NUM, BOOST_DEN);
            world.whips.set(i, whip);
            i += 1;
        }
        assert(world@.whips =~= whip_upgraded(old(world)@).whips);
    }
}

/// The world after the close shot's rule has seen the upgrade: each such
/// upgrade gives one more close shot. Unchanged without a player.
pub open spec fn close_shot_upgrade_applied(w: WorldView, upgrade: UpgradeSelected) -> WorldView {
    if w.player.is_some() && upgrade.0 == WeaponUpgrade::CloseShot {
        close_shot_spawned(w)
    } else {
        w
    }
}

/// Applies a close shot upgrade.
pub fn apply_close_shot_upgrade(world: &mut World, upgrade: &UpgradeSelected)
    ensures
        final(world)@ == close_shot_upgrade_applied(old(world)@, *upgrade),
{
    if world.player.is_some() {
        match upgrade.0 {
            WeaponUpgrade::CloseShot => {
                spawn_close_shot(world);
            },
            _ => {},
        }
    }
}

/// The world after the area shot's rule has seen the upgrade: each such
/// upgrade gives one more area shot. Unchanged without a player.
pub open spec fn area_shot_upgrade_applied(w: WorldView, upgrade: UpgradeSelected) -> WorldView {
    if w.player.is_some() && upgrade.0 == WeaponUpgrade::AreaShot {
        area_shot_spawned(w)
    } else {
        w
    }
}

/// Applies an area shot upgrade.
pub fn apply_area_shot_upgrade(world: &mut World, upgrade: &UpgradeSelected)
    ensures
        final(world)@ == area_shot_upgrade_applied(old(world)@, *upgrade),
{
    if world.player.is_some() {
        match upgrade.0 {
            WeaponUpgrade::AreaShot => {
                spawn_area_shot(world);
            },
            _ => {},
        }
    }
}

/// The world after all four rules have seen the upgrade, in the order
/// player, whip, area shot, close shot. Only the rule of the upgrade's
/// kind acts on it.
pub open spec fn upgrade_applied(w: WorldView, upgrade: UpgradeSelected) -> WorldView {
    close_shot_upgrade_applied(
        area_shot_upgrade_applied(
            whip_upgrade_applied(player_upgraded(w, upgrade), upgrade),
            upgrade,
        ),
        upgrade,
    )
}

/// Only the rule of the upgrade's kind acts on it.
pub proof fn lemma_upgrade_dispatch(w: WorldView, upgrade: UpgradeSelected)
    ensures
        upgrade_applied(w, upgrade) == match upgrade.0 {
            WeaponUpgrade::Whip => whip_upgrade_applied(w, upgrade),
            WeaponUpgrade::CloseShot => close_shot_upgrade_applied(w, upgrade),
            WeaponUpgrade::AreaShot => area_shot_upgrade_applied(w, upgrade),
            WeaponUpgrade::HealthUp => player_upgraded(w, upgrade),
            WeaponUpgrade::SpeedUp => player_upgraded(w, upgrade),
        },
{
}

/// Applies one upgrade.
pub fn apply_upgrade(world: &mut World, upgrade: &UpgradeSelected)
    ensures
        final(world)@ == upgrade_applied(old(world)@, *upgrade),
{
    apply_player_upgrade(world, upgrade);
    apply_whip_upgrade(world, upgrade);
    apply_area_shot_upgrade(world, upgrade);
    apply_close_shot_upgrade(world, upgrade);
}

/// The world after the first `n` of the upgrades waiting in it have been applied.
pub open spec fn upgrades_applied(w: WorldView, n: int) -> WorldView
    decreases n,
{
    if n <= 0 || n > w.upgrades.len() {
        w
    } else {
        upgrade_applied(upgrades_applied(w, n - 1), w.upgrades[n - 1])
    }
}

/// Applying upgrades leaves the list of those that wait as it is.
pub proof fn lemma_upgrades_applied_keeps_list(w: WorldView, n: int)
    ensures
        upgrades_applied(w, n).upgrades == w.upgrades,
    decreases n,
{
    if n > 0 && n <= w.upgrades.len() {
        lemma_upgrades_applied_keeps_list(w, n - 1);
    }
}

/// The world after all upgrades that waited have been applied, in the
/// order in which they were chosen; none waits any more.
pub open spec fn apply_upgrades_done(w: WorldView) -> WorldView {
    WorldView { upgrades: Seq::empty(), ..upgrades_applied(w, w.upgrades.len() as int) }
}

/// Applies the upgrades that wait in the world.
pub fn apply_upgrades(world: &mut World)
    ensures
        final(world)@ == apply_upgrades_done(old(world)@),
{
    let count: usize = world.upgrades.len();
    let mut i: usize = 0;
    while i < count
        invariant
            0 <= i <= count,
            count == old(world)@.upgrades.len(),
            world@ == upgrades_applied(old(world)@, i as int),
        decreases count - i,
    {
        proof {
            lemma_upgrades_applied_keeps_list(old(world)@, i as int);
        }
        let upgrade: UpgradeSelected = world.upgrades[i];
        apply_upgrade(world, &upgrade);
        i += 1;
    }
    world.upgrades = Vec::new();
}

} // verus!
