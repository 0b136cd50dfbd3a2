//! Experience orbs: what enemies leave behind, and how it reaches the player.

use crate::fixed::{compute_step_length, step_length, Vec2};
use crate::model::{ExpOrb, TwoFrameAnimation, World, WorldView};
use crate::schedule::{Entry, Schedule, System, Trigger};
use crate::timer::{Timer, TimerMode};
use vstd::prelude::*;

verus! {

/// The flight of the orbs, in every phase.
#[derive(Clone, Copy, Debug)]
pub struct ExpPlugin;

impl ExpPlugin {
    /// The systems of this plugin with their moments, in the order in
    /// which they are entered.
    pub open spec fn entries() -> Seq<Entry> {
        seq![
            Entry { trigger: Trigger::Always, system: System::OrbMoveToPlayer, after: None },
        ]
    }

    /// Enters the systems of this plugin into `schedule`.
    pub fn build(&self, schedule: &mut Schedule)
        ensures
            final(schedule)@ == old(schedule)@ + ExpPlugin::entries(),
    {
        schedule.add(Trigger::Always, System::OrbMoveToPlayer);
        assert(schedule@ =~= old(schedule)@ + ExpPlugin::entries());
    }
}

/// The experience that an orb is worth.
pub const ORB_VALUE: u64 = 1;

/// The speed at which an orb flies to the player, in thousandths of a unit
/// per second.
pub const ORB_COLLECTION_SPEED: u32 = 5_000;

/// The time between two images of an orb, in microseconds.
pub const ORB_ANIMATION_PERIOD: u64 = 300_000;

/// The orb as it is dropped at `position`.
pub open spec fn new_orb(id: u64, position: Vec2) -> ExpOrb {
    ExpOrb {
        id,
        position,
        value: ORB_VALUE,
        collection_speed: ORB_COLLECTION_SPEED,
        collecting: false,
        animation: TwoFrameAnimation {
            current_frame: false,
            shown_frame: false,
            timer: Timer::started(ORB_ANIMATION_PERIOD, TimerMode::Repeating),
        },
    }
}

/// The world with one more orb; unchanged where no identifier is left.
pub open spec fn orb_spawned(w: WorldView, position: Vec2) -> WorldView {
    if w.can_spawn() {
        WorldView { orbs: w.orbs.push(new_orb(w.next_id, position)), ..w.allocated() }
    } else {
        w
    }
}

/// Drops an orb at `position`; returns its identifier.
pub fn spawn_orb(world: &mut World, position: Vec2) -> (r: Option<u64>)
    ensures
        final(world)@ == orb_spawned(old(world)@, position),
        r == if old(world)@.can_spawn() {
            Some(old(world).next_id)
        } else {
            None
        },
{
    match world.allocate() {
        Some(id) => {
            world.orbs.push(
                ExpOrb {
                    id,
                    position,
                    value: ORB_VALUE,
                    collection_speed: ORB_COLLECTION_SPEED,
                    collecting: false,
                    animation: TwoFrameAnimation {
                        current_frame: false,
                        shown_frame: false,
                        timer: Timer::new(ORB_ANIMATION_PERIOD, TimerMode::Repeating),
                    },
                },
            );
            Some(id)
        },
        None => None,
    }
}

/// The orb after `dt` microseconds: one that is being collected has flown
/// toward `target` at its collection speed, any other has stayed.
pub open spec fn orb_pulled(orb: ExpOrb, target: Vec2, dt: u64) -> ExpOrb {
    if orb.collecting {
        ExpOrb {
            position: orb.position.stepped_toward(target, step_length(orb.collection_speed, dt)),
            ..orb
        }
    } else {
        orb
    }
}

/// The world after the orbs have flown for `dt`; unchanged without a player.
pub open spec fn orb_move_to_player_done(w: WorldView, dt: u64) -> WorldView {
    match w.player {
        Some(player) => WorldView {
            orbs: Seq::new(w.orbs.len(), |i: int| orb_pulled(w.orbs[i], player.position, dt)),
            ..w
        },
        None => w,
    }
}

/// Lets the orbs that are being collected fly toward the player for `dt`
/// microseconds.
pub fn orb_move_to_player(world: &mut World, dt: u64)
    ensures
        final(world)@ == orb_move_to_player_done(old(world)@, dt),
{
    let target: Vec2 = match world.player {
        Some(player) => player.position,
        None => {
            return ;
        },
    };
    let count: usize = world.orbs.len();
    let mut i: usize = 0;
    while i < count
        invariant
            0 <= i <= count,
            count == old(world)@.orbs.len(),
            world@.orbs.len() == count,
            world@ == (WorldView { orbs: world@.orbs, ..old(world)@ }),
            forall|j: int| 0 <= j < i ==> world@.orbs[j] == orb_pulled(
                old(world)@.orbs[j],
                target,
                dt,
            ),
            forall|j: int| i <= j < count ==> world@.orbs[j] == old(world)@.orbs[j],
        decreases count - i,
    {
        let mut orb: ExpOrb = world.orbs[i];
        if orb.collecting {
            orb.position = orb.position.step_toward(
                target,
                compute_step_length(orb.collection_speed, dt),
            );
            world.orbs.set(i, orb);
        }
        i += 1;
    }
    assert(world@.orbs =~= orb_move_to_player_done(old(world)@, dt).orbs);
}

} // verus!
