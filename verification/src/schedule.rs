//! Which rule runs when: the systems of the game, the moments at which
//! they are due, and the order among them.
//!
//! The plugins of the other modules enter their systems here. Whoever runs
//! the game asks [`Schedule::due`] at each moment and runs what it names,
//! in the order given.

use crate::model::GameState;
use vstd::prelude::*;

verus! {

/// The rules of the game, one name for each.
#[derive(Clone, Copy, PartialEq, Eq, Structural, Debug)]
pub enum System {
    SpawnParticles,
    UpdateParticles,
    DespawnParticles,
    TwoFrameAnimation,
    WhipAttackFacing,
    WhipAttack,
    CloseShotAttack,
    CloseShotBullet,
    AreaShotAttack,
    AreaShotBullet,
    SpawnCamera,
    UpdateCursor,
    CameraFollow,
    EnemyDeathCheck,
    EnemyMovement,
    SpawnEnemy,
    DespawnEnemy,
    EnemyDamagePlayer,
    OrbMoveToPlayer,
    SpawnPlayer,
    PlayerMovement,
    PlayerExpStartPickup,
    PlayerGainExp,
    PlayerLevelUp,
    PlayerGameOver,
    SpawnHeaderUi,
    SpawnPlayerUi,
    SpawnLevelUpUi,
    DespawnLevelUpUi,
    SpawnMainMenuUi,
    DespawnMainMenuUi,
    SpawnGameOverUi,
    DespawnGameOverUi,
    LevelUpButtonSystem,
    AboutButtonSystem,
    AboutBackButtonSystem,
    ShowAboutUi,
    SpawnAboutUi,
    StartButtonSystem,
    GameOverButtonSystem,
    UpdateWorldText,
    PlayerHealthUiSync,
    PlayerExpUiSync,
    ApplyPlayerUpgrade,
    ApplyWhipUpgrade,
    ApplyAreaShotUpgrade,
    ApplyCloseShotUpgrade,
    SpawnBackground,
    AdvanceState,
    DespawnGamePlay,
}

/// The moments at which systems are due.
#[derive(Clone, Copy, PartialEq, Eq, Structural, Debug)]
pub enum Trigger {
    /// Once, before the first frame.
    Startup,
    /// In every frame.
    Always,
    /// In every frame, after everything else.
    PostUpdate,
    /// When the phase is entered.
    OnEnter(GameState),
    /// In every frame of the phase.
    OnUpdate(GameState),
    /// When the phase is left.
    OnExit(GameState),
}

/// One system in the schedule.
#[derive(Clone, Copy, PartialEq, Eq, Structural, Debug)]
pub struct Entry {
    pub trigger: Trigger,
    pub system: System,
    /// The system that this one has to follow where both are due.
    pub after: Option<System>,
}

/// The systems of the game with their moments.
#[derive(Clone, Debug)]
pub struct Schedule {
    pub entries: Vec<Entry>,
}

impl View for Schedule {
    type V = Seq<Entry>;

    open spec fn view(&self) -> Seq<Entry> {
        self.entries@
    }
}

/// The entries due at `trigger` that have to follow another system
/// (`constrained`), or those that are free to run first.
pub open spec fn matching(trigger: Trigger, constrained: bool) -> spec_fn(Entry) -> bool {
    |entry: Entry| entry.trigger == trigger && entry.after.is_some() == constrained
}

/// The systems of the entries, in their order.
pub open spec fn systems_of(entries: Seq<Entry>) -> Seq<System> {
    Seq::new(entries.len(), |i: int| entries[i].system)
}

/// The systems that are due at `trigger`, in the order in which they run:
/// first those that follow no other, then those that do, each group in the
/// order in which the systems were entered.
pub open spec fn due_systems(entries: Seq<Entry>, trigger: Trigger) -> Seq<System> {
    systems_of(entries.filter(matching(trigger, false))) + systems_of(
        entries.filter(matching(trigger, true)),
    )
}

/// A system runs after the one it has to follow, where that one is due
/// at the same moment and follows no other itself.
pub proof fn lemma_due_respects_after(
    entries: Seq<Entry>,
    trigger: Trigger,
    first: int,
    second: int,
)
    requires
        0 <= first < entries.len(),
        0 <= second < entries.len(),
        entries[first].trigger == trigger,
        entries[second].trigger == trigger,
        entries[first].after.is_none(),
        entries[second].after == Some(entries[first].system),
    ensures
        exists|a: int, b: int|
            0 <= a < b < due_systems(entries, trigger).len() && due_systems(entries, trigger)[a]
                == entries[first].system && due_systems(entries, trigger)[b]
                == entries[second].system,
{
    let free = entries.filter(matching(trigger, false));
    let bound = entries.filter(matching(trigger, true));
    entries.lemma_filter_contains(matching(trigger, false), first);
    entries.lemma_filter_contains(matching(trigger, true), second);
    let a = choose|a: int| 0 <= a < free.len() && free[a] == entries[first];
    let c = choose|c: int| 0 <= c < bound.len() && bound[c] == entries[second];
    let b = free.len() + c;
    assert(due_systems(entries, trigger)[a] == entries[first].system);
    assert(due_systems(entries, trigger)[b] == entries[second].system);
}

/// Every system that is due at `trigger` runs, and nothing else does.
pub proof fn lemma_due_is_complete(entries: Seq<Entry>, trigger: Trigger, index: int)
    requires
        0 <= index < entries.len(),
        entries[index].trigger == trigger,
    ensures
        due_systems(entries, trigger).contains(entries[index].system),
{
    let constrained = entries[index].after.is_some();
    let part = entries.filter(matching(trigger, constrained));
    entries.lemma_filter_contains(matching(trigger, constrained), index);
    let c = choose|c: int| 0 <= c < part.len() && part[c] == entries[index];
    let free = entries.filter(matching(trigger, false));
    if constrained {
        assert(due_systems(entries, trigger)[free.len() + c] == entries[index].system);
    } else {
        assert(due_systems(entries, trigger)[c] == entries[index].system);
    }
}

impl Schedule {
    /// A schedule without systems.
    pub fn new() -> (r: Schedule)
        ensures
            r@ == Seq::<Entry>::empty(),
    {
        Schedule { entries: Vec::new() }
    }

    /// Enters `system` for the moment `trigger`.
    pub fn add(&mut self, trigger: Trigger, system: System)
        ensures
            final(self)@ == old(self)@.push(Entry { trigger, system, after: None }),
    {
        self.entries.push(Entry { trigger, system, after: None });
    }

    /// Enters `system` for the moment `trigger`, to run after `after`.
    pub fn add_after(&mut self, trigger: Trigger, system: System, after: System)
        ensures
            final(self)@ == old(self)@.push(Entry { trigger, system, after: Some(after) }),
    {
        self.entries.push(Entry { trigger, system, after: Some(after) });
    }

    /// Appends to `out` the systems of the entries that match.
    fn select(&self, trigger: Trigger, constrained: bool, out: &mut Vec<System>)
        ensures
            final(out)@ == old(out)@ + systems_of(self@.filter(matching(trigger, constrained))),
    {
        let ghost mut picked: Seq<Entry> = Seq::empty();
        let mut i: usize = 0;
        while i < self.entries.len()
            invariant
                0 <= i <= self@.len(),
                picked == self@.take(i as int).filter(matching(trigger, constrained)),
                out@ == old(out)@ + systems_of(picked),
            decreases self@.len() - i,
        {
            let entry: Entry = self.entries[i];
            proof {
                assert(self@.take(i + 1).drop_last() == self@.take(i as int));
                reveal(Seq::filter);
            }
            if entry.trigger == trigger && entry.after.is_some() == constrained {
                out.push(entry.system);
                proof {
                    assert(old(out)@ + systems_of(picked.push(entry)) =~= (old(out)@ + systems_of(
                        picked,
                    )).push(entry.system));
                    picked = picked.push(entry);
                }
            }
            i += 1;
        }
        assert(self@.take(i as int) == self@);
    }

    /// Computes [`due_systems`].
    pub fn due(&self, trigger: Trigger) -> (r: Vec<System>)
        ensures
            r@ == due_systems(self@, trigger),
    {
        let mut out: Vec<System> = Vec::new();
        self.select(trigger, false, &mut out);
        self.select(trigger, true, &mut out);
        assert(out@ =~= due_systems(self@, trigger));
        out
    }
}

} // verus!
