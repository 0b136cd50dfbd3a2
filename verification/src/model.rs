//! The data of a game session: the entities, the wave manager and the world
//! that holds them.
//!
//! Entities live in plain vectors, in the order in which they were spawned,
//! and each, but for the coins of the level-up shower, carries an identifier
//! that the world hands out from a counter. Whoever draws the world and
//! runs the collision queries refers to entities by these identifiers.

use crate::fixed::Vec2;
use crate::timer::{Stopwatch, Timer};
use vstd::prelude::*;

verus! {

/// The phases of the game.
#[derive(Clone, Copy, PartialEq, Eq, Structural, Debug, Hash)]
pub enum GameState {
    MainMenu,
    StartingLoop,
    Gameplay,
    LevelUp,
    GameOver,
}

impl Default for GameState {
    fn default() -> (r: GameState)
        ensures
            r == GameState::MainMenu,
    {
        GameState::MainMenu
    }
}

/// The side the player looks to.
#[derive(Clone, Copy, PartialEq, Eq, Structural, Debug)]
pub enum Facing {
    Left,
    Right,
}

/// What the player can choose at a level-up.
#[derive(Clone, Copy, PartialEq, Eq, Structural, Debug)]
pub enum WeaponUpgrade {
    Whip,
    CloseShot,
    AreaShot,
    HealthUp,
    SpeedUp,
}

/// The number of upgrades there are.
pub const UPGRADE_COUNT: usize = 5;

impl WeaponUpgrade {
    /// The place of this upgrade in the fixed order of all upgrades.
    pub open spec fn ordinal(self) -> int {
        match self {
            WeaponUpgrade::Whip => 0,
            WeaponUpgrade::CloseShot => 1,
            WeaponUpgrade::AreaShot => 2,
            WeaponUpgrade::HealthUp => 3,
            WeaponUpgrade::SpeedUp => 4,
        }
    }

    /// The upgrade at place `index`; the last one for any index past the end.
    pub open spec fn at(index: int) -> WeaponUpgrade {
        if index <= 0 {
            WeaponUpgrade::Whip
        } else if index == 1 {
            WeaponUpgrade::CloseShot
        } else if index == 2 {
            WeaponUpgrade::AreaShot
        } else if index == 3 {
            WeaponUpgrade::HealthUp
        } else {
            WeaponUpgrade::SpeedUp
        }
    }

    /// Computes [`WeaponUpgrade::at`].
    pub fn from_index(index: usize) -> (r: WeaponUpgrade)
        ensures
            r == WeaponUpgrade::at(index as int),
            index < UPGRADE_COUNT ==> r.ordinal() == index,
    {
        if index == 0 {
            WeaponUpgrade::Whip
        } else if index == 1 {
            WeaponUpgrade::CloseShot
        } else if index == 2 {
            WeaponUpgrade::AreaShot
        } else if index == 3 {
            WeaponUpgrade::HealthUp
        } else {
            WeaponUpgrade::SpeedUp
        }
    }

    /// All upgrades, in their fixed order.
    pub fn all() -> (r: Vec<WeaponUpgrade>)
        ensures
            r@.len() == UPGRADE_COUNT,
            forall|i: int| 0 <= i < r@.len() ==> r@[i] == WeaponUpgrade::at(i),
    {
        let mut list: Vec<WeaponUpgrade> = Vec::new();
        list.push(WeaponUpgrade::Whip);
        list.push(WeaponUpgrade::CloseShot);
        list.push(WeaponUpgrade::AreaShot);
        list.push(WeaponUpgrade::HealthUp);
        list.push(WeaponUpgrade::SpeedUp);
        list
    }

    /// The name shown on the button of this upgrade.
    pub fn name(&self) -> (r: &'static str)
        ensures
            r@ == match *self {
                WeaponUpgrade::Whip => "Ramen"@,
                WeaponUpgrade::CloseShot => "BURRITOS!"@,
                WeaponUpgrade::AreaShot => "Nacho Cheese"@,
                WeaponUpgrade::HealthUp => "Health Up 10%"@,
                WeaponUpgrade::SpeedUp => "Speed Up 10%"@,
            },
    {
        match self {
            WeaponUpgrade::Whip => "Ramen",
            WeaponUpgrade::CloseShot => "BURRITOS!",
            WeaponUpgrade::AreaShot => "Nacho Cheese",
            WeaponUpgrade::HealthUp => "Health Up 10%",
            WeaponUpgrade::SpeedUp => "Speed Up 10%",
        }
    }
}

/// The event that the player has chosen an upgrade.
#[derive(Clone, Copy, PartialEq, Eq, Structural, Debug)]
pub struct UpgradeSelected(pub WeaponUpgrade);

/// An animation that alternates between two images.
#[derive(Clone, Copy, PartialEq, Eq, Structural, Debug)]
pub struct TwoFrameAnimation {
    /// Whether the second image is the current one.
    pub current_frame: bool,
    /// Whether the second image is the one on display.
    pub shown_frame: bool,
    /// The time between two changes of the current image.
    pub timer: Timer,
}

/// The player.
#[derive(Clone, Copy, PartialEq, Eq, Structural, Debug)]
pub struct Player {
    pub id: u64,
    pub position: Vec2,
    /// Whether the sprite is mirrored.
    pub flip_x: bool,
    /// Experience gathered since the last level-up.
    pub exp: u64,
    /// Experience at which the next level is reached.
    pub next_level_exp: u64,
    pub level: u64,
    /// Thousandths of a unit per second.
    pub speed: u32,
    /// Billionths of a point; never below zero.
    pub health: u64,
    pub max_health: u64,
    pub facing: Facing,
    pub animation: TwoFrameAnimation,
}

/// What a wave makes its enemies from.
#[derive(Clone, Copy, PartialEq, Eq, Structural, Debug)]
pub struct EnemyTemplate {
    /// Thousandths of a unit per second.
    pub speed: u32,
    /// Billionths of a point.
    pub health: u64,
    /// Which image the enemy is drawn with.
    pub asset: u32,
    /// Thousandths of a point per second of contact with the player.
    pub damage_per_second: u32,
}

/// An enemy.
#[derive(Clone, Copy, PartialEq, Eq, Structural, Debug)]
pub struct Enemy {
    pub id: u64,
    pub position: Vec2,
    pub flip_x: bool,
    pub speed: u32,
    /// Billionths of a point; an enemy at zero is dead and leaves at the next
    /// death check.
    pub health: u64,
    pub asset: u32,
    pub damage_per_second: u32,
}

/// An experience orb.
#[derive(Clone, Copy, PartialEq, Eq, Structural, Debug)]
pub struct ExpOrb {
    pub id: u64,
    pub position: Vec2,
    /// The experience that the orb is worth.
    pub value: u64,
    /// Thousandths of a unit per second at which it flies to the player.
    pub collection_speed: u32,
    /// Whether the player has touched it, so that it flies to the player.
    pub collecting: bool,
    pub animation: TwoFrameAnimation,
}

/// The melee weapon: it strikes whatever it overlaps each time its timer finishes.
#[derive(Clone, Copy, PartialEq, Eq, Structural, Debug)]
pub struct Whip {
    pub id: u64,
    /// Where it is, seen from the player.
    pub position: Vec2,
    pub flip_x: bool,
    pub visible: bool,
    pub timer: Timer,
    /// Billionths of a point for each strike.
    pub damage: u64,
    pub animation: TwoFrameAnimation,
}

/// The weapon that shoots at the nearest enemy.
#[derive(Clone, Copy, PartialEq, Eq, Structural, Debug)]
pub struct CloseShot {
    pub id: u64,
    pub timer: Timer,
}

/// A projectile of the close shot.
#[derive(Clone, Copy, PartialEq, Eq, Structural, Debug)]
pub struct CloseShotBullet {
    pub id: u64,
    pub position: Vec2,
    pub lifetime: Timer,
    pub speed: u32,
    pub damage: u64,
    /// The direction of flight, fixed when the bullet is shot.
    pub direction: Vec2,
}

/// The weapon that drops damage zones near the player.
#[derive(Clone, Copy, PartialEq, Eq, Structural, Debug)]
pub struct AreaShot {
    pub id: u64,
    pub timer: Timer,
}

/// A damage zone of the area shot.
#[derive(Clone, Copy, PartialEq, Eq, Structural, Debug)]
pub struct AreaShotBullet {
    pub id: u64,
    pub position: Vec2,
    /// The time between two pulses of damage.
    pub timer: Timer,
    pub lifetime: Timer,
    pub damage_per_second: u32,
}

/// A damage number that floats over the place of a hit.
#[derive(Clone, Copy, PartialEq, Eq, Structural, Debug)]
pub struct WorldTextUI {
    pub id: u64,
    pub lifetime: Timer,
    /// Thousandths of a unit per second in each coordinate.
    pub velocity: Vec2,
    pub position: Vec2,
    /// The number on display: whole points of damage.
    pub amount: u64,
}

/// A coin of the shower that celebrates a level-up, placed relative to the camera.
#[derive(Clone, Copy, PartialEq, Eq, Structural, Debug)]
pub struct LevelUpParticle {
    pub position: Vec2,
    pub animation: TwoFrameAnimation,
}

/// A timed batch-spawn configuration for enemies.
#[derive(Clone, Copy, PartialEq, Eq, Structural, Debug)]
pub struct Wave {
    /// The time between two batches.
    pub next_spawn: Timer,
    /// The number of enemies of a batch, before difficulty scaling.
    pub wave_size: u32,
    pub to_spawn: EnemyTemplate,
}

/// Tracks the play time and holds the waves in their order.
#[derive(Clone, Debug)]
pub struct WaveManager {
    pub global_time: Stopwatch,
    pub waves: Vec<Wave>,
}

/// The mathematical content of a [`WaveManager`].
#[verifier::ext_equal]
pub struct WaveManagerView {
    pub global_time: Stopwatch,
    pub waves: Seq<Wave>,
}

impl View for WaveManager {
    type V = WaveManagerView;

    open spec fn view(&self) -> WaveManagerView {
        WaveManagerView { global_time: self.global_time, waves: self.waves@ }
    }
}

/// One reported overlap of two colliders: that of the entity `source`, for
/// which the query was made, and that of the entity `target`.
#[derive(Clone, Copy, PartialEq, Eq, Structural, Debug)]
pub struct Overlap {
    pub source: u64,
    pub target: u64,
}

/// Everything a game session holds.
#[derive(Clone, Debug)]
pub struct World {
    /// The current phase.
    pub state: GameState,
    /// The phase asked for, entered by the next transition.
    pub next_state: Option<GameState>,
    /// Whether the about page covers the main menu.
    pub about_shown: bool,
    /// The identifier that the next entity gets.
    pub next_id: u64,
    pub camera: Vec2,
    pub player: Option<Player>,
    pub enemies: Vec<Enemy>,
    pub whips: Vec<Whip>,
    pub close_shots: Vec<CloseShot>,
    pub close_shot_bullets: Vec<CloseShotBullet>,
    pub area_shots: Vec<AreaShot>,
    pub area_shot_bullets: Vec<AreaShotBullet>,
    pub orbs: Vec<ExpOrb>,
    pub texts: Vec<WorldTextUI>,
    pub particles: Vec<LevelUpParticle>,
    pub wave_manager: WaveManager,
    /// The upgrades chosen and not yet applied.
    pub upgrades: Vec<UpgradeSelected>,
    /// The upgrades on offer while the level-up page is open.
    pub level_up_options: Vec<WeaponUpgrade>,
}

/// The mathematical content of a [`World`].
#[verifier::ext_equal]
pub struct WorldView {
    pub state: GameState,
    pub next_state: Option<GameState>,
    pub about_shown: bool,
    pub next_id: u64,
    pub camera: Vec2,
    pub player: Option<Player>,
    pub enemies: Seq<Enemy>,
    pub whips: Seq<Whip>,
    pub close_shots: Seq<CloseShot>,
    pub close_shot_bullets: Seq<CloseShotBullet>,
    pub area_shots: Seq<AreaShot>,
    pub area_shot_bullets: Seq<AreaShotBullet>,
    pub orbs: Seq<ExpOrb>,
    pub texts: Seq<WorldTextUI>,
    pub particles: Seq<LevelUpParticle>,
    pub wave_manager: WaveManagerView,
    pub upgrades: Seq<UpgradeSelected>,
    pub level_up_options: Seq<WeaponUpgrade>,
}

impl View for World {
    type V = WorldView;

    open spec fn view(&self) -> WorldView {
        WorldView {
            state: self.state,
            next_state: self.next_state,
            about_shown: self.about_shown,
            next_id: self.next_id,
            camera: self.camera,
            player: self.player,
            enemies: self.enemies@,
            whips: self.whips@,
            close_shots: self.close_shots@,
            close_shot_bullets: self.close_shot_bullets@,
            area_shots: self.area_shots@,
            area_shot_bullets: self.area_shot_bullets@,
            orbs: self.orbs@,
            texts: self.texts@,
            particles: self.particles@,
            wave_manager: self.wave_manager@,
            upgrades: self.upgrades@,
            level_up_options: self.level_up_options@,
        }
    }
}

impl WorldView {
    /// The world before anything has happened: the main menu, no entities,
    /// the stopwatch at zero.
    pub open spec fn initial(waves: Seq<Wave>) -> WorldView {
        WorldView {
            state: GameState::MainMenu,
            next_state: None,
            about_shown: false,
            next_id: 0,
            camera: Vec2 { x: 0, y: 0 },
            player: None,
            enemies: Seq::empty(),
            whips: Seq::empty(),
            close_shots: Seq::empty(),
            close_shot_bullets: Seq::empty(),
            area_shots: Seq::empty(),
            area_shot_bullets: Seq::empty(),
            orbs: Seq::empty(),
            texts: Seq::empty(),
            particles: Seq::empty(),
            wave_manager: WaveManagerView { global_time: Stopwatch { elapsed: 0 }, waves },
            upgrades: Seq::empty(),
            level_up_options: Seq::empty(),
        }
    }

    /// Whether an identifier is left for one more entity.
    pub open spec fn can_spawn(self) -> bool {
        self.next_id < u64::MAX
    }

    /// The world after one identifier has been handed out.
    pub open spec fn allocated(self) -> WorldView {
        WorldView { next_id: (self.next_id + 1) as u64, ..self }
    }

    /// Whether an entity of the world carries the identifier `id`.
    pub open spec fn uses_id(self, id: u64) -> bool {
        ||| (self.player matches Some(p) && p.id == id)
        ||| exists|i: int| 0 <= i < self.enemies.len() && #[trigger] self.enemies[i].id == id
        ||| exists|i: int| 0 <= i < self.whips.len() && #[trigger] self.whips[i].id == id
        ||| exists|i: int|
            0 <= i < self.close_shots.len() && #[trigger] self.close_shots[i].id == id
        ||| exists|i: int|
            0 <= i < self.close_shot_bullets.len() && #[trigger] self.close_shot_bullets[i].id
                == id
        ||| exists|i: int| 0 <= i < self.area_shots.len() && #[trigger] self.area_shots[i].id == id
        ||| exists|i: int|
            0 <= i < self.area_shot_bullets.len() && #[trigger] self.area_shot_bullets[i].id == id
        ||| exists|i: int| 0 <= i < self.orbs.len() && #[trigger] self.orbs[i].id == id
        ||| exists|i: int| 0 <= i < self.texts.len() && #[trigger] self.texts[i].id == id
    }

    /// Every identifier in use was handed out by this world: it lies below
    /// the next one. Spawning keeps this, so that a new entity never gets the
    /// identifier of another.
    pub open spec fn ids_in_order(self) -> bool {
        forall|id: u64| self.uses_id(id) ==> id < self.next_id
    }
}

impl World {
    /// A world at the main menu, with the given waves and no entity.
    pub fn new(waves: Vec<Wave>) -> (r: World)
        ensures
            r@ == WorldView::initial(waves@),
    {
        World {
            state: GameState::MainMenu,
            next_state: None,
            about_shown: false,
            next_id: 0,
            camera: Vec2::zero(),
            player: None,
            enemies: Vec::new(),
            whips: Vec::new(),
            close_shots: Vec::new(),
            close_shot_bullets: Vec::new(),
            area_shots: Vec::new(),
            area_shot_bullets: Vec::new(),
            orbs: Vec::new(),
            texts: Vec::new(),
            particles: Vec::new(),
            wave_manager: WaveManager { global_time: Stopwatch::new(), waves },
            upgrades: Vec::new(),
            level_up_options: Vec::new(),
        }
    }

    /// Hands out the next identifier, or `None` when all have been used.
    pub fn allocate(&mut self) -> (r: Option<u64>)
        ensures
            old(self)@.can_spawn() ==> r == Some(old(self).next_id) && final(self)@ == old(
                self,
            )@.allocated(),
            !old(self)@.can_spawn() ==> r.is_none() && final(self)@ == old(self)@,
    {
        if self.next_id == u64::MAX {
            None
        } else {
            let id: u64 = self.next_id;
            self.next_id = id + 1;
            Some(id)
        }
    }
}

/// The index of the first enemy with the identifier `id`, looking from
/// index `from` on.
pub open spec fn enemy_index_from(enemies: Seq<Enemy>, id: u64, from: int) -> Option<int>
    decreases enemies.len() - from,
{
    if from < 0 || from >= enemies.len() {
        None
    } else if enemies[from].id == id {
        Some(from)
    } else {
        enemy_index_from(enemies, id, from + 1)
    }
}

/// The index of the first enemy with the identifier `id`.
pub open spec fn enemy_index(enemies: Seq<Enemy>, id: u64) -> Option<int> {
    enemy_index_from(enemies, id, 0)
}

/// What [`enemy_index`] finds is an enemy with that identifier, and none
/// stands before it; it finds nothing only where there is none.
pub proof fn lemma_enemy_index(enemies: Seq<Enemy>, id: u64, from: int)
    requires
        0 <= from,
    ensures
        match enemy_index_from(enemies, id, from) {
            Some(k) => from <= k < enemies.len() && enemies[k].id == id && forall|j: int|
                from <= j < k ==> enemies[j].id != id,
            None => forall|j: int| from <= j < enemies.len() ==> enemies[j].id != id,
        },
    decreases enemies.len() - from,
{
    if from < enemies.len() && enemies[from].id != id {
        lemma_enemy_index(enemies, id, from + 1);
    }
}

/// Computes [`enemy_index`].
pub fn find_enemy(enemies: &Vec<Enemy>, id: u64) -> (r: Option<usize>)
    ensures
        match r {
            Some(k) => enemy_index(enemies@, id) == Some(k as int) && k < enemies@.len(),
            None => enemy_index(enemies@, id).is_none(),
        },
{
    let mut i: usize = 0;
    while i < enemies.len()
        invariant
            0 <= i <= enemies@.len(),
            enemy_index(enemies@, id) == enemy_index_from(enemies@, id, i as int),
        decreases enemies@.len() - i,
    {
        if enemies[i].id == id {
            return Some(i);
        }
        i += 1;
    }
    None
}

/// Whether `id` is among `ids`.
pub fn contains_id(ids: &Vec<u64>, id: u64) -> (r: bool)
    ensures
        r == ids@.contains(id),
{
    let mut i: usize = 0;
    while i < ids.len()
        invariant
            0 <= i <= ids@.len(),
            forall|j: int| 0 <= j < i ==> ids@[j] != id,
        decreases ids@.len() - i,
    {
        if ids[i] == id {
            return true;
        }
        i += 1;
    }
    false
}

} // verus!
