//! The enemies: how they come, move, hurt the player, and go.

use crate::attack::scatter_at;
use crate::exp::{orb_spawned, spawn_orb};
use crate::fixed::{amount, compute_amount, compute_step_length, step_length, Vec2};
use crate::model::{Enemy, EnemyTemplate, GameState, World, WorldView};
use crate::random::{draw_fractions, draw_scatters, is_fraction, scatter_around, scattered, Scatter};
use crate::schedule::{Entry, Schedule, System, Trigger};
use crate::wave::Batch;
use turborand::rng::Rng;
use vstd::prelude::*;

verus! {

/// The enemies: all their rules act during play, the contact damage after the movement.
#[derive(Clone, Copy, Debug)]
pub struct EnemyPlugin;

impl EnemyPlugin {
    /// The systems of this plugin with their moments, in the order in
    /// which they are entered.
    pub open spec fn entries() -> Seq<Entry> {
        seq![
            Entry {
                trigger: Trigger::OnUpdate(GameState::Gameplay),
                system: System::EnemyDeathCheck,
                after: None,
            },
            Entry {
                trigger: Trigger::OnUpdate(GameState::Gameplay),
                system: System::EnemyMovement,
                after: None,
            },
            Entry {
                trigger: Trigger::OnUpdate(GameState::Gameplay),
                system: System::SpawnEnemy,
                after: None,
            },
            Entry {
                trigger: Trigger::OnUpdate(GameState::Gameplay),
                system: System::DespawnEnemy,
                after: None,
            },
            Entry {
                trigger: Trigger::OnUpdate(GameState::Gameplay),
                system: System::EnemyDamagePlayer,
                after: Some(System::EnemyMovement),
            },
        ]
    }

    /// Enters the systems of this plugin into `schedule`.
    pub fn build(&self, schedule: &mut Schedule)
        ensures
            final(schedule)@ == old(schedule)@ + EnemyPlugin::entries(),
    {
        schedule.add(Trigger::OnUpdate(GameState::Gameplay), System::EnemyDeathCheck);
        schedule.add(Trigger::OnUpdate(GameState::Gameplay), System::EnemyMovement);
        schedule.add(Trigger::OnUpdate(GameState::Gameplay), System::SpawnEnemy);
        schedule.add(Trigger::OnUpdate(GameState::Gameplay), System::DespawnEnemy);
        schedule.add_after(
            Trigger::OnUpdate(GameState::Gameplay),
            System::EnemyDamagePlayer,
            System::EnemyMovement,
        );
        assert(schedule@ =~= old(schedule)@ + EnemyPlugin::entries());
    }
}

/// How far from the player enemies appear, in millionths of a unit: beyond
/// the edge of the screen.
pub const SPAWN_RING: u32 = 22_000_000;

/// The factor on the jitter of an enemy's place, in millionths.
pub const SPAWN_SPREAD: u32 = 1_000_000;

/// How far from the player an enemy may stray before it is removed, in
/// millionths of a unit.
pub const DESPAWN_RADIUS: u32 = 30_000_000;

/// The least distance from the player at which an enemy can appear, in
/// millionths of a unit: the ring less the longest jitter and the rounding.
/// The corners of the screen lie 20.4 units from the player in its middle.
pub const SPAWN_CLEARANCE: u32 = 20_585_784;

/// The greatest distance from the player at which an enemy can appear, in
/// millionths of a unit: the ring and the longest jitter. It lies inside
/// the despawn radius.
pub const SPAWN_REACH: u32 = 23_414_214;

/// The roll above which a dead enemy leaves an orb, in millionths.
pub const ORB_DROP_THRESHOLD: i32 = 500_000;

/// The enemy made from `template` at `position`.
pub open spec fn new_enemy(id: u64, template: EnemyTemplate, position: Vec2) -> Enemy {
    Enemy {
        id,
        position,
        flip_x: false,
        speed: template.speed,
        health: template.health,
        asset: template.asset,
        damage_per_second: template.damage_per_second,
    }
}

/// The world with one more enemy; unchanged where no identifier is left.
pub open spec fn enemy_spawned(w: WorldView, template: EnemyTemplate, position: Vec2) -> WorldView {
    if w.can_spawn() {
        WorldView {
            enemies: w.enemies.push(new_enemy(w.next_id, template, position)),
            ..w.allocated()
        }
    } else {
        w
    }
}

/// Puts an enemy made from `template` at `position`; returns its identifier.
pub fn spawn_one_enemy(
    world: &mut World,
    template: EnemyTemplate,
    position: Vec2,
) -> (r: Option<u64>)
    ensures
        final(world)@ == enemy_spawned(old(world)@, template, position),
        r == if old(world)@.can_spawn() {
            Some(old(world).next_id)
        } else {
            None
        },
{
    match world.allocate() {
        Some(id) => {
            world.enemies.push(
                Enemy {
                    id,
                    position,
                    flip_x: false,
                    speed: template.speed,
                    health: template.health,
                    asset: template.asset,
                    damage_per_second: template.damage_per_second,
                },
            );
            Some(id)
        },
        None => None,
    }
}

/// The world after the first `n` enemies of `batch` have appeared on the
/// ring around `center`, the enemy at place `i` where the scatter at place
/// `i` picks.
pub open spec fn batch_spawned(
    w: WorldView,
    batch: Batch,
    center: Vec2,
    scatters: Seq<Scatter>,
    n: int,
) -> WorldView
    decreases n,
{
    if n <= 0 {
        w
    } else {
        enemy_spawned(
            batch_spawned(w, batch, center, scatters, n - 1),
            batch.enemy,
            scattered(center, scatter_at(scatters, n - 1), SPAWN_RING, SPAWN_SPREAD),
        )
    }
}

/// The world after the wave manager's turn: `dt` has passed for it, and if
/// a batch is due then, all its enemies have appeared around the player.
/// Unchanged without a player.
pub open spec fn spawn_enemy_done(w: WorldView, dt: u64, scatters: Seq<Scatter>) -> WorldView {
    match w.player {
        Some(player) => {
            let manager = w.wave_manager.ticked(dt);
            let ticked = WorldView { wave_manager: manager, ..w };
            match manager.due() {
                Some(batch) => batch_spawned(
                    ticked,
                    batch,
                    player.position,
                    scatters,
                    batch.size as int,
                ),
                None => ticked,
            }
        },
        None => w,
    }
}

/// The wave manager's turn, with the places of new enemies picked by
/// `scatters`; a scatter that is missing counts as all zeros.
pub fn spawn_enemy_with(world: &mut World, dt: u64, scatters: &Vec<Scatter>)
    ensures
        final(world)@ == spawn_enemy_done(old(world)@, dt, scatters@),
{
    let center: Vec2 = match world.player {
        Some(player) => player.position,
        None => {
            return ;
        },
    };
    world.wave_manager.tick(dt);
    let batch: Batch = match world.wave_manager.due() {
        Some(batch) => batch,
        None => {
            return ;
        },
    };
    let ghost ticked = world@;
    let mut i: u32 = 0;
    while i < batch.size
        invariant
            0 <= i <= batch.size,
            world@ == batch_spawned(ticked, batch, center, scatters@, i as int),
        decreases batch.size - i,
    {
        let scatter: Scatter = if (i as usize) < scatters.len() {
            scatters[i as usize]
        } else {
            Scatter { direction: Vec2::zero(), jitter: Vec2::zero() }
        };
        let place: Vec2 = scatter_around(center, scatter, SPAWN_RING, SPAWN_SPREAD);
        spawn_one_enemy(world, batch.enemy, place);
        i += 1;
    }
}

/// The wave manager's turn with places drawn from `rng`: for some scatters
/// in range, the world is as [`spawn_enemy_done`] says.
pub fn spawn_enemy(world: &mut World, dt: u64, rng: &Rng)
    ensures
        exists|scatters: Seq<Scatter>|
            {
                &&& forall|i: int| 0 <= i < scatters.len() ==> (#[trigger] scatters[i]).in_range()
                &&& final(world)@ == spawn_enemy_done(old(world)@, dt, scatters)
            },
{
    let count: usize = match world.wave_manager.upcoming(dt) {
        Some(batch) => batch.size as usize,
        None => 0,
    };
    let scatters: Vec<Scatter> = draw_scatters(rng, count);
    spawn_enemy_with(world, dt, &scatters);
}

/// The enemy after `dt` microseconds of walking toward `target`: it looks
/// the way it walks.
pub open spec fn enemy_moved(enemy: Enemy, target: Vec2, dt: u64) -> Enemy {
    Enemy {
        flip_x: enemy.position.x < target.x,
        position: enemy.position.stepped_toward(target, step_length(enemy.speed, dt)),
        ..enemy
    }
}

/// The world after every enemy has walked toward the player for `dt`;
/// unchanged without a player.
pub open spec fn enemy_movement_done(w: WorldView, dt: u64) -> WorldView {
    match w.player {
        Some(player) => WorldView {
            enemies: Seq::new(
                w.enemies.len(),
                |i: int| enemy_moved(w.enemies[i], player.position, dt),
            ),
            ..w
        },
        None => w,
    }
}

/// Lets every enemy walk toward the player for `dt` microseconds.
pub fn enemy_movement(world: &mut World, dt: u64)
    ensures
        final(world)@ == enemy_movement_done(old(world)@, dt),
{
    let target: Vec2 = match world.player {
        Some(player) => player.position,
        None => {
            return ;
        },
    };
    let count: usize = world.enemies.len();
    let mut i: usize = 0;
    while i < count
        invariant
            0 <= i <= count,
            count == old(world)@.enemies.len(),
            world@.enemies.len() == count,
            world@ == (WorldView { enemies: world@.enemies, ..old(world)@ }),
            forall|j: int|
                0 <= j < i ==> world@.enemies[j] == enemy_moved(old(world)@.enemies[j], target, dt),
            forall|j: int| i <= j < count ==> world@.enemies[j] == old(world)@.enemies[j],
        decreases count - i,
    {
        let mut enemy: Enemy = world.enemies[i];
        enemy.flip_x = enemy.position.x < target.x;
        enemy.position = enemy.position.step_toward(target, compute_step_length(enemy.speed, dt));
        world.enemies.set(i, enemy);
        i += 1;
    }
    assert(world@.enemies =~= enemy_movement_done(old(world)@, dt).enemies);
}

/// `health` after `damage`: never below zero.
pub open spec fn drained(health: u64, damage: u64) -> u64 {
    if health >= damage {
        (health - damage) as u64
    } else {
        0
    }
}

/// `health` after `damage` for each time that `id` occurs in `contacts`.
pub open spec fn contact_drained(health: u64, damage: u64, id: u64, contacts: Seq<u64>) -> u64
    decreases contacts.len(),
{
    if contacts.len() == 0 {
        health
    } else {
        let before = contact_drained(health, damage, id, contacts.drop_last());
        if contacts.last() == id {
            drained(before, damage)
        } else {
            before
        }
    }
}

/// `health` after the first `n` enemies have each drained it for `dt`
/// microseconds, once for each time the enemy is reported in contact.
pub open spec fn enemies_drained(
    health: u64,
    enemies: Seq<Enemy>,
    dt: u64,
    contacts: Seq<u64>,
    n: int,
) -> u64
    decreases n,
{
    if n <= 0 || n > enemies.len() {
        health
    } else {
        contact_drained(
            enemies_drained(health, enemies, dt, contacts, n - 1),
            amount(enemies[n - 1].damage_per_second, dt),
            enemies[n - 1].id,
            contacts,
        )
    }
}

/// The world after the enemies in contact with the player have drained the
/// player's health for `dt`; unchanged without a player.
pub open spec fn enemy_damage_player_done(w: WorldView, dt: u64, contacts: Seq<u64>) -> WorldView {
    match w.player {
        Some(player) => WorldView {
            player: Some(
                crate::model::Player {
                    health: enemies_drained(
                        player.health,
                        w.enemies,
                        dt,
                        contacts,
                        w.enemies.len() as int,
                    ),
                    ..player
                },
            ),
            ..w
        },
        None => w,
    }
}

/// Computes [`contact_drained`].
fn drain_for_contacts(health: u64, damage: u64, id: u64, contacts: &Vec<u64>) -> (r: u64)
    ensures
        r == contact_drained(health, damage, id, contacts@),
{
    let mut left: u64 = health;
    let mut i: usize = 0;
    while i < contacts.len()
        invariant
            0 <= i <= contacts@.len(),
            left == contact_drained(health, damage, id, contacts@.take(i as int)),
        decreases contacts@.len() - i,
    {
        assert(contacts@.take(i + 1).drop_last() == contacts@.take(i as int));
        if contacts[i] == id {
            left = if left >= damage {
                left - damage
            } else {
                0
            };
        }
        i += 1;
    }
    assert(contacts@.take(i as int) == contacts@);
    left
}

/// Drains the player's health for `dt` microseconds of contact.
/// `contacts` holds the identifier of each enemy whose collider overlaps
/// the player now.
pub fn enemy_damage_player(world: &mut World, dt: u64, contacts: &Vec<u64>)
    ensures
        final(world)@ == enemy_damage_player_done(old(world)@, dt, contacts@),
{
    let mut player = match world.player {
        Some(player) => player,
        None => {
            return ;
        },
    };
    let ghost start = player.health;
    let count: usize = world.enemies.len();
    let mut i: usize = 0;
    while i < count
        invariant
            0 <= i <= count,
            count == world@.enemies.len(),
            world@ == old(world)@,
            player == (crate::model::Player {
                health: enemies_drained(start, world@.enemies, dt, contacts@, i as int),
                ..old(world)@.player.unwrap()
            }),
            old(world)@.player == Some(crate::model::Player { health: start, ..player }),
        decreases count - i,
    {
        let enemy: Enemy = world.enemies[i];
        player.health = drain_for_contacts(
            player.health,
            compute_amount(enemy.damage_per_second, dt),
            enemy.id,
            contacts,
        );
        i += 1;
    }
    world.player = Some(player);
}

/// The enemies that stay: those no farther than the despawn radius from `center`.
pub open spec fn enemy_in_range(center: Vec2) -> spec_fn(Enemy) -> bool {
    |enemy: Enemy| !(center.distance_squared(enemy.position) > DESPAWN_RADIUS * DESPAWN_RADIUS)
}

/// The world without the enemies that have strayed too far from the
/// player; unchanged without a player.
pub open spec fn despawn_enemy_done(w: WorldView) -> WorldView {
    match w.player {
        Some(player) => WorldView {
            enemies: w.enemies.filter(enemy_in_range(player.position)),
            ..w
        },
        None => w,
    }
}

/// Removes the enemies that have strayed too far from the player.
pub fn despawn_enemy(world: &mut World)
    ensures
        final(world)@ == despawn_enemy_done(old(world)@),
{
    let center: Vec2 = match world.player {
        Some(player) => player.position,
        None => {
            return ;
        },
    };
    let count: usize = world.enemies.len();
    let mut kept: Vec<Enemy> = Vec::new();
    let mut i: usize = 0;
    while i < count
        invariant
            0 <= i <= count,
            count == old(world)@.enemies.len(),
            world@ == old(world)@,
            kept@ == old(world)@.enemies.take(i as int).filter(enemy_in_range(center)),
        decreases count - i,
    {
        let enemy: Enemy = world.enemies[i];
        proof {
            let enemies = old(world)@.enemies;
            assert(enemies.take(i + 1).drop_last() == enemies.take(i as int));
            reveal(Seq::filter);
        }
        if !center.farther_than(enemy.position, DESPAWN_RADIUS) {
            kept.push(enemy);
        }
        i += 1;
    }
    assert(old(world)@.enemies.take(count as int) == old(world)@.enemies);
    world.enemies = kept;
}

/// Whether a dead enemy leaves an orb, given its roll.
pub open spec fn orb_drops(roll: i32) -> bool {
    roll > ORB_DROP_THRESHOLD
}

/// The roll at place `index`, or zero past the end.
pub open spec fn roll_at(rolls: Seq<i32>, index: int) -> i32 {
    if 0 <= index < rolls.len() {
        rolls[index]
    } else {
        0
    }
}

/// The enemies that live on: those with health left.
pub open spec fn enemy_alive() -> spec_fn(Enemy) -> bool {
    |enemy: Enemy| enemy.health > 0
}

/// The world after the first `n` enemies have been looked at: each dead one
/// whose roll says so has left an orb where it stood.
pub open spec fn orbs_dropped(w: WorldView, rolls: Seq<i32>, n: int) -> WorldView
    decreases n,
{
    if n <= 0 {
        w
    } else {
        let before = orbs_dropped(w, rolls, n - 1);
        if n <= w.enemies.len() && w.enemies[n - 1].health == 0 && orb_drops(
            roll_at(rolls, n - 1),
        ) {
            orb_spawned(before, w.enemies[n - 1].position)
        } else {
            before
        }
    }
}

/// Dropping orbs touches nothing but the orbs and the identifier counter.
pub proof fn lemma_orbs_dropped_frame(w: WorldView, rolls: Seq<i32>, n: int)
    ensures
        ({
            let r = orbs_dropped(w, rolls, n);
            r == (WorldView { orbs: r.orbs, next_id: r.next_id, ..w })
        }),
    decreases n,
{
    if n > 0 {
        lemma_orbs_dropped_frame(w, rolls, n - 1);
    }
}

/// The world after the death check: the dead enemies are gone, and each
/// has left an orb if the roll at its place says so.
pub open spec fn enemy_death_check_done(w: WorldView, rolls: Seq<i32>) -> WorldView {
    WorldView {
        enemies: w.enemies.filter(enemy_alive()),
        ..orbs_dropped(w, rolls, w.enemies.len() as int)
    }
}

/// The death check, with the roll for the enemy at place `i` at place `i`
/// of `rolls`; a roll that is missing counts as zero.
pub fn enemy_death_check_with(world: &mut World, rolls: &Vec<i32>)
    ensures
        final(world)@ == enemy_death_check_done(old(world)@, rolls@),
{
    let count: usize = world.enemies.len();
    let mut kept: Vec<Enemy> = Vec::new();
    let mut i: usize = 0;
    while i < count
        invariant
            0 <= i <= count,
            count == old(world)@.enemies.len(),
            world@ == orbs_dropped(old(world)@, rolls@, i as int),
            kept@ == old(world)@.enemies.take(i as int).filter(enemy_alive()),
        decreases count - i,
    {
        proof {
            lemma_orbs_dropped_frame(old(world)@, rolls@, i as int);
            let enemies = old(world)@.enemies;
            assert(enemies.take(i + 1).drop_last() == enemies.take(i as int));
            reveal(Seq::filter);
        }
        let enemy: Enemy = world.enemies[i];
        if enemy.health == 0 {
            let roll: i32 = if i < rolls.len() {
                rolls[i]
            } else {
                0
            };
            if roll > ORB_DROP_THRESHOLD {
                spawn_orb(world, enemy.position);
            }
        } else {
            kept.push(enemy);
        }
        i += 1;
    }
    assert(old(world)@.enemies.take(count as int) == old(world)@.enemies);
    world.enemies = kept;
}

/// The death check with rolls drawn from `rng`: for some rolls, each at
/// least zero and below one, one for each enemy, the world is as
/// [`enemy_death_check_done`] says.
pub fn enemy_death_check(world: &mut World, rng: &Rng)
    ensures
        exists|rolls: Seq<i32>|
            {
                &&& rolls.len() == old(world)@.enemies.len()
                &&& forall|i: int| 0 <= i < rolls.len() ==> is_fraction(#[trigger] rolls[i])
                &&& final(world)@ == enemy_death_check_done(old(world)@, rolls)
            },
{
    let rolls: Vec<i32> = draw_fractions(rng, world.enemies.len());
    enemy_death_check_with(world, &rolls);
}

} // verus!
