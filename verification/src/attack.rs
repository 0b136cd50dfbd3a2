//! The three weapons of the player and the damage they deal.

use crate::fixed::{amount, compute_amount, compute_step_length, step_length, Vec2, POINT};
use crate::model::{
    enemy_index, find_enemy, AreaShot, AreaShotBullet, CloseShot, CloseShotBullet, Enemy, Facing,
    GameState, Overlap, TwoFrameAnimation, Whip, World, WorldView,
};
use crate::random::{draw_scatters, scatter_around, scattered, Scatter};
use crate::schedule::{Entry, Schedule, System, Trigger};
use crate::timer::{Timer, TimerMode};
use crate::ui::{spawn_world_text, world_text_spawned};
use turborand::rng::Rng;
use vstd::prelude::*;

verus! {

/// The weapons: all of them act during play.
#[derive(Clone, Copy, Debug)]
pub struct AttackPlugin;

impl AttackPlugin {
    /// The systems of this plugin with their moments, in the order in
    /// which they are entered.
    pub open spec fn entries() -> Seq<Entry> {
        seq![
            Entry {
                trigger: Trigger::OnUpdate(GameState::Gameplay),
                system: System::WhipAttackFacing,
                after: None,
            },
            Entry {
                trigger: Trigger::OnUpdate(GameState::Gameplay),
                system: System::WhipAttack,
                after: None,
            },
            Entry {
                trigger: Trigger::OnUpdate(GameState::Gameplay),
                system: System::CloseShotAttack,
                after: None,
            },
            Entry {
                trigger: Trigger::OnUpdate(GameState::Gameplay),
                system: System::CloseShotBullet,
                after: None,
            },
            Entry {
                trigger: Trigger::OnUpdate(GameState::Gameplay),
                system: System::AreaShotAttack,
                after: None,
            },
            Entry {
                trigger: Trigger::OnUpdate(GameState::Gameplay),
                system: System::AreaShotBullet,
                after: None,
            },
        ]
    }

    /// Enters the systems of this plugin into `schedule`.
    pub fn build(&self, schedule: &mut Schedule)
        ensures
            final(schedule)@ == old(schedule)@ + AttackPlugin::entries(),
    {
        schedule.add(Trigger::OnUpdate(GameState::Gameplay), System::WhipAttackFacing);
        schedule.add(Trigger::OnUpdate(GameState::Gameplay), System::WhipAttack);
        schedule.add(Trigger::OnUpdate(GameState::Gameplay), System::CloseShotAttack);
        schedule.add(Trigger::OnUpdate(GameState::Gameplay), System::CloseShotBullet);
        schedule.add(Trigger::OnUpdate(GameState::Gameplay), System::AreaShotAttack);
        schedule.add(Trigger::OnUpdate(GameState::Gameplay), System::AreaShotBullet);
        assert(schedule@ =~= old(schedule)@ + AttackPlugin::entries());
    }
}

/// The time between two strikes of a whip, in microseconds.
pub const WHIP_PERIOD: u64 = 2_000_000;

/// The time that a new whip has already waited for its first strike.
pub const WHIP_HEAD_START: u64 = 1_000_000;

/// The damage of one strike of a new whip, in billionths of a point.
pub const WHIP_DAMAGE: u64 = 5_000_000_000;

/// How far beside the player a whip lies, in millionths of a unit.
pub const WHIP_REACH: i32 = 3_500_000;

/// The period of the animation timer of a whip, which never runs out in
/// play: the strike itself changes the images of a whip.
pub const WHIP_ANIMATION_PERIOD: u64 = 10_000_000_000;

/// The time between two shots of a close shot.
pub const CLOSE_SHOT_PERIOD: u64 = 1_200_000;

/// How long a bullet of the close shot flies.
pub const CLOSE_SHOT_BULLET_LIFETIME: u64 = 5_000_000;

/// The damage of a bullet of the close shot, in billionths of a point.
pub const CLOSE_SHOT_BULLET_DAMAGE: u64 = 2_000_000_000;

/// The speed of a bullet of the close shot, in thousandths of a unit per second.
pub const CLOSE_SHOT_BULLET_SPEED: u32 = 4_500;

/// The time between two zones of an area shot.
pub const AREA_SHOT_PERIOD: u64 = 2_500_000;

/// The time between two pulses of damage of a zone.
pub const AREA_SHOT_BULLET_PULSE: u64 = 250_000;

/// How long a zone stays.
pub const AREA_SHOT_BULLET_LIFETIME: u64 = 8_000_000;

/// The damage of a zone, in thousandths of a point per second.
pub const AREA_SHOT_BULLET_DAMAGE_PER_SECOND: u32 = 4_100;

/// How far from the player a zone is dropped, in millionths of a unit.
pub const AREA_SHOT_RING: u32 = 7_000_000;

/// The factor on the jitter of a zone's place, in millionths.
pub const AREA_SHOT_SPREAD: u32 = 1_500_000;

/// The least distance from the player at which a zone can be dropped, in
/// millionths of a unit: the ring less the longest jitter and the rounding.
pub const AREA_SHOT_NEAREST: u32 = 4_878_677;

/// The greatest distance from the player at which a zone can be dropped,
/// in millionths of a unit: the ring and the longest jitter.
pub const AREA_SHOT_FARTHEST: u32 = 9_121_321;

/// The enemy after it has taken `damage`: its health never goes below zero.
pub open spec fn hurt(enemy: Enemy, damage: u64) -> Enemy {
    Enemy {
        health: if enemy.health >= damage {
            (enemy.health - damage) as u64
        } else {
            0
        },
        ..enemy
    }
}

/// The world after the enemy `id` has taken `damage`: its health is lower,
/// and a damage number with the whole points of the damage floats over it.
/// Unchanged where no enemy has that identifier.
pub open spec fn enemy_damaged(w: WorldView, id: u64, damage: u64) -> WorldView {
    match enemy_index(w.enemies, id) {
        Some(k) => world_text_spawned(
            WorldView { enemies: w.enemies.update(k, hurt(w.enemies[k], damage)), ..w },
            w.enemies[k].position,
            damage / POINT,
        ),
        None => w,
    }
}

/// Deals `damage` to the enemy `id`.
pub fn damage_enemy(world: &mut World, id: u64, damage: u64)
    ensures
        final(world)@ == enemy_damaged(old(world)@, id, damage),
{
    if let Some(k) = find_enemy(&world.enemies, id) {
        let mut enemy: Enemy = world.enemies[k];
        let position: Vec2 = enemy.position;
        enemy.health = if enemy.health >= damage {
            enemy.health - damage
        } else {
            0
        };
        world.enemies.set(k, enemy);
        spawn_world_text(world, position, damage / POINT);
    }
}

/// The world after every overlap that `source` has with an enemy has cost
/// that enemy `damage`, in the order of the reports.
pub open spec fn hits_applied(
    w: WorldView,
    source: u64,
    overlaps: Seq<Overlap>,
    damage: u64,
) -> WorldView
    decreases overlaps.len(),
{
    if overlaps.len() == 0 {
        w
    } else {
        let before = hits_applied(w, source, overlaps.drop_last(), damage);
        if overlaps.last().source == source {
            enemy_damaged(before, overlaps.last().target, damage)
        } else {
            before
        }
    }
}

/// A hit touches nothing but the health of one enemy, the damage numbers
/// and the identifier counter.
pub proof fn lemma_enemy_damaged_frame(w: WorldView, id: u64, damage: u64)
    ensures
        ({
            let r = enemy_damaged(w, id, damage);
            &&& r == (WorldView { enemies: r.enemies, texts: r.texts, next_id: r.next_id, ..w })
            &&& r.enemies.len() == w.enemies.len()
            &&& forall|i: int|
                0 <= i < w.enemies.len() ==> (#[trigger] r.enemies[i]).id == w.enemies[i].id
                    && r.enemies[i].position == w.enemies[i].position
        }),
{
    crate::model::lemma_enemy_index(w.enemies, id, 0);
}

/// Hits touch nothing but the health of enemies, the damage numbers and the
/// identifier counter; no enemy comes or goes, and none changes its
/// identifier or its place.
pub proof fn lemma_hits_applied_frame(
    w: WorldView,
    source: u64,
    overlaps: Seq<Overlap>,
    damage: u64,
)
    ensures
        ({
            let r = hits_applied(w, source, overlaps, damage);
            &&& r == (WorldView { enemies: r.enemies, texts: r.texts, next_id: r.next_id, ..w })
            &&& r.enemies.len() == w.enemies.len()
            &&& forall|i: int|
                0 <= i < w.enemies.len() ==> (#[trigger] r.enemies[i]).id == w.enemies[i].id
                    && r.enemies[i].position == w.enemies[i].position
        }),
    decreases overlaps.len(),
{
    if overlaps.len() > 0 {
        lemma_hits_applied_frame(w, source, overlaps.drop_last(), damage);
        let before = hits_applied(w, source, overlaps.drop_last(), damage);
        lemma_enemy_damaged_frame(before, overlaps.last().target, damage);
    }
}

/// Deals `damage` to every enemy that `source` is reported to overlap.
pub fn apply_hits(world: &mut World, source: u64, overlaps: &Vec<Overlap>, damage: u64)
    ensures
        final(world)@ == hits_applied(old(world)@, source, overlaps@, damage),
{
    let mut i: usize = 0;
    while i < overlaps.len()
        invariant
            0 <= i <= overlaps@.len(),
            world@ == hits_applied(old(world)@, source, overlaps@.take(i as int), damage),
        decreases overlaps@.len() - i,
    {
        assert(overlaps@.take(i + 1).drop_last() == overlaps@.take(i as int));
        let overlap: Overlap = overlaps[i];
        if overlap.source == source {
            damage_enemy(world, overlap.target, damage);
        }
        i += 1;
    }
    assert(overlaps@.take(i as int) == overlaps@);
}

/// The area shot that [`spawn_area_shot`] makes.
pub open spec fn new_area_shot(id: u64) -> AreaShot {
    AreaShot { id, timer: Timer::started(AREA_SHOT_PERIOD, TimerMode::Repeating) }
}

/// The world with one more area shot; unchanged where no identifier is left.
pub open spec fn area_shot_spawned(w: WorldView) -> WorldView {
    if w.can_spawn() {
        WorldView { area_shots: w.area_shots.push(new_area_shot(w.next_id)), ..w.allocated() }
    } else {
        w
    }
}

/// Gives the player an area shot; returns its identifier.
pub fn spawn_area_shot(world: &mut World) -> (r: Option<u64>)
    ensures
        final(world)@ == area_shot_spawned(old(world)@),
        r == if old(world)@.can_spawn() {
            Some(old(world).next_id)
        } else {
            None
        },
{
    match world.allocate() {
        Some(id) => {
            world.area_shots.push(
                AreaShot { id, timer: Timer::new(AREA_SHOT_PERIOD, TimerMode::Repeating) },
            );
            Some(id)
        },
        None => None,
    }
}

/// The zone that [`spawn_area_shot_bullet`] makes.
pub open spec fn new_area_shot_bullet(id: u64, spawn_pos: Vec2) -> AreaShotBullet {
    AreaShotBullet {
        id,
        position: spawn_pos,
        timer: Timer::started(AREA_SHOT_BULLET_PULSE, TimerMode::Repeating),
        lifetime: Timer::started(AREA_SHOT_BULLET_LIFETIME, TimerMode::Once),
        damage_per_second: AREA_SHOT_BULLET_DAMAGE_PER_SECOND,
    }
}

/// The world with one more zone; unchanged where no identifier is left.
pub open spec fn area_shot_bullet_spawned(w: WorldView, spawn_pos: Vec2) -> WorldView {
    if w.can_spawn() {
        WorldView {
            area_shot_bullets: w.area_shot_bullets.push(new_area_shot_bullet(w.next_id, spawn_pos)),
            ..w.allocated()
        }
    } else {
        w
    }
}

/// Drops a damage zone at `spawn_pos`; returns its identifier.
pub fn spawn_area_shot_bullet(world: &mut World, spawn_pos: Vec2) -> (r: Option<u64>)
    ensures
        final(world)@ == area_shot_bullet_spawned(old(world)@, spawn_pos),
        r == if old(world)@.can_spawn() {
            Some(old(world).next_id)
        } else {
            None
        },
{
    match world.allocate() {
        Some(id) => {
            world.area_shot_bullets.push(
                AreaShotBullet {
                    id,
                    position: spawn_pos,
                    timer: Timer::new(AREA_SHOT_BULLET_PULSE, TimerMode::Repeating),
                    lifetime: Timer::new(AREA_SHOT_BULLET_LIFETIME, TimerMode::Once),
                    damage_per_second: AREA_SHOT_BULLET_DAMAGE_PER_SECOND,
                },
            );
            Some(id)
        },
        None => None,
    }
}

/// The close shot that [`spawn_close_shot`] makes.
pub open spec fn new_close_shot(id: u64) -> CloseShot {
    CloseShot { id, timer: Timer::started(CLOSE_SHOT_PERIOD, TimerMode::Repeating) }
}

/// The world with one more close shot; unchanged where no identifier is left.
pub open spec fn close_shot_spawned(w: WorldView) -> WorldView {
    if w.can_spawn() {
        WorldView { close_shots: w.close_shots.push(new_close_shot(w.next_id)), ..w.allocated() }
    } else {
        w
    }
}

/// Gives the player a close shot; returns its identifier.
pub fn spawn_close_shot(world: &mut World) -> (r: Option<u64>)
    ensures
        final(world)@ == close_shot_spawned(old(world)@),
        r == if old(world)@.can_spawn() {
            Some(old(world).next_id)
        } else {
            None
        },
{
    match world.allocate() {
        Some(id) => {
            world.close_shots.push(
                CloseShot { id, timer: Timer::new(CLOSE_SHOT_PERIOD, TimerMode::Repeating) },
            );
            Some(id)
        },
        None => None,
    }
}

/// The bullet that [`spawn_close_shot_bullet`] makes.
pub open spec fn new_close_shot_bullet(
    id: u64,
    spawn_pos: Vec2,
    direction: Vec2,
) -> CloseShotBullet {
    CloseShotBullet {
        id,
        position: spawn_pos,
        lifetime: Timer::started(CLOSE_SHOT_BULLET_LIFETIME, TimerMode::Once),
        speed: CLOSE_SHOT_BULLET_SPEED,
        damage: CLOSE_SHOT_BULLET_DAMAGE,
        direction,
    }
}

/// The world with one more bullet; unchanged where no identifier is left.
pub open spec fn close_shot_bullet_spawned(
    w: WorldView,
    spawn_pos: Vec2,
    direction: Vec2,
) -> WorldView {
    if w.can_spawn() {
        WorldView {
            close_shot_bullets: w.close_shot_bullets.push(
                new_close_shot_bullet(w.next_id, spawn_pos, direction),
            ),
            ..w.allocated()
        }
    } else {
        w
    }
}

/// Shoots a bullet from `spawn_pos` along `direction`; returns its identifier.
pub fn spawn_close_shot_bullet(
    world: &mut World,
    spawn_pos: Vec2,
    direction: Vec2,
) -> (r: Option<u64>)
    ensures
        final(world)@ == close_shot_bullet_spawned(old(world)@, spawn_pos, direction),
        r == if old(world)@.can_spawn() {
            Some(old(world).next_id)
        } else {
            None
        },
{
    match world.allocate() {
        Some(id) => {
            world.close_shot_bullets.push(
                CloseShotBullet {
                    id,
                    position: spawn_pos,
                    lifetime: Timer::new(CLOSE_SHOT_BULLET_LIFETIME, TimerMode::Once),
                    speed: CLOSE_SHOT_BULLET_SPEED,
                    damage: CLOSE_SHOT_BULLET_DAMAGE,
                    direction,
                },
            );
            Some(id)
        },
        None => None,
    }
}

/// The whip that [`spawn_whip`] makes: on the right of the player, half of
/// its first period already behind it.
pub open spec fn new_whip(id: u64) -> Whip {
    Whip {
        id,
        position: Vec2 { x: WHIP_REACH, y: 0 },
        flip_x: true,
        visible: true,
        timer: Timer {
            elapsed: WHIP_HEAD_START,
            ..Timer::started(WHIP_PERIOD, TimerMode::Repeating)
        },
        damage: WHIP_DAMAGE,
        animation: TwoFrameAnimation {
            current_frame: false,
            shown_frame: false,
            timer: Timer::started(WHIP_ANIMATION_PERIOD, TimerMode::Repeating),
        },
    }
}

/// The world with one more whip; unchanged where no identifier is left.
pub open spec fn whip_spawned(w: WorldView) -> WorldView {
    if w.can_spawn() {
        WorldView { whips: w.whips.push(new_whip(w.next_id)), ..w.allocated() }
    } else {
        w
    }
}

/// Gives the player a whip; returns its identifier.
pub fn spawn_whip(world: &mut World) -> (r: Option<u64>)
    ensures
        final(world)@ == whip_spawned(old(world)@),
        r == if old(world)@.can_spawn() {
            Some(old(world).next_id)
        } else {
            None
        },
{
    match world.allocate() {
        Some(id) => {
            let mut timer = Timer::new(WHIP_PERIOD, TimerMode::Repeating);
            timer.set_elapsed(WHIP_HEAD_START);
            world.whips.push(
                Whip {
                    id,
                    position: Vec2::new(WHIP_REACH, 0),
                    flip_x: true,
                    visible: true,
                    timer,
                    damage: WHIP_DAMAGE,
                    animation: TwoFrameAnimation {
                        current_frame: false,
                        shown_frame: false,
                        timer: Timer::new(WHIP_ANIMATION_PERIOD, TimerMode::Repeating),
                    },
                },
            );
            Some(id)
        },
        None => None,
    }
}

/// The whip laid on the side that the player faces.
pub open spec fn whip_faced(whip: Whip, facing: Facing) -> Whip {
    match facing {
        Facing::Left => Whip {
            position: Vec2 { x: (-WHIP_REACH) as i32, y: 0 },
            flip_x: false,
            ..whip
        },
        Facing::Right => Whip { position: Vec2 { x: WHIP_REACH, y: 0 }, flip_x: true, ..whip },
    }
}

/// The world after a single whip has followed the player's facing. Two
/// whips keep their sides, and without a player nothing moves.
pub open spec fn whips_faced(w: WorldView) -> WorldView {
    match w.player {
        Some(player) => if w.whips.len() == 1 {
            WorldView { whips: w.whips.update(0, whip_faced(w.whips[0], player.facing)), ..w }
        } else {
            w
        },
        None => w,
    }
}

/// Keeps a single whip on the side that the player faces.
pub fn whip_attack_facing(world: &mut World)
    ensures
        final(world)@ == whips_faced(old(world)@),
{
    if let Some(player) = world.player {
        if world.whips.len() == 1 {
            let mut whip: Whip = world.whips[0];
            match player.facing {
                Facing::Left => {
                    whip.position = Vec2::new(-WHIP_REACH, 0);
                    whip.flip_x = false;
                },
                Facing::Right => {
                    whip.position = Vec2::new(WHIP_REACH, 0);
                    whip.flip_x = true;
                },
            }
            world.whips.set(0, whip);
        }
    }
}

/// The whip after `dt` microseconds. It shows during the first fifth of its
/// period only; its second image comes up past the middle of the period and
/// goes with the strike.
pub open spec fn whip_swung(whip: Whip, dt: u64) -> Whip {
    let timer = whip.timer.ticked(dt);
    Whip {
        timer,
        visible: timer.fraction_below(1, 5),
        animation: TwoFrameAnimation {
            current_frame: if timer.finished_this_tick {
                false
            } else if timer.fraction_above(1, 2) {
                true
            } else {
                whip.animation.current_frame
            },
            ..whip.animation
        },
        ..whip
    }
}

/// The world after the first `n` whips have had their turn: each is moved
/// on by `dt`, and one whose timer finished strikes every enemy it is
/// reported to overlap, once for each report.
pub open spec fn whips_attacked(w: WorldView, dt: u64, overlaps: Seq<Overlap>, n: int) -> WorldView
    decreases n,
{
    if n <= 0 {
        w
    } else {
        let before = whips_attacked(w, dt, overlaps, n - 1);
        if n > before.whips.len() {
            before
        } else {
            let whip = whip_swung(before.whips[n - 1], dt);
            let swung = WorldView { whips: before.whips.update(n - 1, whip), ..before };
            if whip.timer.finished_this_tick {
                hits_applied(swung, whip.id, overlaps, whip.damage)
            } else {
                swung
            }
        }
    }
}

/// The world after the whips' turn: see [`whips_attacked`].
pub open spec fn whip_attack_done(w: WorldView, dt: u64, overlaps: Seq<Overlap>) -> WorldView {
    whips_attacked(w, dt, overlaps, w.whips.len() as int)
}

/// The whips' turn leaves as many whips as there were.
pub proof fn lemma_whips_attacked_count(w: WorldView, dt: u64, overlaps: Seq<Overlap>, n: int)
    ensures
        whips_attacked(w, dt, overlaps, n).whips.len() == w.whips.len(),
    decreases n,
{
    if n > 0 {
        lemma_whips_attacked_count(w, dt, overlaps, n - 1);
        let before = whips_attacked(w, dt, overlaps, n - 1);
        if n <= before.whips.len() {
            let whip = whip_swung(before.whips[n - 1], dt);
            let swung = WorldView { whips: before.whips.update(n - 1, whip), ..before };
            lemma_hits_applied_frame(swung, whip.id, overlaps, whip.damage);
        }
    }
}

/// Moves every whip on by `dt` microseconds and lets those strike whose
/// timer finished. `overlaps` holds, for each whip, the enemies that its
/// collider overlaps now.
pub fn whip_attack(world: &mut World, dt: u64, overlaps: &Vec<Overlap>)
    ensures
        final(world)@ == whip_attack_done(old(world)@, dt, overlaps@),
{
    let count: usize = world.whips.len();
    let mut i: usize = 0;
    while i < count
        invariant
            0 <= i <= count,
            count == old(world)@.whips.len(),
            world@.whips.len() == count,
            world@ == whips_attacked(old(world)@, dt, overlaps@, i as int),
        decreases count - i,
    {
        let mut whip: Whip = world.whips[i];
        whip.timer.tick(dt);
        whip.visible = whip.timer.is_fraction_below(1, 5);
        if whip.timer.is_fraction_above(1, 2) {
            whip.animation.current_frame = true;
        }
        let fired: bool = whip.timer.just_finished();
        if fired {
            whip.animation.current_frame = false;
        }
        world.whips.set(i, whip);
        if fired {
            proof {
                lemma_hits_applied_frame(world@, whip.id, overlaps@, whip.damage);
            }
            apply_hits(world, whip.id, overlaps, whip.damage);
        }
        i += 1;
    }
}

/// The index of the enemy nearest to `origin` among the first `n`; of
/// several at the same distance, the first.
pub open spec fn nearest_among(enemies: Seq<Enemy>, origin: Vec2, n: int) -> Option<int>
    decreases n,
{
    if n <= 0 || n > enemies.len() {
        None
    } else {
        match nearest_among(enemies, origin, n - 1) {
            None => Some(n - 1),
            Some(k) => if enemies[n - 1].position.distance_squared(origin)
                < enemies[k].position.distance_squared(origin) {
                Some(n - 1)
            } else {
                Some(k)
            },
        }
    }
}

/// The index of the enemy nearest to `origin`; `None` where there is no enemy.
pub open spec fn nearest_enemy(enemies: Seq<Enemy>, origin: Vec2) -> Option<int> {
    nearest_among(enemies, origin, enemies.len() as int)
}

/// The enemy that [`nearest_among`] picks is no farther than any other of
/// the first `n`, and strictly nearer than each one before it.
pub proof fn lemma_nearest_among(enemies: Seq<Enemy>, origin: Vec2, n: int)
    requires
        0 <= n <= enemies.len(),
    ensures
        n == 0 <==> nearest_among(enemies, origin, n).is_none(),
        nearest_among(enemies, origin, n) matches Some(k) ==> {
            &&& 0 <= k < n
            &&& forall|j: int|
                0 <= j < n ==> enemies[k].position.distance_squared(origin)
                    <= (#[trigger] enemies[j]).position.distance_squared(origin)
            &&& forall|j: int|
                0 <= j < k ==> enemies[k].position.distance_squared(origin)
                    < (#[trigger] enemies[j]).position.distance_squared(origin)
        },
    decreases n,
{
    if n > 0 {
        lemma_nearest_among(enemies, origin, n - 1);
    }
}

/// Computes [`nearest_enemy`].
pub fn find_nearest_enemy(enemies: &Vec<Enemy>, origin: Vec2) -> (r: Option<usize>)
    ensures
        match r {
            Some(k) => nearest_enemy(enemies@, origin) == Some(k as int) && k < enemies@.len(),
            None => nearest_enemy(enemies@, origin).is_none(),
        },
{
    let mut best: Option<usize> = None;
    let mut best_distance: u128 = 0;
    let mut i: usize = 0;
    while i < enemies.len()
        invariant
            0 <= i <= enemies@.len(),
            match best {
                Some(k) => nearest_among(enemies@, origin, i as int) == Some(k as int) && k < i
                    && best_distance == enemies@[k as int].position.distance_squared(origin),
                None => nearest_among(enemies@, origin, i as int).is_none(),
            },
        decreases enemies@.len() - i,
    {
        let distance: u128 = enemies[i].position.compute_distance_squared(origin);
        match best {
            None => {
                best = Some(i);
                best_distance = distance;
            },
            Some(_) => {
                if distance < best_distance {
                    best = Some(i);
                    best_distance = distance;
                }
            },
        }
        i += 1;
    }
    best
}

/// The world after a close shot at `origin` has fired: a bullet flies
/// toward the nearest enemy; without an enemy nothing is shot.
pub open spec fn close_shot_fired(w: WorldView, origin: Vec2) -> WorldView {
    match nearest_enemy(w.enemies, origin) {
        Some(k) => close_shot_bullet_spawned(w, origin, origin.direction_to(w.enemies[k].position)),
        None => w,
    }
}

/// The world after the first `n` close shots have had their turn: each
/// timer is moved on by `dt`, and a shot whose timer finished fires from the
/// player's place.
pub open spec fn close_shots_attacked(w: WorldView, dt: u64, origin: Vec2, n: int) -> WorldView
    decreases n,
{
    if n <= 0 {
        w
    } else {
        let before = close_shots_attacked(w, dt, origin, n - 1);
        if n > before.close_shots.len() {
            before
        } else {
            let shot = CloseShot {
                timer: before.close_shots[n - 1].timer.ticked(dt),
                ..before.close_shots[n - 1]
            };
            let ticked = WorldView {
                close_shots: before.close_shots.update(n - 1, shot),
                ..before
            };
            if shot.timer.finished_this_tick {
                close_shot_fired(ticked, origin)
            } else {
                ticked
            }
        }
    }
}

/// The world after the close shots' turn; unchanged without a player.
pub open spec fn close_shot_attack_done(w: WorldView, dt: u64) -> WorldView {
    match w.player {
        Some(player) => close_shots_attacked(w, dt, player.position, w.close_shots.len() as int),
        None => w,
    }
}

/// Moves the timer of every close shot on by `dt` microseconds and fires
/// those whose timer finished.
pub fn close_shot_attack(world: &mut World, dt: u64)
    ensures
        final(world)@ == close_shot_attack_done(old(world)@, dt),
{
    let origin: Vec2 = match world.player {
        Some(player) => player.position,
        None => {
            return ;
        },
    };
    let count: usize = world.close_shots.len();
    let mut i: usize = 0;
    while i < count
        invariant
            0 <= i <= count,
            world@.close_shots.len() == count,
            world@ == close_shots_attacked(old(world)@, dt, origin, i as int),
        decreases count - i,
    {
        let mut shot: CloseShot = world.close_shots[i];
        shot.timer.tick(dt);
        world.close_shots.set(i, shot);
        if shot.timer.just_finished() {
            if let Some(k) = find_nearest_enemy(&world.enemies, origin) {
                let target: Vec2 = world.enemies[k].position;
                let direction: Vec2 = origin.compute_direction_to(target);
                spawn_close_shot_bullet(world, origin, direction);
            }
        }
        i += 1;
    }
}

/// The bullet after `dt` microseconds of flight.
pub open spec fn bullet_flown(bullet: CloseShotBullet, dt: u64) -> CloseShotBullet {
    CloseShotBullet {
        lifetime: bullet.lifetime.ticked(dt),
        position: bullet.position.advanced(bullet.direction, step_length(bullet.speed, dt)),
        ..bullet
    }
}

/// The world after every bullet of the close shots has flown for `dt`.
pub open spec fn close_shot_bullets_flown(w: WorldView, dt: u64) -> WorldView {
    WorldView {
        close_shot_bullets: Seq::new(
            w.close_shot_bullets.len(),
            |i: int| bullet_flown(w.close_shot_bullets[i], dt),
        ),
        ..w
    }
}

/// Lets every bullet of the close shots fly for `dt` microseconds. The
/// collision query for the bullets follows, at their new places: its result
/// goes to [`close_shot_bullet_hits`].
pub fn close_shot_bullet(world: &mut World, dt: u64)
    ensures
        final(world)@ == close_shot_bullets_flown(old(world)@, dt),
{
    let count: usize = world.close_shot_bullets.len();
    let mut i: usize = 0;
    while i < count
        invariant
            0 <= i <= count,
            world@.close_shot_bullets.len() == count,
            count == old(world)@.close_shot_bullets.len(),
            world@ == (WorldView { close_shot_bullets: world@.close_shot_bullets, ..old(world)@ }),
            forall|j: int|
                0 <= j < i ==> world@.close_shot_bullets[j] == bullet_flown(
                    old(world)@.close_shot_bullets[j],
                    dt,
                ),
            forall|j: int|
                i <= j < count ==> world@.close_shot_bullets[j] == old(
                    world,
                )@.close_shot_bullets[j],
        decreases count - i,
    {
        let mut bullet: CloseShotBullet = world.close_shot_bullets[i];
        bullet.lifetime.tick(dt);
        bullet.position = bullet.position.advance(
            bullet.direction,
            compute_step_length(bullet.speed, dt),
        );
        world.close_shot_bullets.set(i, bullet);
        i += 1;
    }
    let ghost flown = close_shot_bullets_flown(old(world)@, dt);
    assert(world@.close_shot_bullets =~= flown.close_shot_bullets);
}

/// Whether `source` is reported to overlap an enemy.
pub open spec fn struck(enemies: Seq<Enemy>, source: u64, overlaps: Seq<Overlap>) -> bool {
    exists|i: int|
        0 <= i < overlaps.len() && (#[trigger] overlaps[i]).source == source && enemy_index(
            enemies,
            overlaps[i].target,
        ).is_some()
}

/// Computes [`struck`].
pub fn is_struck(enemies: &Vec<Enemy>, source: u64, overlaps: &Vec<Overlap>) -> (r: bool)
    ensures
        r == struck(enemies@, source, overlaps@),
{
    let mut i: usize = 0;
    while i < overlaps.len()
        invariant
            0 <= i <= overlaps@.len(),
            forall|j: int|
                0 <= j < i ==> !((#[trigger] overlaps@[j]).source == source && enemy_index(
                    enemies@,
                    overlaps@[j].target,
                ).is_some()),
        decreases overlaps@.len() - i,
    {
        let overlap: Overlap = overlaps[i];
        if overlap.source == source {
            if find_enemy(enemies, overlap.target).is_some() {
                return true;
            }
        }
        i += 1;
    }
    false
}

/// The bullets that fly on: those whose time is not up and that have
/// struck no enemy.
pub open spec fn bullet_flies_on(enemies: Seq<Enemy>, overlaps: Seq<Overlap>) -> spec_fn(
    CloseShotBullet,
) -> bool {
    |bullet: CloseShotBullet| !bullet.lifetime.finished && !struck(enemies, bullet.id, overlaps)
}

/// The world after the first `n` bullets have dealt their damage to the
/// enemies they are reported to overlap.
pub open spec fn bullets_struck(w: WorldView, overlaps: Seq<Overlap>, n: int) -> WorldView
    decreases n,
{
    if n <= 0 {
        w
    } else {
        let before = bullets_struck(w, overlaps, n - 1);
        if n > w.close_shot_bullets.len() {
            before
        } else {
            hits_applied(
                before,
                w.close_shot_bullets[n - 1].id,
                overlaps,
                w.close_shot_bullets[n - 1].damage,
            )
        }
    }
}

/// The strikes of the bullets touch nothing but the health of enemies, the
/// damage numbers and the identifier counter.
pub proof fn lemma_bullets_struck_frame(w: WorldView, overlaps: Seq<Overlap>, n: int)
    ensures
        ({
            let r = bullets_struck(w, overlaps, n);
            &&& r == (WorldView { enemies: r.enemies, texts: r.texts, next_id: r.next_id, ..w })
            &&& r.enemies.len() == w.enemies.len()
        }),
    decreases n,
{
    if n > 0 {
        lemma_bullets_struck_frame(w, overlaps, n - 1);
        if n <= w.close_shot_bullets.len() {
            lemma_hits_applied_frame(
                bullets_struck(w, overlaps, n - 1),
                w.close_shot_bullets[n - 1].id,
                overlaps,
                w.close_shot_bullets[n - 1].damage,
            );
        }
    }
}

/// The world after the bullets of the close shots have met the enemies:
/// each bullet costs every enemy it is reported to overlap its damage, and
/// the bullets that struck an enemy or whose time is up are gone.
pub open spec fn close_shot_bullets_landed(w: WorldView, overlaps: Seq<Overlap>) -> WorldView {
    WorldView {
        close_shot_bullets: w.close_shot_bullets.filter(bullet_flies_on(w.enemies, overlaps)),
        ..bullets_struck(w, overlaps, w.close_shot_bullets.len() as int)
    }
}

/// Deals the damage of the bullets of the close shots and removes the
/// bullets that are spent. `overlaps` holds, for each bullet, the enemies
/// that its collider overlaps now.
pub fn close_shot_bullet_hits(world: &mut World, overlaps: &Vec<Overlap>)
    ensures
        final(world)@ == close_shot_bullets_landed(old(world)@, overlaps@),
{
    let count: usize = world.close_shot_bullets.len();
    let mut kept: Vec<CloseShotBullet> = Vec::new();
    let mut i: usize = 0;
    while i < count
        invariant
            0 <= i <= count,
            count == old(world)@.close_shot_bullets.len(),
            world@ == old(world)@,
            kept@ == old(world)@.close_shot_bullets.take(i as int).filter(
                bullet_flies_on(old(world)@.enemies, overlaps@),
            ),
        decreases count - i,
    {
        let bullet: CloseShotBullet = world.close_shot_bullets[i];
        proof {
            let bullets = old(world)@.close_shot_bullets;
            assert(bullets.take(i + 1).drop_last() == bullets.take(i as int));
            reveal(Seq::filter);
        }
        if !bullet.lifetime.finished && !is_struck(&world.enemies, bullet.id, overlaps) {
            kept.push(bullet);
        }
        i += 1;
    }
    assert(old(world)@.close_shot_bullets.take(count as int) == old(world)@.close_shot_bullets);
    let mut i: usize = 0;
    while i < count
        invariant
            0 <= i <= count,
            count == old(world)@.close_shot_bullets.len(),
            world@ == bullets_struck(old(world)@, overlaps@, i as int),
        decreases count - i,
    {
        proof {
            lemma_bullets_struck_frame(old(world)@, overlaps@, i as int);
        }
        let bullet: CloseShotBullet = world.close_shot_bullets[i];
        apply_hits(world, bullet.id, overlaps, bullet.damage);
        i += 1;
    }
    world.close_shot_bullets = kept;
}

/// The scatter at place `index`, or the one of all zeros past the end.
pub open spec fn scatter_at(scatters: Seq<Scatter>, index: int) -> Scatter {
    if 0 <= index < scatters.len() {
        scatters[index]
    } else {
        Scatter { direction: Vec2 { x: 0, y: 0 }, jitter: Vec2 { x: 0, y: 0 } }
    }
}

/// The world after the first `n` area shots have had their turn: each
/// timer is moved on by `dt`, and a shot whose timer finished drops a zone
/// on the ring around `origin`, at the place that its scatter picks.
pub open spec fn area_shots_attacked(
    w: WorldView,
    dt: u64,
    origin: Vec2,
    scatters: Seq<Scatter>,
    n: int,
) -> WorldView
    decreases n,
{
    if n <= 0 {
        w
    } else {
        let before = area_shots_attacked(w, dt, origin, scatters, n - 1);
        if n > before.area_shots.len() {
            before
        } else {
            let shot = AreaShot {
                timer: before.area_shots[n - 1].timer.ticked(dt),
                ..before.area_shots[n - 1]
            };
            let ticked = WorldView { area_shots: before.area_shots.update(n - 1, shot), ..before };
            if shot.timer.finished_this_tick {
                area_shot_bullet_spawned(
                    ticked,
                    scattered(
                        origin,
                        scatter_at(scatters, n - 1),
                        AREA_SHOT_RING,
                        AREA_SHOT_SPREAD,
                    ),
                )
            } else {
                ticked
            }
        }
    }
}

/// The world after the area shots' turn, where the shot at place `i` uses
/// the scatter at place `i`; unchanged without a player.
pub open spec fn area_shot_attack_done(w: WorldView, dt: u64, scatters: Seq<Scatter>) -> WorldView {
    match w.player {
        Some(player) => area_shots_attacked(
            w,
            dt,
            player.position,
            scatters,
            w.area_shots.len() as int,
        ),
        None => w,
    }
}

/// Moves the timer of every area shot on by `dt` microseconds and lets
/// those whose timer finished drop a zone, each at the place that its
/// scatter picks.
pub fn area_shot_attack_with(world: &mut World, dt: u64, scatters: &Vec<Scatter>)
    ensures
        final(world)@ == area_shot_attack_done(old(world)@, dt, scatters@),
{
    let origin: Vec2 = match world.player {
        Some(player) => player.position,
        None => {
            return ;
        },
    };
    let count: usize = world.area_shots.len();
    let mut i: usize = 0;
    while i < count
        invariant
            0 <= i <= count,
            world@.area_shots.len() == count,
            world@ == area_shots_attacked(old(world)@, dt, origin, scatters@, i as int),
        decreases count - i,
    {
        let mut shot: AreaShot = world.area_shots[i];
        shot.timer.tick(dt);
        world.area_shots.set(i, shot);
        if shot.timer.just_finished() {
            let scatter: Scatter = if i < scatters.len() {
                scatters[i]
            } else {
                Scatter { direction: Vec2::zero(), jitter: Vec2::zero() }
            };
            let place: Vec2 = scatter_around(origin, scatter, AREA_SHOT_RING, AREA_SHOT_SPREAD);
            spawn_area_shot_bullet(world, place);
        }
        i += 1;
    }
}

/// The area shots' turn with places drawn from `rng`: for some scatters in
/// range, one for each area shot, the world is as [`area_shot_attack_done`]
/// says.
pub fn area_shot_attack(world: &mut World, dt: u64, rng: &Rng)
    ensures
        exists|scatters: Seq<Scatter>|
            {
                &&& scatters.len() == old(world)@.area_shots.len()
                &&& forall|i: int| 0 <= i < scatters.len() ==> (#[trigger] scatters[i]).in_range()
                &&& final(world)@ == area_shot_attack_done(old(world)@, dt, scatters)
            },
{
    let scatters: Vec<Scatter> = draw_scatters(rng, world.area_shots.len());
    area_shot_attack_with(world, dt, &scatters);
}

/// The zone after `dt` microseconds.
pub open spec fn zone_aged(zone: AreaShotBullet, dt: u64) -> AreaShotBullet {
    AreaShotBullet { lifetime: zone.lifetime.ticked(dt), timer: zone.timer.ticked(dt), ..zone }
}

/// The damage of one pulse of a zone: its rate over the time between two pulses.
pub open spec fn pulse_damage(zone: AreaShotBullet) -> u64 {
    amount(zone.damage_per_second, zone.timer.duration)
}

/// The world after the first `n` zones have had their turn: each is `dt`
/// older, and one whose pulse timer finished costs every enemy it is
/// reported to overlap the damage of a pulse.
pub open spec fn zones_pulsed(w: WorldView, dt: u64, overlaps: Seq<Overlap>, n: int) -> WorldView
    decreases n,
{
    if n <= 0 {
        w
    } else {
        let before = zones_pulsed(w, dt, overlaps, n - 1);
        if n > before.area_shot_bullets.len() {
            before
        } else {
            let zone = zone_aged(before.area_shot_bullets[n - 1], dt);
            let aged = WorldView {
                area_shot_bullets: before.area_shot_bullets.update(n - 1, zone),
                ..before
            };
            if zone.timer.finished_this_tick {
                hits_applied(aged, zone.id, overlaps, pulse_damage(zone))
            } else {
                aged
            }
        }
    }
}

/// The zones that stay: those whose time is not up.
pub open spec fn zone_stays() -> spec_fn(AreaShotBullet) -> bool {
    |zone: AreaShotBullet| !zone.lifetime.finished_this_tick
}

/// The world after the zones' turn: see [`zones_pulsed`]; the zones whose
/// time is up are gone, after their last pulse.
pub open spec fn area_shot_bullet_done(w: WorldView, dt: u64, overlaps: Seq<Overlap>) -> WorldView {
    let pulsed = zones_pulsed(w, dt, overlaps, w.area_shot_bullets.len() as int);
    WorldView { area_shot_bullets: pulsed.area_shot_bullets.filter(zone_stays()), ..pulsed }
}

/// Lets every zone age by `dt` microseconds, pulse where its pulse timer
/// finished, and go where its time is up. `overlaps` holds, for each zone,
/// the enemies that its collider overlaps now.
pub fn area_shot_bullet(world: &mut World, dt: u64, overlaps: &Vec<Overlap>)
    ensures
        final(world)@ == area_shot_bullet_done(old(world)@, dt, overlaps@),
{
    let count: usize = world.area_shot_bullets.len();
    let mut i: usize = 0;
    while i < count
        invariant
            0 <= i <= count,
            count == old(world)@.area_shot_bullets.len(),
            world@.area_shot_bullets.len() == count,
            world@ == zones_pulsed(old(world)@, dt, overlaps@, i as int),
        decreases count - i,
    {
        let mut zone: AreaShotBullet = world.area_shot_bullets[i];
        zone.lifetime.tick(dt);
        zone.timer.tick(dt);
        world.area_shot_bullets.set(i, zone);
        if zone.timer.just_finished() {
            let damage: u64 = compute_amount(zone.damage_per_second, zone.timer.duration);
            proof {
                lemma_hits_applied_frame(world@, zone.id, overlaps@, damage);
            }
            apply_hits(world, zone.id, overlaps, damage);
        }
        i += 1;
    }
    let ghost pulsed = world@;
    let mut kept: Vec<AreaShotBullet> = Vec::new();
    let mut i: usize = 0;
    while i < count
        invariant
            0 <= i <= count,
            count == pulsed.area_shot_bullets.len(),
            world@ == pulsed,
            kept@ == pulsed.area_shot_bullets.take(i as int).filter(zone_stays()),
        decreases count - i,
    {
        let zone: AreaShotBullet = world.area_shot_bullets[i];
        proof {
            let zones = pulsed.area_shot_bullets;
            assert(zones.take(i + 1).drop_last() == zones.take(i as int));
            reveal(Seq::filter);
        }
        if !zone.lifetime.just_finished() {
            kept.push(zone);
        }
        i += 1;
    }
    assert(pulsed.area_shot_bullets.take(count as int) == pulsed.area_shot_bullets);
    world.area_shot_bullets = kept;
}

} // verus!
