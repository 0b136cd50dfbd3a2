//! Two-image animations and the coin shower of a level-up.

use crate::fixed::{clamp_coord, compute_step_length, step_length, Vec2};
use crate::model::{
    ExpOrb, GameState, LevelUpParticle, Player, TwoFrameAnimation, Whip, World, WorldView,
};
use crate::random::{draw_signed_unit, is_signed_unit, stretch, stretched};
use crate::schedule::{Entry, Schedule, System, Trigger};
use crate::timer::{Timer, TimerMode};
use turborand::rng::Rng;
use vstd::prelude::*;

verus! {

/// The animations and the coin shower.
#[derive(Clone, Copy, Debug)]
pub struct GameAnimationPlugin;

impl GameAnimationPlugin {
    /// The systems of this plugin with their moments, in the order in
    /// which they are entered.
    pub open spec fn entries() -> Seq<Entry> {
        seq![
            Entry { trigger: Trigger::Always, system: System::TwoFrameAnimation, after: None },
            Entry {
                trigger: Trigger::OnEnter(GameState::LevelUp),
                system: System::SpawnParticles,
                after: None,
            },
            Entry {
                trigger: Trigger::OnExit(GameState::LevelUp),
                system: System::DespawnParticles,
                after: None,
            },
            Entry {
                trigger: Trigger::OnUpdate(GameState::LevelUp),
                system: System::UpdateParticles,
                after: None,
            },
        ]
    }

    /// Enters the systems of this plugin into `schedule`.
    pub fn build(&self, schedule: &mut Schedule)
        ensures
            final(schedule)@ == old(schedule)@ + GameAnimationPlugin::entries(),
    {
        schedule.add(Trigger::Always, System::TwoFrameAnimation);
        schedule.add(Trigger::OnEnter(GameState::LevelUp), System::SpawnParticles);
        schedule.add(Trigger::OnExit(GameState::LevelUp), System::DespawnParticles);
        schedule.add(Trigger::OnUpdate(GameState::LevelUp), System::UpdateParticles);
        assert(schedule@ =~= old(schedule)@ + GameAnimationPlugin::entries());
    }
}

/// The number of coins in the shower.
pub const PARTICLE_COUNT: usize = 500;

/// Half the width of the shower, in millionths of a unit.
pub const PARTICLE_SPREAD_X: u32 = 20_000_000;

/// Half the height of the shower, in millionths of a unit.
pub const PARTICLE_SPREAD_Y: u32 = 25_000_000;

/// How far above the camera the middle of the shower starts.
pub const PARTICLE_HEIGHT: i32 = 35_000_000;

/// The speed at which the coins fall, in thousandths of a unit per second.
pub const PARTICLE_FALL_SPEED: u32 = 10_000;

/// The height below which a coin starts over, in millionths of a unit.
pub const PARTICLE_FLOOR: i32 = -10_000_000;

/// The height at which a coin starts over.
pub const PARTICLE_RESTART: i32 = 10_000_000;

/// The time between two images of a coin, in microseconds.
pub const PARTICLE_ANIMATION_PERIOD: u64 = 300_000;

/// The animation after `dt` microseconds: the image that was current is on
/// display, and the current image has changed if the timer finished.
pub open spec fn animated(animation: TwoFrameAnimation, dt: u64) -> TwoFrameAnimation {
    let timer = animation.timer.ticked(dt);
    TwoFrameAnimation {
        timer,
        shown_frame: animation.current_frame,
        current_frame: if timer.finished_this_tick {
            !animation.current_frame
        } else {
            animation.current_frame
        },
    }
}

/// The world after every animation has run for `dt`.
pub open spec fn two_frame_animation_done(w: WorldView, dt: u64) -> WorldView {
    WorldView {
        player: match w.player {
            Some(player) => Some(Player { animation: animated(player.animation, dt), ..player }),
            None => None,
        },
        whips: Seq::new(
            w.whips.len(),
            |i: int| Whip { animation: animated(w.whips[i].animation, dt), ..w.whips[i] },
        ),
        orbs: Seq::new(
            w.orbs.len(),
            |i: int| ExpOrb { animation: animated(w.orbs[i].animation, dt), ..w.orbs[i] },
        ),
        particles: Seq::new(
            w.particles.len(),
            |i: int|
                LevelUpParticle {
                    animation: animated(w.particles[i].animation, dt),
                    ..w.particles[i]
                },
        ),
        ..w
    }
}

/// Computes [`animated`].
pub fn animate(animation: TwoFrameAnimation, dt: u64) -> (r: TwoFrameAnimation)
    ensures
        r == animated(animation, dt),
{
    let mut timer: Timer = animation.timer;
    timer.tick(dt);
    TwoFrameAnimation {
        timer,
        shown_frame: animation.current_frame,
        current_frame: if timer.just_finished() {
            !animation.current_frame
        } else {
            animation.current_frame
        },
    }
}

/// Runs every animation for `dt` microseconds.
pub fn two_frame_animation(world: &mut World, dt: u64)
    ensures
        final(world)@ == two_frame_animation_done(old(world)@, dt),
{
    if let Some(player) = world.player {
        let mut next: Player = player;
        next.animation = animate(player.animation, dt);
        world.player = Some(next);
    }
    let ghost goal = two_frame_animation_done(old(world)@, dt);
    let count: usize = world.whips.len();
    let mut i: usize = 0;
    while i < count
        invariant
            0 <= i <= count,
            count == old(world)@.whips.len(),
            world@.whips.len() == count,
            world@ == (WorldView { whips: world@.whips, player: goal.player, ..old(world)@ }),
            goal == two_frame_animation_done(old(world)@, dt),
            forall|j: int| 0 <= j < i ==> world@.whips[j] == goal.whips[j],
            forall|j: int| i <= j < count ==> world@.whips[j] == old(world)@.whips[j],
        decreases count - i,
    {
        let mut whip: Whip = world.whips[i];
        whip.animation = animate(whip.animation, dt);
        world.whips.set(i, whip);
        i += 1;
    }
    assert(world@.whips =~= goal.whips);
    let count: usize = world.orbs.len();
    let mut i: usize = 0;
    while i < count
        invariant
            0 <= i <= count,
            count == old(world)@.orbs.len(),
            world@.orbs.len() == count,
            world@ == (WorldView {
                orbs: world@.orbs,
                whips: goal.whips,
                player: goal.player,
                ..old(world)@
            }),
            goal == two_frame_animation_done(old(world)@, dt),
            forall|j: int| 0 <= j < i ==> world@.orbs[j] == goal.orbs[j],
            forall|j: int| i <= j < count ==> world@.orbs[j] == old(world)@.orbs[j],
        decreases count - i,
    {
        let mut orb: ExpOrb = world.orbs[i];
        orb.animation = animate(orb.animation, dt);
        world.orbs.set(i, orb);
        i += 1;
    }
    assert(world@.orbs =~= goal.orbs);
    let count: usize = world.particles.len();
    let mut i: usize = 0;
    while i < count
        invariant
            0 <= i <= count,
            count == old(world)@.particles.len(),
            world@.particles.len() == count,
            world@ == (WorldView {
                particles: world@.particles,
                orbs: goal.orbs,
                whips: goal.whips,
                player: goal.player,
                ..old(world)@
            }),
            goal == two_frame_animation_done(old(world)@, dt),
            forall|j: int| 0 <= j < i ==> world@.particles[j] == goal.particles[j],
            forall|j: int| i <= j < count ==> world@.particles[j] == old(world)@.particles[j],
        decreases count - i,
    {
        let mut particle: LevelUpParticle = world.particles[i];
        particle.animation = animate(particle.animation, dt);
        world.particles.set(i, particle);
        i += 1;
    }
    assert(world@.particles =~= goal.particles);
}

/// The draw at place `index`, or the origin past the end.
pub open spec fn draw_at(draws: Seq<Vec2>, index: int) -> Vec2 {
    if 0 <= index < draws.len() {
        draws[index]
    } else {
        Vec2 { x: 0, y: 0 }
    }
}

/// The coin that the draw `draw` places: spread over the width of the
/// shower, and over its height above the camera.
pub open spec fn new_particle(draw: Vec2) -> LevelUpParticle {
    LevelUpParticle {
        position: (Vec2 { x: 0, y: 0 }).shifted(
            stretched(draw.x, PARTICLE_SPREAD_X),
            stretched(draw.y, PARTICLE_SPREAD_Y) + PARTICLE_HEIGHT,
        ),
        animation: TwoFrameAnimation {
            current_frame: false,
            shown_frame: false,
            timer: Timer::started(PARTICLE_ANIMATION_PERIOD, TimerMode::Repeating),
        },
    }
}

/// The world with the first `n` coins of the shower added.
pub open spec fn particles_spawned(w: WorldView, draws: Seq<Vec2>, n: int) -> WorldView
    decreases n,
{
    if n <= 0 {
        w
    } else {
        let before = particles_spawned(w, draws, n - 1);
        WorldView {
            particles: before.particles.push(new_particle(draw_at(draws, n - 1))),
            ..before
        }
    }
}

/// The world with the whole shower added.
pub open spec fn spawn_particles_done(w: WorldView, draws: Seq<Vec2>) -> WorldView {
    particles_spawned(w, draws, PARTICLE_COUNT as int)
}

/// Starts the coin shower, the coin at place `i` where the draw at place
/// `i` puts it; a draw that is missing counts as the origin.
pub fn spawn_particles_with(world: &mut World, draws: &Vec<Vec2>)
    ensures
        final(world)@ == spawn_particles_done(old(world)@, draws@),
{
    let mut i: usize = 0;
    while i < PARTICLE_COUNT
        invariant
            0 <= i <= PARTICLE_COUNT,
            world@ == particles_spawned(old(world)@, draws@, i as int),
        decreases PARTICLE_COUNT - i,
    {
        let draw: Vec2 = if i < draws.len() {
            draws[i]
        } else {
            Vec2::zero()
        };
        let x: i64 = stretch(draw.x, PARTICLE_SPREAD_X);
        let y: i64 = stretch(draw.y, PARTICLE_SPREAD_Y) + PARTICLE_HEIGHT as i64;
        world.particles.push(
            LevelUpParticle {
                position: Vec2::zero().shift(x, y),
                animation: TwoFrameAnimation {
                    current_frame: false,
                    shown_frame: false,
                    timer: Timer::new(PARTICLE_ANIMATION_PERIOD, TimerMode::Repeating),
                },
            },
        );
        i += 1;
    }
}

/// Starts the coin shower with places drawn from `rng`: for some draws in
/// range, one for each coin, the world is as [`spawn_particles_done`] says.
pub fn spawn_particles(world: &mut World, rng: &Rng)
    ensures
        exists|draws: Seq<Vec2>|
            {
                &&& draws.len() == PARTICLE_COUNT
                &&& forall|i: int|
                    0 <= i < draws.len() ==> is_signed_unit((#[trigger] draws[i]).x)
                        && is_signed_unit(draws[i].y)
                &&& final(world)@ == spawn_particles_done(old(world)@, draws)
            },
{
    let mut draws: Vec<Vec2> = Vec::new();
    while draws.len() < PARTICLE_COUNT
        invariant
            draws@.len() <= PARTICLE_COUNT,
            forall|i: int|
                0 <= i < draws@.len() ==> is_signed_unit((#[trigger] draws@[i]).x)
                    && is_signed_unit(draws@[i].y),
        decreases PARTICLE_COUNT - draws@.len(),
    {
        let x: i32 = draw_signed_unit(rng);
        let y: i32 = draw_signed_unit(rng);
        draws.push(Vec2::new(x, y));
    }
    spawn_particles_with(world, &draws);
}

/// The coin after `dt` microseconds of falling: one that has come below
/// the floor starts over above.
pub open spec fn particle_fallen(particle: LevelUpParticle, dt: u64) -> LevelUpParticle {
    let y = clamp_coord(particle.position.y - step_length(PARTICLE_FALL_SPEED, dt));
    LevelUpParticle {
        position: Vec2 {
            x: particle.position.x,
            y: if y < PARTICLE_FLOOR {
                PARTICLE_RESTART
            } else {
                y as i32
            },
        },
        ..particle
    }
}

/// The world after the coins have fallen for `dt`.
pub open spec fn update_particles_done(w: WorldView, dt: u64) -> WorldView {
    WorldView {
        particles: Seq::new(w.particles.len(), |i: int| particle_fallen(w.particles[i], dt)),
        ..w
    }
}

/// Lets the coins fall for `dt` microseconds.
pub fn update_particles(world: &mut World, dt: u64)
    ensures
        final(world)@ == update_particles_done(old(world)@, dt),
{
    let count: usize = world.particles.len();
    let mut i: usize = 0;
    while i < count
        invariant
            0 <= i <= count,
            count == old(world)@.particles.len(),
            world@.particles.len() == count,
            world@ == (WorldView { particles: world@.particles, ..old(world)@ }),
            forall|j: int|
                0 <= j < i ==> world@.particles[j] == particle_fallen(old(world)@.particles[j], dt),
            forall|j: int| i <= j < count ==> world@.particles[j] == old(world)@.particles[j],
        decreases count - i,
    {
        let mut particle: LevelUpParticle = world.particles[i];
        let fall: i64 = compute_step_length(PARTICLE_FALL_SPEED, dt) as i64;
        let fallen: Vec2 = particle.position.shift(0, -fall);
        particle.position = if fallen.y < PARTICLE_FLOOR {
            Vec2::new(fallen.x, PARTICLE_RESTART)
        } else {
            fallen
        };
        world.particles.set(i, particle);
        i += 1;
    }
    assert(world@.particles =~= update_particles_done(old(world)@, dt).particles);
}

/// The world without the coin shower.
pub open spec fn despawn_particles_done(w: WorldView) -> WorldView {
    WorldView { particles: Seq::empty(), ..w }
}

/// Ends the coin shower.
pub fn despawn_particles(world: &mut World)
    ensures
        final(world)@ == despawn_particles_done(old(world)@),
{
    world.particles = Vec::new();
}

} // verus!
