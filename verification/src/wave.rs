//! The wave manager: which wave is active, how hard it is, and when it
//! sends its next batch of enemies.

use crate::fixed::{cap_u32, compute_ratio, compute_scaled, ratio, scaled, FACTOR_ONE};
use crate::model::{EnemyTemplate, Wave, WaveManager, WaveManagerView};
use vstd::prelude::*;

verus! {

/// How long each wave is active before the next takes over, in microseconds.
pub const WAVE_WINDOW: u64 = 20_000_000;

/// The growth of the difficulty with each full cycle through the waves, as
/// a fraction: its numerator.
pub const GROWTH_NUM: u64 = 13;

/// The denominator of the growth.
pub const GROWTH_DEN: u64 = 10;

/// The number of wave windows that have gone by after `elapsed` microseconds.
pub open spec fn current_wave(elapsed: u64) -> nat {
    (elapsed / WAVE_WINDOW) as nat
}

/// The place, among `count` waves, of the wave that is active after
/// `elapsed` microseconds.
pub open spec fn wave_index(elapsed: u64, count: nat) -> nat
    recommends
        count > 0,
{
    current_wave(elapsed) % count
}

/// How many times all `count` waves have been gone through after
/// `elapsed` microseconds.
pub open spec fn wave_cycles(elapsed: u64, count: nat) -> nat
    recommends
        count > 0,
{
    current_wave(elapsed) / count
}

/// The difficulty factor after `cycles` full cycles, in billionths: one,
/// times the growth for each cycle, rounded down at each step and cut off
/// at the `u64` range.
pub open spec fn difficulty(cycles: nat) -> u64
    decreases cycles,
{
    if cycles == 0 {
        FACTOR_ONE
    } else {
        ratio(difficulty((cycles - 1) as nat), GROWTH_NUM, GROWTH_DEN)
    }
}

/// `base` to the power `exp`.
pub open spec fn power(base: nat, exp: nat) -> nat
    decreases exp,
{
    if exp == 0 {
        1
    } else {
        base * power(base, (exp - 1) as nat)
    }
}

/// The difficulty never falls from one cycle to the next.
pub proof fn lemma_difficulty_grows(cycles: nat)
    ensures
        difficulty(cycles) <= difficulty(cycles + 1),
        difficulty(cycles) >= FACTOR_ONE,
    decreases cycles,
{
    if cycles > 0 {
        lemma_difficulty_grows((cycles - 1) as nat);
    }
    let d = difficulty(cycles) as int;
    assert(difficulty(cycles + 1) == ratio(difficulty(cycles), GROWTH_NUM, GROWTH_DEN));
    assert((d * 13) / 10 >= d);
}

/// Once the difficulty has reached the top of its range it stays there.
pub proof fn lemma_difficulty_stays_at_top(cycles: nat, later: nat)
    requires
        difficulty(cycles) == u64::MAX,
        cycles <= later,
    ensures
        difficulty(later) == u64::MAX,
    decreases later - cycles,
{
    if cycles < later {
        lemma_difficulty_stays_at_top(cycles, (later - 1) as nat);
    }
}

/// The difficulty is the growth to the power of the cycles, but for the
/// rounding down and the cut at the top of the range: it never lies above
/// that power, and while it has not reached the top of its range it lies
/// less than three billionths of that power below it. Stated with the
/// denominators multiplied out.
pub proof fn lemma_difficulty_is_power_of_growth(cycles: nat)
    ensures
        difficulty(cycles) * power(GROWTH_DEN as nat, cycles) <= FACTOR_ONE * power(
            GROWTH_NUM as nat,
            cycles,
        ),
        difficulty(cycles) < u64::MAX ==> difficulty(cycles) * power(GROWTH_DEN as nat, cycles) + 3
            * power(GROWTH_NUM as nat, cycles) >= FACTOR_ONE * power(GROWTH_NUM as nat, cycles) + 3
            * power(GROWTH_DEN as nat, cycles),
    decreases cycles,
{
    if cycles > 0 {
        let k = (cycles - 1) as nat;
        lemma_difficulty_is_power_of_growth(k);
        lemma_difficulty_grows(k);
        let d = difficulty(k) as int;
        let next = difficulty(cycles) as int;
        let p10 = power(10, k) as int;
        let p13 = power(13, k) as int;
        assert(next <= (d * 13) / 10);
        assert(next * 10 <= d * 13);
        assert(power(10, cycles) == 10 * power(10, k));
        assert(power(13, cycles) == 13 * power(13, k));
        assert(next * (10 * p10) <= 1_000_000_000 * (13 * p13)) by (nonlinear_arith)
            requires
                next * 10 <= d * 13,
                d * p10 <= 1_000_000_000 * p13,
                p10 >= 0,
                next >= 0,
        ;
        if next < u64::MAX {
            assert(d < u64::MAX);
            assert(next == (d * 13) / 10);
            assert(next * 10 >= d * 13 - 9);
            assert(next * (10 * p10) + 3 * (13 * p13) >= 1_000_000_000 * (13 * p13) + 3 * (10
                * p10)) by (nonlinear_arith)
                requires
                    next * 10 >= d * 13 - 9,
                    d * p10 + 3 * p13 >= 1_000_000_000 * p13 + 3 * p10,
                    p10 >= 0,
            ;
        }
    }
}

/// The first cycles are free of rounding: the difficulty is exactly the
/// growth to the power of the cycles.
pub proof fn lemma_difficulty_first_cycles()
    ensures
        difficulty(0) == 1_000_000_000,
        difficulty(1) == 1_300_000_000,
        difficulty(2) == 1_690_000_000,
        difficulty(3) == 2_197_000_000,
        difficulty(4) == 2_856_100_000,
{
    assert(difficulty(0) == 1_000_000_000);
    assert(difficulty(1) == ratio(difficulty(0), GROWTH_NUM, GROWTH_DEN));
    assert(difficulty(2) == ratio(difficulty(1), GROWTH_NUM, GROWTH_DEN));
    assert(difficulty(3) == ratio(difficulty(2), GROWTH_NUM, GROWTH_DEN));
    assert(difficulty(4) == ratio(difficulty(3), GROWTH_NUM, GROWTH_DEN));
}

/// Wave selection: the windows gone by split into full cycles and the place
/// of the active wave, and that place is one of the waves.
pub proof fn lemma_wave_selection(elapsed: u64, count: nat)
    requires
        count > 0,
    ensures
        current_wave(elapsed) == elapsed as nat / WAVE_WINDOW as nat,
        wave_index(elapsed, count) == current_wave(elapsed) % count,
        wave_cycles(elapsed, count) == current_wave(elapsed) / count,
        wave_index(elapsed, count) < count,
        current_wave(elapsed) == wave_cycles(elapsed, count) * count + wave_index(elapsed, count),
        current_wave(elapsed) * WAVE_WINDOW <= elapsed < (current_wave(elapsed) + 1) * WAVE_WINDOW,
{
    let c = current_wave(elapsed) as int;
    vstd::arithmetic::div_mod::lemma_fundamental_div_mod(c, count as int);
    vstd::arithmetic::div_mod::lemma_mod_bound(c, count as int);
    assert((count as int) * (c / (count as int)) == (c / (count as int)) * (count as int))
        by (nonlinear_arith);
}

/// Computes [`difficulty`].
pub fn compute_difficulty(cycles: u64) -> (r: u64)
    ensures
        r == difficulty(cycles as nat),
{
    let mut factor: u64 = FACTOR_ONE;
    let mut done: u64 = 0;
    while done < cycles && factor < u64::MAX
        invariant
            done <= cycles,
            factor == difficulty(done as nat),
        decreases cycles - done,
    {
        factor = compute_ratio(factor, GROWTH_NUM, GROWTH_DEN);
        done += 1;
    }
    proof {
        if done < cycles {
            lemma_difficulty_stays_at_top(done as nat, cycles as nat);
        }
    }
    factor
}

/// A batch of enemies that is due: how many, and what each is made from.
#[derive(Clone, Copy, PartialEq, Eq, Structural, Debug)]
pub struct Batch {
    pub size: u32,
    pub enemy: EnemyTemplate,
}

/// The size of a batch at the difficulty `factor`: the base size times the
/// factor, rounded down and cut off at the `u32` range.
pub open spec fn batch_size(wave_size: u32, factor: u64) -> u32 {
    cap_u32(scaled(wave_size as u64, factor) as int) as u32
}

/// The template at the difficulty `factor`: speed and health grow with it,
/// the damage stays.
pub open spec fn grown(template: EnemyTemplate, factor: u64) -> EnemyTemplate {
    EnemyTemplate {
        speed: cap_u32(scaled(template.speed as u64, factor) as int) as u32,
        health: scaled(template.health, factor),
        ..template
    }
}

/// `value` cut off at the `u32` range.
fn narrow(value: u64) -> (r: u32)
    ensures
        r == cap_u32(value as int),
{
    if value > u32::MAX as u64 {
        u32::MAX
    } else {
        value as u32
    }
}

/// Computes [`grown`].
pub fn grow(template: EnemyTemplate, factor: u64) -> (r: EnemyTemplate)
    ensures
        r == grown(template, factor),
{
    EnemyTemplate {
        speed: narrow(compute_scaled(template.speed as u64, factor)),
        health: compute_scaled(template.health, factor),
        asset: template.asset,
        damage_per_second: template.damage_per_second,
    }
}

impl WaveManagerView {
    /// The manager after `dt` microseconds: the stopwatch has moved on, and
    /// so has the spawn timer of the wave that is active then. The other
    /// waves rest.
    pub open spec fn ticked(self, dt: u64) -> WaveManagerView {
        let time = self.global_time.ticked(dt);
        if self.waves.len() == 0 {
            WaveManagerView { global_time: time, ..self }
        } else {
            let i = wave_index(time.elapsed, self.waves.len()) as int;
            WaveManagerView {
                global_time: time,
                waves: self.waves.update(
                    i,
                    Wave { next_spawn: self.waves[i].next_spawn.ticked(dt), ..self.waves[i] },
                ),
            }
        }
    }

    /// The batch that is due now: that of the active wave, at the current
    /// difficulty, if its spawn timer finished with the last tick.
    pub open spec fn due(self) -> Option<Batch> {
        if self.waves.len() == 0 {
            None
        } else {
            let wave = self.waves[wave_index(self.global_time.elapsed, self.waves.len()) as int];
            let factor = difficulty(wave_cycles(self.global_time.elapsed, self.waves.len()));
            if wave.next_spawn.finished_this_tick {
                Some(Batch {
                    size: batch_size(wave.wave_size, factor),
                    enemy: grown(wave.to_spawn, factor),
                })
            } else {
                None
            }
        }
    }
}

impl WaveManager {
    /// The number of wave windows that have gone by.
    pub fn current_wave(&self) -> (r: u64)
        ensures
            r == current_wave(self.global_time.elapsed),
    {
        self.global_time.elapsed / WAVE_WINDOW
    }

    /// The place of the active wave; `None` where there are no waves.
    pub fn wave_index(&self) -> (r: Option<usize>)
        ensures
            self.waves@.len() == 0 <==> r.is_none(),
            r matches Some(i) ==> i == wave_index(self.global_time.elapsed, self.waves@.len())
                && i < self.waves@.len(),
    {
        let count: usize = self.waves.len();
        if count == 0 {
            None
        } else {
            let index: u64 = self.current_wave() % (count as u64);
            Some(index as usize)
        }
    }

    /// The difficulty factor now, in billionths; one where there are no waves.
    pub fn difficulty(&self) -> (r: u64)
        ensures
            r == if self.waves@.len() == 0 {
                FACTOR_ONE
            } else {
                difficulty(wave_cycles(self.global_time.elapsed, self.waves@.len()))
            },
    {
        let count: usize = self.waves.len();
        if count == 0 {
            FACTOR_ONE
        } else {
            compute_difficulty(self.current_wave() / (count as u64))
        }
    }

    /// Computes [`WaveManagerView::due`].
    pub fn due(&self) -> (r: Option<Batch>)
        ensures
            r == self@.due(),
    {
        match self.wave_index() {
            None => None,
            Some(i) => {
                let wave: Wave = self.waves[i];
                if wave.next_spawn.just_finished() {
                    let factor: u64 = self.difficulty();
                    Some(
                        Batch {
                            size: narrow(compute_scaled(wave.wave_size as u64, factor)),
                            enemy: grow(wave.to_spawn, factor),
                        },
                    )
                } else {
                    None
                }
            },
        }
    }

    /// Lets `dt` microseconds pass.
    pub fn tick(&mut self, dt: u64)
        ensures
            final(self)@ == old(self)@.ticked(dt),
    {
        self.global_time.tick(dt);
        if let Some(i) = self.wave_index() {
            let mut wave: Wave = self.waves[i];
            wave.next_spawn.tick(dt);
            self.waves.set(i, wave);
        }
    }

    /// The batch that will be due after `dt` more microseconds.
    pub fn upcoming(&self, dt: u64) -> (r: Option<Batch>)
        ensures
            r == self@.ticked(dt).due(),
    {
        let mut time = self.global_time;
        time.tick(dt);
        let count: usize = self.waves.len();
        if count == 0 {
            return None;
        }
        let windows: u64 = time.elapsed / WAVE_WINDOW;
        let i: usize = (windows % (count as u64)) as usize;
        let mut wave: Wave = self.waves[i];
        wave.next_spawn.tick(dt);
        if wave.next_spawn.just_finished() {
            let factor: u64 = compute_difficulty(windows / (count as u64));
            Some(
                Batch {
                    size: narrow(compute_scaled(wave.wave_size as u64, factor)),
                    enemy: grow(wave.to_spawn, factor),
                },
            )
        } else {
            None
        }
    }
}

} // verus!
