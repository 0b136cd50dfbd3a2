//! What holds of the rules in every game, whatever the frame rate and the
//! course of play.

use crate::attack::{
    area_shot_bullet_spawned, area_shot_spawned, close_shot_bullet_spawned, close_shot_spawned,
    new_whip, scatter_at, whip_spawned, AREA_SHOT_FARTHEST, AREA_SHOT_NEAREST, AREA_SHOT_RING,
    AREA_SHOT_SPREAD, WHIP_DAMAGE,
};
use crate::enemy::{
    batch_spawned, contact_drained, drained, enemies_drained, enemy_damage_player_done, enemy_moved,
    enemy_spawned, new_enemy, DESPAWN_RADIUS, SPAWN_CLEARANCE, SPAWN_REACH, SPAWN_RING,
    SPAWN_SPREAD,
};
use crate::exp::{orb_pulled, orb_spawned};
use crate::fixed::{
    amount, cap_u32, cap_u64, component, lemma_component, lemma_sqrt_exists, length, ratio, scaled,
    step_length, toward, Vec2, FACTOR_ONE, UNIT,
};
use crate::model::{
    Enemy, EnemyTemplate, ExpOrb, GameState, Player, UpgradeSelected, Wave, WaveManagerView,
    WeaponUpgrade, WorldView,
};
use crate::player::{
    exp_gained, in_reach, leveled_up, levels_up, next_threshold, orb_out_of_reach,
    player_gain_exp_done, player_game_over_done, player_level_up_done, player_spawned,
};
use crate::random::{lemma_stretched_bound, scattered, stretched, Scatter};
use crate::timer::total_time;
use crate::ui::world_text_spawned;
use crate::upgrade::{whip_boosted, whip_paired, whip_upgrade_applied, WHIP_SLOTS};
use crate::wave::{
    current_wave, difficulty, lemma_wave_selection, power, wave_cycles, wave_index, Batch,
    GROWTH_DEN, GROWTH_NUM, WAVE_WINDOW,
};
use vstd::prelude::*;

verus! {

/// The first powers of the growth's numerator and denominator.
proof fn lemma_first_powers()
    ensures
        power(10, 0) == 1,
        power(10, 1) == 10,
        power(10, 2) == 100,
        power(10, 3) == 1_000,
        power(10, 4) == 10_000,
        power(10, 5) == 100_000,
        power(10, 6) == 1_000_000,
        power(10, 7) == 10_000_000,
        power(10, 8) == 100_000_000,
        power(10, 9) == 1_000_000_000,
        power(13, 0) == 1,
        power(13, 1) == 13,
        power(13, 2) == 169,
        power(13, 3) == 2_197,
        power(13, 4) == 28_561,
        power(13, 5) == 371_293,
        power(13, 6) == 4_826_809,
        power(13, 7) == 62_748_517,
        power(13, 8) == 815_730_721,
        power(13, 9) == 10_604_499_373,
{
    assert(power(10, 0) == 1 && power(13, 0) == 1);
    assert(power(10, 1) == 10 * power(10, 0) && power(13, 1) == 13 * power(13, 0));
    assert(power(10, 2) == 10 * power(10, 1) && power(13, 2) == 13 * power(13, 1));
    assert(power(10, 3) == 10 * power(10, 2) && power(13, 3) == 13 * power(13, 2));
    assert(power(10, 4) == 10 * power(10, 3) && power(13, 4) == 13 * power(13, 3));
    assert(power(10, 5) == 10 * power(10, 4) && power(13, 5) == 13 * power(13, 4));
    assert(power(10, 6) == 10 * power(10, 5) && power(13, 6) == 13 * power(13, 5));
    assert(power(10, 7) == 10 * power(10, 6) && power(13, 7) == 13 * power(13, 6));
    assert(power(10, 8) == 10 * power(10, 7) && power(13, 8) == 13 * power(13, 7));
    assert(power(10, 9) == 10 * power(10, 8) && power(13, 9) == 13 * power(13, 8));
}

/// The difficulty of the cycles five to nine.
proof fn lemma_difficulty_next_cycles()
    ensures
        difficulty(5) == 3_712_930_000,
        difficulty(6) == 4_826_809_000,
        difficulty(7) == 6_274_851_700,
        difficulty(8) == 8_157_307_210,
        difficulty(9) == 10_604_499_373,
{
    crate::wave::lemma_difficulty_first_cycles();
    assert(difficulty(5) == crate::fixed::ratio(difficulty(4), GROWTH_NUM, GROWTH_DEN));
    assert(difficulty(6) == crate::fixed::ratio(difficulty(5), GROWTH_NUM, GROWTH_DEN));
    assert(difficulty(7) == crate::fixed::ratio(difficulty(6), GROWTH_NUM, GROWTH_DEN));
    assert(difficulty(8) == crate::fixed::ratio(difficulty(7), GROWTH_NUM, GROWTH_DEN));
    assert(difficulty(9) == crate::fixed::ratio(difficulty(8), GROWTH_NUM, GROWTH_DEN));
}

/// For the first nine cycles the difficulty is exactly the growth to the
/// power of the cycles: no rounding takes place.
pub proof fn lemma_difficulty_exact(cycles: nat)
    requires
        cycles <= 9,
    ensures
        difficulty(cycles) * power(GROWTH_DEN as nat, cycles) == FACTOR_ONE * power(
            GROWTH_NUM as nat,
            cycles,
        ),
{
    lemma_first_powers();
    crate::wave::lemma_difficulty_first_cycles();
    lemma_difficulty_next_cycles();
}

/// `health` after contact at `rate` through the time steps `steps`, one
/// after the other.
pub open spec fn health_after_contact(health: u64, rate: u32, steps: Seq<u64>) -> u64
    decreases steps.len(),
{
    if steps.len() == 0 {
        health
    } else {
        drained(health_after_contact(health, rate, steps.drop_last()), amount(rate, steps.last()))
    }
}

/// Contact at a rate takes the rate times the total time from the health,
/// exactly, however the time is cut into steps; the health stops at zero.
pub proof fn lemma_contact_damage_total(health: u64, rate: u32, steps: Seq<u64>)
    ensures
        health_after_contact(health, rate, steps) == if health >= rate * total_time(steps) {
            health - rate * total_time(steps)
        } else {
            0
        },
    decreases steps.len(),
{
    let r = rate as int;
    let total = total_time(steps) as int;
    if steps.len() == 0 {
        assert(r * total == 0) by (nonlinear_arith)
            requires
                total == 0,
        ;
    } else {
        lemma_contact_damage_total(health, rate, steps.drop_last());
        let before = total_time(steps.drop_last()) as int;
        let dt = steps.last() as int;
        assert(total == before + dt);
        assert(r * total == r * before + r * dt && 0 <= r * dt && 0 <= r * before)
            by (nonlinear_arith)
            requires
                total == before + dt,
                0 <= r,
                0 <= dt,
                0 <= before,
        ;
    }
}

/// The world after the enemies `contacts` have been in contact with the
/// player through the time steps `steps`.
pub open spec fn contact_held(w: WorldView, contacts: Seq<u64>, steps: Seq<u64>) -> WorldView
    decreases steps.len(),
{
    if steps.len() == 0 {
        w
    } else {
        enemy_damage_player_done(
            contact_held(w, contacts, steps.drop_last()),
            steps.last(),
            contacts,
        )
    }
}

/// One enemy in unbroken contact with the player takes its damage rate
/// times the total time from the player's health, exactly, and the health
/// stops at zero. Nothing else in the world changes.
pub proof fn lemma_contact_drains_health(
    w: WorldView,
    player: Player,
    enemy: Enemy,
    steps: Seq<u64>,
)
    requires
        w.player == Some(player),
        w.enemies == seq![enemy],
    ensures
        contact_held(w, seq![enemy.id], steps) == (WorldView {
            player: Some(
                Player {
                    health: if player.health >= enemy.damage_per_second * total_time(steps) {
                        (player.health - enemy.damage_per_second * total_time(steps)) as u64
                    } else {
                        0
                    },
                    ..player
                },
            ),
            ..w
        }),
    decreases steps.len(),
{
    let contacts = seq![enemy.id];
    lemma_contact_held_is_drain(w, player, enemy, steps);
    lemma_contact_damage_total(player.health, enemy.damage_per_second, steps);
}

/// With one enemy in contact, the world follows [`health_after_contact`].
proof fn lemma_contact_held_is_drain(w: WorldView, player: Player, enemy: Enemy, steps: Seq<u64>)
    requires
        w.player == Some(player),
        w.enemies == seq![enemy],
    ensures
        contact_held(w, seq![enemy.id], steps) == (WorldView {
            player: Some(
                Player {
                    health: health_after_contact(player.health, enemy.damage_per_second, steps),
                    ..player
                },
            ),
            ..w
        }),
    decreases steps.len(),
{
    let contacts = seq![enemy.id];
    if steps.len() > 0 {
        lemma_contact_held_is_drain(w, player, enemy, steps.drop_last());
        let before = contact_held(w, contacts, steps.drop_last());
        let health = before.player.unwrap().health;
        let damage = amount(enemy.damage_per_second, steps.last());
        reveal_with_fuel(crate::enemy::enemies_drained, 2);
        reveal_with_fuel(crate::enemy::contact_drained, 2);
        assert(contacts.drop_last().len() == 0);
        assert(crate::enemy::contact_drained(health, damage, enemy.id, contacts) == drained(
            health,
            damage,
        ));
        assert(crate::enemy::enemies_drained(health, before.enemies, steps.last(), contacts, 1)
            == drained(health, damage));
    }
}

/// The new level threshold is 1.4 times the old one, rounded to the nearest
/// whole number; no threshold lies halfway between two.
pub proof fn lemma_next_threshold_rounds(threshold: u64)
    requires
        threshold * 14 + 5 <= 10 * u64::MAX,
    ensures
        14 * threshold - 5 < 10 * next_threshold(threshold) < 14 * threshold + 5,
{
    let sum = threshold * 14 + 5;
    let quotient = sum / 10;
    let rest = sum % 10;
    assert(sum == 10 * quotient + rest && 0 <= rest < 10);
    if rest == 0 {
        let even = 5 * quotient;
        let odd = 7 * threshold + 2;
        assert(2 * even == 2 * odd + 1);
        assert((2 * even) % 2 == 0);
        assert((2 * odd + 1) % 2 == 1);
    }
}

/// A player with enough experience levels up once, however far the
/// experience is past the threshold: the experience starts over at zero,
/// the threshold grows to 1.4 times, rounded, the level is one more (below
/// the top of its range), the level-up phase is asked for, and with a
/// threshold above zero the same check right after finds nothing to do.
pub proof fn lemma_level_up_once(w: WorldView, player: Player)
    requires
        w.player == Some(player),
        levels_up(player),
    ensures
        player_level_up_done(w).player == Some(leveled_up(player)),
        leveled_up(player).exp == 0,
        leveled_up(player).next_level_exp == next_threshold(player.next_level_exp),
        player_level_up_done(w).next_state == Some(GameState::LevelUp),
        player.level < u64::MAX ==> leveled_up(player).level == player.level + 1,
        player.next_level_exp > 0 ==> player_level_up_done(player_level_up_done(w))
            == player_level_up_done(w),
{
    if player.next_level_exp > 0 {
        assert(next_threshold(player.next_level_exp) > 0);
    }
}

/// Three whip upgrades in a row, from a player without a whip: the first
/// gives one whip; the second gives another and moves the first to the left
/// and out of step; the third gives none, touches nothing but the whips,
/// and makes each a tenth stronger.
pub proof fn lemma_three_whip_upgrades(w: WorldView)
    requires
        w.player.is_some(),
        w.whips.len() == 0,
        w.next_id + 2 <= u64::MAX,
    ensures
        ({
            let chosen = UpgradeSelected(WeaponUpgrade::Whip);
            let first = whip_upgrade_applied(w, chosen);
            let second = whip_upgrade_applied(first, chosen);
            let third = whip_upgrade_applied(second, chosen);
            &&& first == (WorldView {
                whips: seq![new_whip(w.next_id)],
                next_id: (w.next_id + 1) as u64,
                ..w
            })
            &&& second == (WorldView {
                whips: seq![whip_paired(new_whip(w.next_id)), new_whip((w.next_id + 1) as u64)],
                next_id: (w.next_id + 2) as u64,
                ..w
            })
            &&& third == (WorldView {
                whips: seq![
                    whip_boosted(whip_paired(new_whip(w.next_id))),
                    whip_boosted(new_whip((w.next_id + 1) as u64)),
                ],
                ..second
            })
            &&& third.whips[0].damage == WHIP_DAMAGE + WHIP_DAMAGE / 10
            &&& third.whips[1].damage == WHIP_DAMAGE + WHIP_DAMAGE / 10
        }),
{
    let chosen = UpgradeSelected(WeaponUpgrade::Whip);
    let first = whip_upgrade_applied(w, chosen);
    let second = whip_upgrade_applied(first, chosen);
    let third = whip_upgrade_applied(second, chosen);
    assert(first.whips =~= seq![new_whip(w.next_id)]);
    assert(second.whips =~= seq![
        whip_paired(new_whip(w.next_id)),
        new_whip((w.next_id + 1) as u64),
    ]);
    assert(third.whips =~= seq![
        whip_boosted(whip_paired(new_whip(w.next_id))),
        whip_boosted(new_whip((w.next_id + 1) as u64)),
    ]);
}

/// Whip upgrades never give the player more whips than there are slots.
pub proof fn lemma_whip_slots(w: WorldView, upgrade: UpgradeSelected)
    requires
        w.whips.len() <= WHIP_SLOTS,
    ensures
        whip_upgrade_applied(w, upgrade).whips.len() <= WHIP_SLOTS,
{
}

/// A step toward a target moves each coordinate by no more than the length
/// of the step, and never away from the target's side.
pub proof fn lemma_step_toward(from: Vec2, target: Vec2, dist: u32)
    ensures
        ({
            let to = from.stepped_toward(target, dist);
            &&& -dist <= to.x - from.x <= dist
            &&& -dist <= to.y - from.y <= dist
            &&& target.x >= from.x ==> to.x >= from.x
            &&& target.x <= from.x ==> to.x <= from.x
            &&& target.y >= from.y ==> to.y >= from.y
            &&& target.y <= from.y ==> to.y <= from.y
        }),
{
    let dx = target.x - from.x;
    let dy = target.y - from.y;
    lemma_toward_bound(dx, dy, dist as nat);
    lemma_toward_bound(dy, dx, dist as nat);
}

/// A component of a step is no longer than the step and has the sign of
/// its side of the direction.
pub proof fn lemma_toward_bound(d: int, other: int, dist: nat)
    ensures
        -dist <= toward(d, other, dist) <= dist,
        d >= 0 ==> toward(d, other, dist) >= 0,
        d <= 0 ==> toward(d, other, dist) <= 0,
{
    let size: nat = if d >= 0 { d as nat } else { (-d) as nat };
    assert(size * size == d * d) by (nonlinear_arith)
        requires
            size == d || size == -d,
    ;
    assert(0 <= other * other) by (nonlinear_arith);
    let n = (d * d + other * other) as nat;
    if n > 0 {
        lemma_component(size, dist, n);
        if d == 0 {
            assert((size * dist) * (size * dist) == 0) by (nonlinear_arith)
                requires
                    size == 0,
            ;
            let c = component(size, dist, n);
            assert(c == 0) by {
                if c > 0 {
                    assert(c * c * n > 0) by (nonlinear_arith)
                        requires
                            c > 0,
                            n > 0,
                    ;
                }
            }
        }
    }
}

/// An orb that is being collected flies toward the player at its
/// collection speed: in each tick every coordinate moves by no more than
/// the speed times the time, and never away from the player's side. An orb
/// that is not being collected stays where it is.
pub proof fn lemma_orb_flies_to_player(orb: ExpOrb, target: Vec2, dt: u64)
    ensures
        ({
            let after = orb_pulled(orb, target, dt);
            let step = step_length(orb.collection_speed, dt);
            &&& !orb.collecting ==> after == orb
            &&& after == (ExpOrb { position: after.position, ..orb })
            &&& -step <= after.position.x - orb.position.x <= step
            &&& -step <= after.position.y - orb.position.y <= step
            &&& target.x >= orb.position.x ==> after.position.x >= orb.position.x
            &&& target.x <= orb.position.x ==> after.position.x <= orb.position.x
            &&& target.y >= orb.position.y ==> after.position.y >= orb.position.y
            &&& target.y <= orb.position.y ==> after.position.y <= orb.position.y
        }),
{
    lemma_step_toward(orb.position, target, step_length(orb.collection_speed, dt));
}

/// The experience does not change where no orb is in reach.
proof fn lemma_nothing_in_reach(exp: u64, orbs: Seq<ExpOrb>, center: Vec2, n: int)
    requires
        forall|i: int| 0 <= i < orbs.len() ==> !in_reach(center, #[trigger] orbs[i]),
    ensures
        exp_gained(exp, orbs, center, n) == exp,
    decreases n,
{
    if n > 0 && n <= orbs.len() {
        lemma_nothing_in_reach(exp, orbs, center, n - 1);
    }
}

/// A filter keeps a sequence whose items all pass.
proof fn lemma_filter_keeps_all(orbs: Seq<ExpOrb>, pred: spec_fn(ExpOrb) -> bool)
    requires
        forall|i: int| 0 <= i < orbs.len() ==> pred(#[trigger] orbs[i]),
    ensures
        orbs.filter(pred) == orbs,
    decreases orbs.len(),
{
    reveal(Seq::filter);
    if orbs.len() > 0 {
        lemma_filter_keeps_all(orbs.drop_last(), pred);
        assert(orbs.drop_last().push(orbs.last()) =~= orbs);
    }
}

/// An orb is picked up exactly once: after the pickup no orb that stays is
/// in reach of the player, every orb that stays was there before, and the
/// same pickup right after changes nothing, so that no value is credited
/// twice.
pub proof fn lemma_orb_credited_once(w: WorldView)
    ensures
        ({
            let after = player_gain_exp_done(w);
            &&& w.player matches Some(player) ==> forall|i: int|
                0 <= i < after.orbs.len() ==> !in_reach(player.position, #[trigger] after.orbs[i])
                    && w.orbs.contains(after.orbs[i])
            &&& player_gain_exp_done(after) == after
        }),
{
    let after = player_gain_exp_done(w);
    if let Some(player) = w.player {
        let stays = orb_out_of_reach(player.position);
        assert forall|i: int| 0 <= i < after.orbs.len() implies !in_reach(
            player.position,
            #[trigger] after.orbs[i],
        ) && w.orbs.contains(after.orbs[i]) by {
            w.orbs.lemma_filter_pred(stays, i);
            lemma_filter_subset(w.orbs, stays, i);
        }
        lemma_filter_keeps_all(after.orbs, stays);
        lemma_nothing_in_reach(
            after.player.unwrap().exp,
            after.orbs,
            player.position,
            after.orbs.len() as int,
        );
    }
}

/// What a filter keeps was in the sequence.
proof fn lemma_filter_subset(orbs: Seq<ExpOrb>, pred: spec_fn(ExpOrb) -> bool, i: int)
    requires
        0 <= i < orbs.filter(pred).len(),
    ensures
        orbs.contains(orbs.filter(pred)[i]),
    decreases orbs.len(),
{
    reveal(Seq::filter);
    if orbs.len() > 0 {
        let rest = orbs.drop_last().filter(pred);
        if i < rest.len() {
            lemma_filter_subset(orbs.drop_last(), pred, i);
            let front = orbs.drop_last();
            let k = choose|k: int| 0 <= k < front.len() && front[k] == rest[i];
            assert(orbs[k] == rest[i]);
        } else {
            assert(orbs[orbs.len() - 1] == orbs.last());
        }
    }
}

/// The round ends exactly when contact has lasted long enough: after one
/// enemy has been in unbroken contact with the player, the check for the
/// end of the round asks for the game-over phase if and only if the damage
/// rate times the total time has reached the player's health.
pub proof fn lemma_contact_ends_round(w: WorldView, player: Player, enemy: Enemy, steps: Seq<u64>)
    requires
        w.player == Some(player),
        w.enemies == seq![enemy],
        w.next_state.is_none(),
    ensures
        player_game_over_done(contact_held(w, seq![enemy.id], steps)).next_state == if player.health
            <= enemy.damage_per_second * total_time(steps) {
            Some(GameState::GameOver)
        } else {
            None
        },
{
    lemma_contact_drains_health(w, player, enemy, steps);
}

/// No entity ever gets the identifier of another: in a world whose
/// identifiers were all handed out by its counter, every spawn leaves a
/// world of that kind, and the identifier about to be handed out is in use
/// nowhere.
pub proof fn lemma_spawn_keeps_identifiers_apart(
    w: WorldView,
    position: Vec2,
    direction: Vec2,
    template: EnemyTemplate,
    amount: u64,
)
    requires
        w.ids_in_order(),
    ensures
        !w.uses_id(w.next_id),
        world_text_spawned(w, position, amount).ids_in_order(),
        area_shot_spawned(w).ids_in_order(),
        area_shot_bullet_spawned(w, position).ids_in_order(),
        close_shot_spawned(w).ids_in_order(),
        close_shot_bullet_spawned(w, position, direction).ids_in_order(),
        whip_spawned(w).ids_in_order(),
        orb_spawned(w, position).ids_in_order(),
        enemy_spawned(w, template, position).ids_in_order(),
        player_spawned(w).ids_in_order(),
{
    lemma_ids_after_spawn(w, world_text_spawned(w, position, amount));
    lemma_ids_after_spawn(w, area_shot_spawned(w));
    lemma_ids_after_spawn(w, area_shot_bullet_spawned(w, position));
    lemma_ids_after_spawn(w, close_shot_spawned(w));
    lemma_ids_after_spawn(w, close_shot_bullet_spawned(w, position, direction));
    lemma_ids_after_spawn(w, whip_spawned(w));
    lemma_ids_after_spawn(w, orb_spawned(w, position));
    lemma_ids_after_spawn(w, enemy_spawned(w, template, position));
    let armed = whip_spawned(w);
    let started = player_spawned(w);
    assert forall|id: u64| started.uses_id(id) implies id < started.next_id by {
        if !armed.uses_id(id) {
            assert(started.player matches Some(player) && player.id == id);
        }
    }
}

/// Whether `r` is `w` with at most one entity more, which carries the
/// identifier that `w` was about to hand out.
spec fn one_more(w: WorldView, r: WorldView) -> bool {
    ||| r == w
    ||| {
        &&& r.next_id == w.next_id + 1
        &&& r.player == w.player
        &&& grown_by_one(w.enemies, r.enemies, |e: Enemy| e.id, w.next_id)
        &&& grown_by_one(w.whips, r.whips, |e: crate::model::Whip| e.id, w.next_id)
        &&& grown_by_one(w.close_shots, r.close_shots, |e: crate::model::CloseShot| e.id, w.next_id)
        &&& grown_by_one(
            w.close_shot_bullets,
            r.close_shot_bullets,
            |e: crate::model::CloseShotBullet| e.id,
            w.next_id,
        )
        &&& grown_by_one(w.area_shots, r.area_shots, |e: crate::model::AreaShot| e.id, w.next_id)
        &&& grown_by_one(
            w.area_shot_bullets,
            r.area_shot_bullets,
            |e: crate::model::AreaShotBullet| e.id,
            w.next_id,
        )
        &&& grown_by_one(w.orbs, r.orbs, |e: ExpOrb| e.id, w.next_id)
        &&& grown_by_one(w.texts, r.texts, |e: crate::model::WorldTextUI| e.id, w.next_id)
    }
}

/// Whether `after` is `before`, or `before` with one item more whose
/// identifier is `id`.
spec fn grown_by_one<T>(before: Seq<T>, after: Seq<T>, id_of: spec_fn(T) -> u64, id: u64) -> bool {
    ||| after == before
    ||| {
        &&& after.len() == before.len() + 1
        &&& forall|i: int| 0 <= i < before.len() ==> #[trigger] after[i] == before[i]
        &&& id_of(after[before.len() as int]) == id
    }
}

/// A world with one entity more, under the identifier that was next,
/// still has all its identifiers from its counter.
proof fn lemma_ids_after_spawn(w: WorldView, r: WorldView)
    requires
        w.ids_in_order(),
        ({
            ||| r == w
            ||| r.next_id == w.next_id + 1 && r == (WorldView {
                next_id: r.next_id,
                enemies: r.enemies,
                whips: r.whips,
                close_shots: r.close_shots,
                close_shot_bullets: r.close_shot_bullets,
                area_shots: r.area_shots,
                area_shot_bullets: r.area_shot_bullets,
                orbs: r.orbs,
                texts: r.texts,
                ..w
            }) && one_more(w, r)
        }),
    ensures
        r.ids_in_order(),
{
    if r != w {
        assert forall|id: u64| r.uses_id(id) implies id < r.next_id by {
            if !w.uses_id(id) {
                assert(id == w.next_id) by {
                    lemma_new_id(w.enemies, r.enemies, |e: Enemy| e.id, w.next_id);
                    lemma_new_id(w.whips, r.whips, |e: crate::model::Whip| e.id, w.next_id);
                    lemma_new_id(
                        w.close_shots,
                        r.close_shots,
                        |e: crate::model::CloseShot| e.id,
                        w.next_id,
                    );
                    lemma_new_id(
                        w.close_shot_bullets,
                        r.close_shot_bullets,
                        |e: crate::model::CloseShotBullet| e.id,
                        w.next_id,
                    );
                    lemma_new_id(
                        w.area_shots,
                        r.area_shots,
                        |e: crate::model::AreaShot| e.id,
                        w.next_id,
                    );
                    lemma_new_id(
                        w.area_shot_bullets,
                        r.area_shot_bullets,
                        |e: crate::model::AreaShotBullet| e.id,
                        w.next_id,
                    );
                    lemma_new_id(w.orbs, r.orbs, |e: ExpOrb| e.id, w.next_id);
                    lemma_new_id(w.texts, r.texts, |e: crate::model::WorldTextUI| e.id, w.next_id);
                }
            }
        }
    }
}

/// In a sequence grown by one, an item either was there before or carries
/// the new identifier.
proof fn lemma_new_id<T>(before: Seq<T>, after: Seq<T>, id_of: spec_fn(T) -> u64, id: u64)
    requires
        grown_by_one(before, after, id_of, id),
    ensures
        forall|i: int|
            0 <= i < after.len() ==> (i < before.len() && before[i] == #[trigger] after[i])
                || id_of(after[i]) == id,
{
    assert forall|i: int| 0 <= i < after.len() implies (i < before.len() && before[i]
        == #[trigger] after[i]) || id_of(after[i]) == id by {
    }
}

/// The square of the dot product of two vectors is at most the product of
/// the squares of their lengths.
proof fn lemma_dot_product_bound(px: int, py: int, jx: int, jy: int)
    ensures
        (px * jx + py * jy) * (px * jx + py * jy) <= (px * px + py * py) * (jx * jx + jy * jy),
{
    let a = px * jx;
    let b = py * jy;
    let c = px * jy;
    let d = py * jx;
    let xx = px * px;
    let yy = py * py;
    let uu = jx * jx;
    let vv = jy * jy;
    assert(xx * uu == a * a) by (nonlinear_arith)
        requires
            xx == px * px,
            uu == jx * jx,
            a == px * jx,
    ;
    assert(yy * vv == b * b) by (nonlinear_arith)
        requires
            yy == py * py,
            vv == jy * jy,
            b == py * jy,
    ;
    assert(xx * vv == c * c) by (nonlinear_arith)
        requires
            xx == px * px,
            vv == jy * jy,
            c == px * jy,
    ;
    assert(yy * uu == d * d) by (nonlinear_arith)
        requires
            yy == py * py,
            uu == jx * jx,
            d == py * jx,
    ;
    assert(c * d == a * b) by (nonlinear_arith)
        requires
            a == px * jx,
            b == py * jy,
            c == px * jy,
            d == py * jx,
    ;
    assert((xx + yy) * (uu + vv) == xx * uu + xx * vv + yy * uu + yy * vv) by (nonlinear_arith);
    assert((a + b) * (a + b) == a * a + 2 * (a * b) + b * b) by (nonlinear_arith);
    assert((c - d) * (c - d) == c * c - 2 * (c * d) + d * d) by (nonlinear_arith);
    assert((c - d) * (c - d) >= 0) by (nonlinear_arith);
}

/// The triangle inequality, in squares: a vector at least `b + l` long,
/// moved by a vector at most `b` long, is still at least `l` long.
pub proof fn lemma_offset_keeps_distance(px: int, py: int, jx: int, jy: int, b: int, l: int)
    requires
        b >= 0,
        l >= 0,
        px * px + py * py >= (b + l) * (b + l),
        jx * jx + jy * jy <= b * b,
    ensures
        (px + jx) * (px + jx) + (py + jy) * (py + jy) >= l * l,
{
    let p = px * px + py * py;
    let q = jx * jx + jy * jy;
    let s = px * jx + py * jy;
    let ll = l * l;
    let t = p - q - ll;
    let u = p + q - ll;
    assert((px + jx) * (px + jx) + (py + jy) * (py + jy) == p + 2 * s + q) by (nonlinear_arith)
        requires
            p == px * px + py * py,
            q == jx * jx + jy * jy,
            s == px * jx + py * jy,
    ;
    lemma_dot_product_bound(px, py, jx, jy);
    assert(q >= 0 && ll >= 0 && b * b >= 0) by (nonlinear_arith)
        requires
            q == jx * jx + jy * jy,
            ll == l * l,
    ;
    assert((b + l) * (b + l) == b * b + 2 * (b * l) + ll && b * l >= 0) by (nonlinear_arith)
        requires
            ll == l * l,
            b >= 0,
            l >= 0,
    ;
    assert(t >= 2 * (b * l));
    assert(t * t >= 4 * (q * ll)) by (nonlinear_arith)
        requires
            t >= 2 * (b * l),
            b * l >= 0,
            0 <= q <= b * b,
            ll == l * l,
            ll >= 0,
            b >= 0,
            l >= 0,
    ;
    assert(u * u == t * t + 4 * (q * (p - ll))) by (nonlinear_arith)
        requires
            t == p - q - ll,
            u == p + q - ll,
    ;
    assert(q * (p - ll) == q * p - q * ll && q * p == p * q) by (nonlinear_arith);
    assert(s * s <= p * q);
    assert(u * u >= 4 * (s * s));
    assert(u >= 0);
    assert(u + 2 * s >= 0) by (nonlinear_arith)
        requires
            u >= 0,
            u * u >= 4 * (s * s),
    ;
}

/// A step has its length: the square of the step is never more than the
/// square of `dist`, and along a vector that is not zero it is, for all the
/// rounding, less than two millionths short of it.
pub proof fn lemma_step_length(dx: int, dy: int, dist: nat)
    ensures
        toward(dx, dy, dist) * toward(dx, dy, dist) + toward(dy, dx, dist) * toward(dy, dx, dist)
            <= dist * dist,
        (dx != 0 || dy != 0) && dist >= 2 ==> toward(dx, dy, dist) * toward(dx, dy, dist) + toward(
            dy,
            dx,
            dist,
        ) * toward(dy, dx, dist) >= (dist - 2) * (dist - 2),
{
    let ax: nat = if dx >= 0 { dx as nat } else { (-dx) as nat };
    let ay: nat = if dy >= 0 { dy as nat } else { (-dy) as nat };
    assert(ax * ax == dx * dx && ay * ay == dy * dy) by (nonlinear_arith)
        requires
            ax == dx || ax == -dx,
            ay == dy || ay == -dy,
    ;
    assert(0 <= ax * ax && 0 <= ay * ay) by (nonlinear_arith);
    let n = (dx * dx + dy * dy) as nat;
    assert(dy * dy + dx * dx == dx * dx + dy * dy);
    let tx = toward(dx, dy, dist);
    let ty = toward(dy, dx, dist);
    let r = dist as int;
    assert(r * r >= 0) by (nonlinear_arith);
    if n == 0 {
        assert(tx * tx + ty * ty == 0) by (nonlinear_arith)
            requires
                tx == 0,
                ty == 0,
        ;
        assert(ax == 0 && ay == 0) by (nonlinear_arith)
            requires
                ax * ax + ay * ay == 0,
                ax >= 0,
                ay >= 0,
        ;
    } else {
        let k = n as int;
        lemma_component(ax, dist, n);
        lemma_component(ay, dist, n);
        let cx = component(ax, dist, n) as int;
        let cy = component(ay, dist, n) as int;
        assert(tx * tx == cx * cx && ty * ty == cy * cy) by (nonlinear_arith)
            requires
                tx == cx || tx == -cx,
                ty == cy || ty == -cy,
        ;
        let vx = (ax * dist) as int;
        let vy = (ay * dist) as int;
        assert(vx * vx + vy * vy == k * (r * r)) by (nonlinear_arith)
            requires
                vx == ax * r,
                vy == ay * r,
                k == ax * ax + ay * ay,
        ;
        let small = cx * cx + cy * cy;
        assert(small * k == cx * cx * k + cy * cy * k) by (nonlinear_arith)
            requires
                small == cx * cx + cy * cy,
        ;
        assert(small <= r * r) by (nonlinear_arith)
            requires
                small * k <= k * (r * r),
                k > 0,
        ;
        let big = (cx + 1) * (cx + 1) + (cy + 1) * (cy + 1);
        assert(big * k == (cx + 1) * (cx + 1) * k + (cy + 1) * (cy + 1) * k) by (nonlinear_arith)
            requires
                big == (cx + 1) * (cx + 1) + (cy + 1) * (cy + 1),
        ;
        assert(big > r * r) by (nonlinear_arith)
            requires
                big * k > k * (r * r),
                k > 0,
        ;
        if dist >= 2 {
            assert((2 + (r - 2)) * (2 + (r - 2)) == r * r) by (nonlinear_arith);
            assert((-1) * (-1) + (-1) * (-1) <= 2 * 2);
            lemma_offset_keeps_distance(cx + 1, cy + 1, -1, -1, 2, r - 2);
            assert(cx + 1 + -1 == cx && cy + 1 + -1 == cy);
        }
    }
}

/// A vector at most `a` long, moved by a vector at most `b` long, is at
/// most `a + b` long: the triangle inequality, in squares.
pub proof fn lemma_offset_within_distance(px: int, py: int, jx: int, jy: int, a: int, b: int)
    requires
        a >= 0,
        b >= 0,
        px * px + py * py <= a * a,
        jx * jx + jy * jy <= b * b,
    ensures
        (px + jx) * (px + jx) + (py + jy) * (py + jy) <= (a + b) * (a + b),
{
    let p = px * px + py * py;
    let q = jx * jx + jy * jy;
    let s = px * jx + py * jy;
    assert((px + jx) * (px + jx) + (py + jy) * (py + jy) == p + 2 * s + q) by (nonlinear_arith)
        requires
            p == px * px + py * py,
            q == jx * jx + jy * jy,
            s == px * jx + py * jy,
    ;
    lemma_dot_product_bound(px, py, jx, jy);
    assert(p >= 0 && q >= 0) by (nonlinear_arith)
        requires
            p == px * px + py * py,
            q == jx * jx + jy * jy,
    ;
    let ab = a * b;
    assert(p * q <= ab * ab) by (nonlinear_arith)
        requires
            0 <= p <= a * a,
            0 <= q <= b * b,
            ab == a * b,
    ;
    assert(ab >= 0) by (nonlinear_arith)
        requires
            a >= 0,
            b >= 0,
            ab == a * b,
    ;
    assert(s <= ab) by (nonlinear_arith)
        requires
            s * s <= ab * ab,
            ab >= 0,
    ;
    assert((a + b) * (a + b) == a * a + 2 * ab + b * b) by (nonlinear_arith)
        requires
            ab == a * b,
    ;
}

/// Enemies appear on the ring, out of sight and in range: the place that
/// a scatter in range picks on the spawn ring lies at least the spawn
/// clearance and at most the spawn reach from the centre, as long as the
/// centre is not at the very edge of the plane.
pub proof fn lemma_spawn_place_on_ring(center: Vec2, scatter: Scatter)
    requires
        scatter.in_range(),
        -2_000_000_000 <= center.x <= 2_000_000_000,
        -2_000_000_000 <= center.y <= 2_000_000_000,
    ensures
        SPAWN_CLEARANCE * SPAWN_CLEARANCE <= scattered(
            center,
            scatter,
            SPAWN_RING,
            SPAWN_SPREAD,
        ).distance_squared(center) <= SPAWN_REACH * SPAWN_REACH,
        SPAWN_REACH < DESPAWN_RADIUS,
{
    let direction = if scatter.direction == (Vec2 { x: 0, y: 0 }) {
        Vec2 { x: 1_000_000, y: 0 }
    } else {
        scatter.direction
    };
    let dx = direction.x as int;
    let dy = direction.y as int;
    let ring = SPAWN_RING as nat;
    let cx = toward(dx, dy, ring);
    let cy = toward(dy, dx, ring);
    lemma_toward_bound(dx, dy, ring);
    lemma_toward_bound(dy, dx, ring);
    lemma_step_length(dx, dy, ring);
    let jx = stretched(scatter.jitter.x, SPAWN_SPREAD);
    let jy = stretched(scatter.jitter.y, SPAWN_SPREAD);
    lemma_stretched_bound(scatter.jitter.x, SPAWN_SPREAD);
    lemma_stretched_bound(scatter.jitter.y, SPAWN_SPREAD);
    assert(jx * jx + jy * jy <= 1_414_214 * 1_414_214) by (nonlinear_arith)
        requires
            -1_000_000 <= jx <= 1_000_000,
            -1_000_000 <= jy <= 1_000_000,
    ;
    assert((1_414_214 + 20_585_784) * (1_414_214 + 20_585_784) == (22_000_000 - 2) * (22_000_000
        - 2));
    lemma_offset_keeps_distance(cx, cy, jx, jy, 1_414_214, 20_585_784);
    lemma_offset_within_distance(cx, cy, jx, jy, 22_000_000, 1_414_214);
    let place = scattered(center, scatter, SPAWN_RING, SPAWN_SPREAD);
    assert(place.x - center.x == cx + jx);
    assert(place.y - center.y == cy + jy);
}

/// Every enemy of a batch appears on the ring around the player: out of
/// sight, at least the spawn clearance away, and no farther than the spawn
/// reach, which lies inside the despawn radius.
pub proof fn lemma_batch_appears_on_ring(
    w: WorldView,
    batch: Batch,
    center: Vec2,
    scatters: Seq<Scatter>,
    n: int,
)
    requires
        forall|i: int| 0 <= i < scatters.len() ==> (#[trigger] scatters[i]).in_range(),
        -2_000_000_000 <= center.x <= 2_000_000_000,
        -2_000_000_000 <= center.y <= 2_000_000_000,
    ensures
        ({
            let r = batch_spawned(w, batch, center, scatters, n);
            &&& r.enemies.len() >= w.enemies.len()
            &&& forall|i: int| 0 <= i < w.enemies.len() ==> r.enemies[i] == w.enemies[i]
            &&& forall|i: int|
                w.enemies.len() <= i < r.enemies.len() ==> SPAWN_CLEARANCE * SPAWN_CLEARANCE <= (
                #[trigger] r.enemies[i]).position.distance_squared(center) <= SPAWN_REACH
                    * SPAWN_REACH
        }),
    decreases n,
{
    if n > 0 {
        lemma_batch_appears_on_ring(w, batch, center, scatters, n - 1);
        lemma_spawn_place_on_ring(center, scatter_at(scatters, n - 1));
    }
}

/// A step that does not pass its target brings the point nearer to it: the
/// square of the distance falls by at least the square of the step, short
/// of two millionths for the rounding.
pub proof fn lemma_step_comes_nearer(from: Vec2, target: Vec2, dist: u32)
    requires
        2 <= dist <= length(target.x - from.x, target.y - from.y),
    ensures
        from.stepped_toward(target, dist).distance_squared(target) + (dist - 2) * (dist - 2)
            <= from.distance_squared(target),
{
    let dx = target.x - from.x;
    let dy = target.y - from.y;
    let r = dist as int;
    let ax: nat = if dx >= 0 { dx as nat } else { (-dx) as nat };
    let ay: nat = if dy >= 0 { dy as nat } else { (-dy) as nat };
    assert(ax * ax == dx * dx && ay * ay == dy * dy) by (nonlinear_arith)
        requires
            ax == dx || ax == -dx,
            ay == dy || ay == -dy,
    ;
    assert(0 <= ax * ax && 0 <= ay * ay) by (nonlinear_arith);
    let n = (dx * dx + dy * dy) as nat;
    assert(dy * dy + dx * dx == dx * dx + dy * dy);
    lemma_sqrt_exists(n);
    let len = length(dx, dy) as int;
    assert(len >= 2);
    assert(len * len >= 4) by (nonlinear_arith)
        requires
            len >= 2,
    ;
    assert(n >= 4);
    lemma_step_length(dx, dy, dist as nat);
    lemma_toward_bound(dx, dy, dist as nat);
    lemma_toward_bound(dy, dx, dist as nat);
    let tx = toward(dx, dy, dist as nat);
    let ty = toward(dy, dx, dist as nat);
    let qx: int = if dx >= 0 { tx } else { -tx };
    let qy: int = if dy >= 0 { ty } else { -ty };
    lemma_component(ax, dist as nat, n);
    lemma_component(ay, dist as nat, n);
    assert(qx == component(ax, dist as nat, n) && qy == component(ay, dist as nat, n));
    lemma_component_within(qx, ax as int, r, len, n as int);
    lemma_component_within(qy, ay as int, r, len, n as int);
    let to = from.stepped_toward(target, dist);
    assert(to.x == from.x + tx && to.y == from.y + ty);
    let rx = target.x - to.x;
    let ry = target.y - to.y;
    assert(rx * rx == (ax - qx) * (ax - qx)) by (nonlinear_arith)
        requires
            rx == ax - qx || rx == -(ax - qx),
    ;
    assert(ry * ry == (ay - qy) * (ay - qy)) by (nonlinear_arith)
        requires
            ry == ay - qy || ry == -(ay - qy),
    ;
    assert(tx * tx == qx * qx && ty * ty == qy * qy) by (nonlinear_arith)
        requires
            qx == tx || qx == -tx,
            qy == ty || qy == -ty,
    ;
    assert(ax * ax - (ax - qx) * (ax - qx) >= qx * qx) by (nonlinear_arith)
        requires
            0 <= qx <= ax,
    ;
    assert(ay * ay - (ay - qy) * (ay - qy) >= qy * qy) by (nonlinear_arith)
        requires
            0 <= qy <= ay,
    ;
    assert((from.x - target.x) * (from.x - target.x) == dx * dx && (from.y - target.y) * (from.y
        - target.y) == dy * dy && (to.x - target.x) * (to.x - target.x) == rx * rx && (to.y
        - target.y) * (to.y - target.y) == ry * ry) by (nonlinear_arith)
        requires
            dx == target.x - from.x,
            dy == target.y - from.y,
            rx == target.x - to.x,
            ry == target.y - to.y,
    ;
}

/// A component of a step that is no longer than the vector is no longer
/// than the vector's component.
proof fn lemma_component_within(c: int, a: int, r: int, len: int, n: int)
    requires
        0 <= c,
        0 <= a,
        0 <= r <= len,
        len * len <= n,
        n > 0,
        c * c * n <= (a * r) * (a * r),
    ensures
        c <= a,
{
    if c > a {
        assert(c * c >= (a + 1) * (a + 1)) by (nonlinear_arith)
            requires
                c >= a + 1,
                a >= 0,
        ;
        assert((a * r) * (a * r) == (a * a) * (r * r)) by (nonlinear_arith);
        assert(r * r <= len * len) by (nonlinear_arith)
            requires
                0 <= r <= len,
        ;
        assert((a * a) * (r * r) <= (a * a) * n) by (nonlinear_arith)
            requires
                r * r <= n,
                a * a >= 0,
        ;
        assert(a * a >= 0) by (nonlinear_arith);
        assert((a + 1) * (a + 1) > a * a) by (nonlinear_arith)
            requires
                a >= 0,
        ;
        assert(c * c * n > (a * a) * n) by (nonlinear_arith)
            requires
                c * c >= (a + 1) * (a + 1),
                (a + 1) * (a + 1) > a * a,
                n > 0,
        ;
    }
}

/// An orb that is being collected comes nearer to the player with every
/// tick whose step does not carry it past the player.
pub proof fn lemma_orb_comes_nearer(orb: ExpOrb, target: Vec2, dt: u64)
    requires
        orb.collecting,
        2 <= step_length(orb.collection_speed, dt) <= length(
            target.x - orb.position.x,
            target.y - orb.position.y,
        ),
    ensures
        orb_pulled(orb, target, dt).position.distance_squared(target) + (step_length(
            orb.collection_speed,
            dt,
        ) - 2) * (step_length(orb.collection_speed, dt) - 2) <= orb.position.distance_squared(
            target,
        ),
{
    lemma_step_comes_nearer(orb.position, target, step_length(orb.collection_speed, dt));
}

/// An enemy comes nearer to the player with every tick whose step does
/// not carry it past the player.
pub proof fn lemma_enemy_comes_nearer(enemy: Enemy, target: Vec2, dt: u64)
    requires
        2 <= step_length(enemy.speed, dt) <= length(
            target.x - enemy.position.x,
            target.y - enemy.position.y,
        ),
    ensures
        enemy_moved(enemy, target, dt).position.distance_squared(target) + (step_length(
            enemy.speed,
            dt,
        ) - 2) * (step_length(enemy.speed, dt) - 2) <= enemy.position.distance_squared(target),
{
    lemma_step_comes_nearer(enemy.position, target, step_length(enemy.speed, dt));
}

/// A step toward a target that is not the point itself has the length
/// asked for, short of at most two millionths for the rounding and never
/// longer, wherever the step stays inside the plane.
pub proof fn lemma_step_toward_length(from: Vec2, target: Vec2, dist: u32)
    requires
        from != target,
        dist >= 2,
        i32::MIN + dist <= from.x <= i32::MAX - dist,
        i32::MIN + dist <= from.y <= i32::MAX - dist,
    ensures
        ({
            let to = from.stepped_toward(target, dist);
            (dist - 2) * (dist - 2) <= (to.x - from.x) * (to.x - from.x) + (to.y - from.y) * (to.y
                - from.y) <= dist * dist
        }),
{
    let dx = target.x - from.x;
    let dy = target.y - from.y;
    lemma_toward_bound(dx, dy, dist as nat);
    lemma_toward_bound(dy, dx, dist as nat);
    lemma_step_length(dx, dy, dist as nat);
}

/// The direction from a point to another is one unit long, short of at
/// most two millionths for the rounding and never longer.
pub proof fn lemma_direction_has_unit_length(from: Vec2, target: Vec2)
    requires
        from != target,
    ensures
        ({
            let direction = from.direction_to(target);
            (UNIT - 2) * (UNIT - 2) <= direction.x * direction.x + direction.y * direction.y
                <= UNIT * UNIT
        }),
{
    let dx = target.x - from.x;
    let dy = target.y - from.y;
    lemma_toward_bound(dx, dy, UNIT as nat);
    lemma_toward_bound(dy, dx, UNIT as nat);
    lemma_step_length(dx, dy, UNIT as nat);
}

/// An orb that is being collected flies at its collection speed: in each
/// tick it covers the speed times the time, short of at most two
/// millionths for the rounding and never more, whatever its distance from
/// the player, wherever the step stays inside the plane.
pub proof fn lemma_orb_flies_at_constant_speed(orb: ExpOrb, target: Vec2, dt: u64)
    requires
        orb.collecting,
        orb.position != target,
        step_length(orb.collection_speed, dt) >= 2,
        i32::MIN + step_length(orb.collection_speed, dt) <= orb.position.x <= i32::MAX
            - step_length(orb.collection_speed, dt),
        i32::MIN + step_length(orb.collection_speed, dt) <= orb.position.y <= i32::MAX
            - step_length(orb.collection_speed, dt),
    ensures
        ({
            let after = orb_pulled(orb, target, dt).position;
            let step = step_length(orb.collection_speed, dt);
            (step - 2) * (step - 2) <= (after.x - orb.position.x) * (after.x - orb.position.x) + (
            after.y - orb.position.y) * (after.y - orb.position.y) <= step * step
        }),
{
    lemma_step_toward_length(orb.position, target, step_length(orb.collection_speed, dt));
}

/// An enemy walks at its speed: in each tick it covers the speed times the
/// time, short of at most two millionths for the rounding and never more,
/// whatever its distance from the player, wherever the step stays inside
/// the plane.
pub proof fn lemma_enemy_walks_at_its_speed(enemy: Enemy, target: Vec2, dt: u64)
    requires
        enemy.position != target,
        step_length(enemy.speed, dt) >= 2,
        i32::MIN + step_length(enemy.speed, dt) <= enemy.position.x <= i32::MAX - step_length(
            enemy.speed,
            dt,
        ),
        i32::MIN + step_length(enemy.speed, dt) <= enemy.position.y <= i32::MAX - step_length(
            enemy.speed,
            dt,
        ),
    ensures
        ({
            let after = enemy_moved(enemy, target, dt).position;
            let step = step_length(enemy.speed, dt);
            (step - 2) * (step - 2) <= (after.x - enemy.position.x) * (after.x - enemy.position.x)
                + (after.y - enemy.position.y) * (after.y - enemy.position.y) <= step * step
        }),
{
    lemma_step_toward_length(enemy.position, target, step_length(enemy.speed, dt));
}

/// How often `id` occurs in `list`.
pub open spec fn occurrences(list: Seq<u64>, id: u64) -> nat
    decreases list.len(),
{
    if list.len() == 0 {
        0
    } else {
        occurrences(list.drop_last(), id) + if list.last() == id {
            1nat
        } else {
            0nat
        }
    }
}

/// The damage that the first `n` enemies deal in `dt` microseconds of
/// contact: the sum, over the enemies, of the damage rate times the time,
/// once for each time the enemy is reported in contact.
pub open spec fn contact_damage(enemies: Seq<Enemy>, dt: u64, contacts: Seq<u64>, n: int) -> nat
    decreases n,
{
    if n <= 0 || n > enemies.len() {
        0
    } else {
        contact_damage(enemies, dt, contacts, n - 1) + occurrences(contacts, enemies[n - 1].id)
            * (amount(enemies[n - 1].damage_per_second, dt) as nat)
    }
}

/// `health` less `damage`, stopping at zero.
pub open spec fn less(health: u64, damage: nat) -> u64 {
    if health >= damage {
        (health - damage) as u64
    } else {
        0
    }
}

/// The contacts of one enemy take its damage from the health once for
/// each report.
proof fn lemma_contact_drained_total(health: u64, damage: u64, id: u64, contacts: Seq<u64>)
    ensures
        contact_drained(health, damage, id, contacts) == less(
            health,
            occurrences(contacts, id) * (damage as nat),
        ),
    decreases contacts.len(),
{
    let d = damage as int;
    if contacts.len() == 0 {
        assert(0 * d == 0);
    } else {
        lemma_contact_drained_total(health, damage, id, contacts.drop_last());
        let before = occurrences(contacts.drop_last(), id) as int;
        assert((before + 1) * d == before * d + d && before * d >= 0) by (nonlinear_arith)
            requires
                before >= 0,
                d >= 0,
        ;
    }
}

/// The enemies take the sum of their contact damage from the health.
proof fn lemma_enemies_drained_total(
    health: u64,
    enemies: Seq<Enemy>,
    dt: u64,
    contacts: Seq<u64>,
    n: int,
)
    ensures
        enemies_drained(health, enemies, dt, contacts, n) == less(
            health,
            contact_damage(enemies, dt, contacts, n),
        ),
    decreases n,
{
    if n > 0 && n <= enemies.len() {
        lemma_enemies_drained_total(health, enemies, dt, contacts, n - 1);
        let enemy = enemies[n - 1];
        lemma_contact_drained_total(
            enemies_drained(health, enemies, dt, contacts, n - 1),
            amount(enemy.damage_per_second, dt),
            enemy.id,
            contacts,
        );
    }
}

/// One tick of contact takes from the player's health the sum, over the
/// enemies reported in contact, of the damage rate times the time, and the
/// health stops at zero. Nothing else in the world changes.
pub proof fn lemma_contact_damage_is_the_sum(
    w: WorldView,
    player: Player,
    dt: u64,
    contacts: Seq<u64>,
)
    requires
        w.player == Some(player),
    ensures
        enemy_damage_player_done(w, dt, contacts) == (WorldView {
            player: Some(
                Player {
                    health: less(
                        player.health,
                        contact_damage(w.enemies, dt, contacts, w.enemies.len() as int),
                    ),
                    ..player
                },
            ),
            ..w
        }),
{
    lemma_enemies_drained_total(player.health, w.enemies, dt, contacts, w.enemies.len() as int);
}

/// The worth of the orbs in reach of `center` among the first `n`.
pub open spec fn value_in_reach(orbs: Seq<ExpOrb>, center: Vec2, n: int) -> nat
    decreases n,
{
    if n <= 0 || n > orbs.len() {
        0
    } else {
        value_in_reach(orbs, center, n - 1) + if in_reach(center, orbs[n - 1]) {
            orbs[n - 1].value as nat
        } else {
            0nat
        }
    }
}

/// The pickup credits the player with the sum of the worth of the orbs in
/// reach, and the experience stops at the top of its range.
pub proof fn lemma_pickup_credits_the_sum(exp: u64, orbs: Seq<ExpOrb>, center: Vec2, n: int)
    ensures
        exp_gained(exp, orbs, center, n) == cap_u64(exp + value_in_reach(orbs, center, n)),
    decreases n,
{
    if n > 0 && n <= orbs.len() {
        lemma_pickup_credits_the_sum(exp, orbs, center, n - 1);
    }
}

/// After the pickup the player's experience is what it was and the worth
/// of every orb that was in reach, stopping at the top of its range.
pub proof fn lemma_pickup_adds_up(w: WorldView, player: Player)
    requires
        w.player == Some(player),
    ensures
        player_gain_exp_done(w).player == Some(
            Player {
                exp: cap_u64(
                    player.exp + value_in_reach(w.orbs, player.position, w.orbs.len() as int),
                ) as u64,
                ..player
            },
        ),
{
    lemma_pickup_credits_the_sum(player.exp, w.orbs, player.position, w.orbs.len() as int);
}

/// A tick of the wave manager leaves the stopwatch at the sum of the
/// times, moves on the spawn timer of the wave that is active then, and
/// leaves every other wave, and every template and batch size, as it was.
pub proof fn lemma_wave_manager_tick(manager: WaveManagerView, dt: u64)
    requires
        manager.waves.len() > 0,
        manager.global_time.elapsed + dt <= u64::MAX,
    ensures
        ({
            let after = manager.ticked(dt);
            let time = (manager.global_time.elapsed + dt) as u64;
            let active = wave_index(time, manager.waves.len()) as int;
            &&& after.global_time.elapsed == time
            &&& current_wave(time) * WAVE_WINDOW <= time < (current_wave(time) + 1) * WAVE_WINDOW
            &&& after.waves.len() == manager.waves.len()
            &&& 0 <= active < manager.waves.len()
            &&& after.waves[active] == (Wave {
                next_spawn: manager.waves[active].next_spawn.ticked(dt),
                ..manager.waves[active]
            })
            &&& forall|j: int|
                0 <= j < manager.waves.len() && j != active ==> after.waves[j] == manager.waves[j]
        }),
{
    let time = (manager.global_time.elapsed + dt) as u64;
    lemma_wave_selection(time, manager.waves.len());
}

/// What is due comes from the active wave at the current difficulty: as
/// many enemies as the wave's size times the difficulty, rounded down, each
/// with the speed and the health of the wave's template times the
/// difficulty, rounded down, and with its damage as it is.
pub proof fn lemma_due_batch_follows_difficulty(manager: WaveManagerView)
    requires
        manager.waves.len() > 0,
    ensures
        ({
            let time = manager.global_time.elapsed;
            let wave = manager.waves[wave_index(time, manager.waves.len()) as int];
            let factor = difficulty(wave_cycles(time, manager.waves.len()));
            &&& manager.due().is_some() == wave.next_spawn.finished_this_tick
            &&& manager.due() matches Some(batch) ==> {
                &&& batch.size == cap_u32(scaled(wave.wave_size as u64, factor) as int)
                &&& batch.enemy.speed == cap_u32(scaled(wave.to_spawn.speed as u64, factor) as int)
                &&& batch.enemy.health == scaled(wave.to_spawn.health, factor)
                &&& batch.enemy.damage_per_second == wave.to_spawn.damage_per_second
                &&& batch.enemy.asset == wave.to_spawn.asset
            }
        }),
{
}

/// While identifiers are left for the whole batch, a batch brings as many
/// enemies as its size, each made from the batch's template.
pub proof fn lemma_batch_is_complete(
    w: WorldView,
    batch: Batch,
    center: Vec2,
    scatters: Seq<Scatter>,
    n: int,
)
    requires
        0 <= n,
        w.next_id + n <= u64::MAX,
    ensures
        ({
            let r = batch_spawned(w, batch, center, scatters, n);
            &&& r == (WorldView { enemies: r.enemies, next_id: (w.next_id + n) as u64, ..w })
            &&& r.enemies.len() == w.enemies.len() + n
            &&& forall|i: int| 0 <= i < w.enemies.len() ==> r.enemies[i] == w.enemies[i]
            &&& forall|i: int|
                0 <= i < n ==> #[trigger] r.enemies[w.enemies.len() + i] == new_enemy(
                    (w.next_id + i) as u64,
                    batch.enemy,
                    scattered(center, scatter_at(scatters, i), SPAWN_RING, SPAWN_SPREAD),
                )
        }),
    decreases n,
{
    if n > 0 {
        lemma_batch_is_complete(w, batch, center, scatters, n - 1);
    }
}

/// One full cycle through the waves later the same wave is active again,
/// one more cycle has gone by, and the difficulty is the growth times the
/// earlier one, rounded down.
pub proof fn lemma_next_cycle(elapsed: u64, count: nat)
    requires
        count > 0,
        elapsed + WAVE_WINDOW * count <= u64::MAX,
    ensures
        ({
            let later = (elapsed + WAVE_WINDOW * count) as u64;
            &&& current_wave(later) == current_wave(elapsed) + count
            &&& wave_index(later, count) == wave_index(elapsed, count)
            &&& wave_cycles(later, count) == wave_cycles(elapsed, count) + 1
            &&& difficulty(wave_cycles(later, count)) == ratio(
                difficulty(wave_cycles(elapsed, count)),
                GROWTH_NUM,
                GROWTH_DEN,
            )
        }),
{
    let window = WAVE_WINDOW as int;
    let k = count as int;
    let t = elapsed as int;
    let later = t + window * k;
    vstd::arithmetic::div_mod::lemma_fundamental_div_mod(t, window);
    vstd::arithmetic::div_mod::lemma_mod_bound(t, window);
    let c = t / window;
    assert(later == (c + k) * window + t % window) by (nonlinear_arith)
        requires
            t == window * c + t % window,
            later == t + window * k,
    ;
    vstd::arithmetic::div_mod::lemma_fundamental_div_mod_converse(later, window, c + k, t % window);
    vstd::arithmetic::div_mod::lemma_fundamental_div_mod(c, k);
    vstd::arithmetic::div_mod::lemma_mod_bound(c, k);
    assert(c + k == (c / k + 1) * k + c % k) by (nonlinear_arith)
        requires
            c == k * (c / k) + c % k,
    ;
    vstd::arithmetic::div_mod::lemma_fundamental_div_mod_converse(c + k, k, c / k + 1, c % k);
    vstd::arithmetic::div_mod::lemma_div_pos_is_pos(c, k);
}

/// Zones are dropped near the player: the place that a scatter in range
/// picks on the ring of the area shot lies between the nearest and the
/// farthest distance of a zone from the centre, as long as the centre is
/// not at the very edge of the plane.
pub proof fn lemma_zone_place_on_ring(center: Vec2, scatter: Scatter)
    requires
        scatter.in_range(),
        -2_000_000_000 <= center.x <= 2_000_000_000,
        -2_000_000_000 <= center.y <= 2_000_000_000,
    ensures
        AREA_SHOT_NEAREST * AREA_SHOT_NEAREST <= scattered(
            center,
            scatter,
            AREA_SHOT_RING,
            AREA_SHOT_SPREAD,
        ).distance_squared(center) <= AREA_SHOT_FARTHEST * AREA_SHOT_FARTHEST,
{
    let direction = if scatter.direction == (Vec2 { x: 0, y: 0 }) {
        Vec2 { x: 1_000_000, y: 0 }
    } else {
        scatter.direction
    };
    let dx = direction.x as int;
    let dy = direction.y as int;
    let ring = AREA_SHOT_RING as nat;
    let cx = toward(dx, dy, ring);
    let cy = toward(dy, dx, ring);
    lemma_toward_bound(dx, dy, ring);
    lemma_toward_bound(dy, dx, ring);
    lemma_step_length(dx, dy, ring);
    let jx = stretched(scatter.jitter.x, AREA_SHOT_SPREAD);
    let jy = stretched(scatter.jitter.y, AREA_SHOT_SPREAD);
    lemma_stretched_bound(scatter.jitter.x, AREA_SHOT_SPREAD);
    lemma_stretched_bound(scatter.jitter.y, AREA_SHOT_SPREAD);
    assert(jx * jx + jy * jy <= 2_121_321 * 2_121_321) by (nonlinear_arith)
        requires
            -1_500_000 <= jx <= 1_500_000,
            -1_500_000 <= jy <= 1_500_000,
    ;
    assert((2_121_321 + 4_878_677) * (2_121_321 + 4_878_677) == (7_000_000 - 2) * (7_000_000 - 2));
    lemma_offset_keeps_distance(cx, cy, jx, jy, 2_121_321, 4_878_677);
    lemma_offset_within_distance(cx, cy, jx, jy, 7_000_000, 2_121_321);
    let place = scattered(center, scatter, AREA_SHOT_RING, AREA_SHOT_SPREAD);
    assert(place.x - center.x == cx + jx);
    assert(place.y - center.y == cy + jy);
}

} // verus!
