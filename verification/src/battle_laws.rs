//! What holds of every battle: the shape of the log, the reading of the
//! result, and when a battle stops.

use crate::battle::{
    alive_count, battle_ends, battle_log, battle_result, battle_rounds, clash_events,
    damage_events, damaged, death_scan, decided, died_events, ends_after, final_enemy,
    final_player, lanes, round_events, rounds_log, strike_events, EventView, ResultView, Side,
};
use crate::types::UnitView;
use vstd::prelude::*;

verus! {

/// Whether an event is one of the three kinds that a round writes.
pub open spec fn is_round_event(event: EventView) -> bool {
    event is UnitsClash || event is DamageDealt || event is UnitDied
}

/// The largest health in a lineup, and zero where none is positive.
pub open spec fn max_health(units: Seq<UnitView>) -> int
    decreases units.len(),
{
    if units.len() == 0 {
        0
    } else if units.last().health > max_health(units.drop_last()) {
        units.last().health
    } else {
        max_health(units.drop_last())
    }
}

/// A death scan over the first `upto` units of a side writes death events
/// only, and at most one for each unit.
pub proof fn lemma_died_events_kind(side: Side, units: Seq<UnitView>, upto: nat)
    ensures
        died_events(side, units, upto).len() <= upto,
        forall|i: int|
            0 <= i < died_events(side, units, upto).len() ==> died_events(
                side,
                units,
                upto,
            )[i] is UnitDied,
    decreases upto,
{
    if upto > 0 {
        lemma_died_events_kind(side, units, (upto - 1) as nat);
    }
}

/// Within a round the events come in three blocks: with `n` the number of
/// lanes that both sides occupy, the first `n` events are the clashes, the
/// next `2 * n` are the damage events, and all that follow are the deaths
/// found by the scan.
pub proof fn lemma_round_order(player: Seq<UnitView>, enemy: Seq<UnitView>)
    ensures
        round_events(player, enemy).len() >= 3 * lanes(player, enemy),
        forall|i: int|
            0 <= i < lanes(player, enemy) ==> round_events(player, enemy)[i] is UnitsClash,
        forall|i: int|
            lanes(player, enemy) <= i < 3 * lanes(player, enemy) ==> round_events(
                player,
                enemy,
            )[i] is DamageDealt,
        forall|i: int|
            3 * lanes(player, enemy) <= i < round_events(player, enemy).len() ==> round_events(
                player,
                enemy,
            )[i] is UnitDied,
{
    let n = lanes(player, enemy);
    let player_after = damaged(player, enemy, 1);
    let enemy_after = damaged(enemy, player, 1);
    let strikes = strike_events(player, enemy);
    let scan = death_scan(player_after, enemy_after);
    lemma_died_events_kind(Side::Player, player_after, player_after.len());
    lemma_died_events_kind(Side::Enemy, enemy_after, enemy_after.len());
    assert(strikes.len() == 3 * n);
    assert forall|i: int| 0 <= i < n implies round_events(player, enemy)[i] is UnitsClash by {
        assert(round_events(player, enemy)[i] == clash_events(player, enemy, n)[i]);
    }
    assert forall|i: int| n <= i < 3 * n implies round_events(
        player,
        enemy,
    )[i] is DamageDealt by {
        assert(round_events(player, enemy)[i] == damage_events(player, enemy, n)[i - n]);
    }
    assert forall|i: int| 3 * n <= i < round_events(player, enemy).len() implies round_events(
        player,
        enemy,
    )[i] is UnitDied by {
        assert(round_events(player, enemy)[i] == scan[i - 3 * n]);
    }
}

/// The rounds of a battle write clashes, damage and deaths, and nothing else.
pub proof fn lemma_rounds_log_kinds(player: Seq<UnitView>, enemy: Seq<UnitView>, rounds: nat)
    ensures
        forall|i: int|
            0 <= i < rounds_log(player, enemy, rounds).len() ==> is_round_event(
                rounds_log(player, enemy, rounds)[i],
            ),
    decreases rounds,
{
    if rounds > 0 {
        let earlier = rounds_log(player, enemy, (rounds - 1) as nat);
        let last = round_events(
            damaged(player, enemy, rounds - 1),
            damaged(enemy, player, rounds - 1),
        );
        lemma_rounds_log_kinds(player, enemy, (rounds - 1) as nat);
        lemma_round_order(damaged(player, enemy, rounds - 1), damaged(enemy, player, rounds - 1));
        let log = rounds_log(player, enemy, rounds);
        assert forall|i: int| 0 <= i < log.len() implies is_round_event(log[i]) by {
            if i < earlier.len() {
                assert(log[i] == earlier[i]);
            } else {
                let k = i - earlier.len();
                assert(log[i] == last[k]);
                assert(is_round_event(last[k]));
            }
        }
    }
}

/// The log of a battle starts with its one start event and ends with its one
/// end event: every event between the two is a clash, a damage or a death.
pub proof fn lemma_log_shape(player: Seq<UnitView>, enemy: Seq<UnitView>)
    ensures
        battle_log(player, enemy).len() >= 2,
        battle_log(player, enemy).first() == (EventView::BattleStart {
            player_units: player,
            enemy_units: enemy,
        }),
        battle_log(player, enemy).last() is BattleEnd,
        forall|i: int|
            0 < i < battle_log(player, enemy).len() - 1 ==> is_round_event(
                battle_log(player, enemy)[i],
            ),
{
    let rounds = battle_rounds(player, enemy) as nat;
    let middle = rounds_log(player, enemy, rounds);
    lemma_rounds_log_kinds(player, enemy, rounds);
    assert forall|i: int| 0 < i < battle_log(player, enemy).len() - 1 implies is_round_event(
        battle_log(player, enemy)[i],
    ) by {
        assert(battle_log(player, enemy)[i] == middle[i - 1]);
    }
}

/// When a battle stops, the result is read off the survivors: a victory when
/// only the player has units with positive health left, a defeat when only
/// the enemy has, a draw when neither has; and the count that a victory or a
/// defeat carries is the number of the winner's units with positive health.
pub proof fn lemma_result_counts_survivors(player: Seq<UnitView>, enemy: Seq<UnitView>)
    requires
        battle_ends(player, enemy),
    ensures
        match battle_result(player, enemy) {
            ResultView::Victory { remaining } => remaining > 0 && remaining == alive_count(
                final_player(player, enemy),
            ) && alive_count(final_enemy(player, enemy)) == 0,
            ResultView::Defeat { remaining } => remaining > 0 && remaining == alive_count(
                final_enemy(player, enemy),
            ) && alive_count(final_player(player, enemy)) == 0,
            ResultView::Draw => alive_count(final_player(player, enemy)) == 0 && alive_count(
                final_enemy(player, enemy),
            ) == 0,
        },
{
    assert(ends_after(player, enemy, battle_rounds(player, enemy)));
}

/// A battle stops after one round count only.
pub proof fn lemma_rounds_unique(player: Seq<UnitView>, enemy: Seq<UnitView>, rounds: int)
    requires
        ends_after(player, enemy, rounds),
    ensures
        battle_ends(player, enemy),
        battle_rounds(player, enemy) == rounds,
{
    let chosen = battle_rounds(player, enemy);
    assert(ends_after(player, enemy, chosen));
    if chosen < rounds {
        assert(!decided(player, enemy, chosen));
    }
    if rounds < chosen {
        assert(!decided(player, enemy, rounds));
    }
}

/// A battle that is decided after some round stops.
pub proof fn lemma_decided_battle_ends(player: Seq<UnitView>, enemy: Seq<UnitView>, rounds: int)
    requires
        rounds >= 1,
        decided(player, enemy, rounds),
    ensures
        battle_ends(player, enemy),
        battle_rounds(player, enemy) <= rounds,
    decreases rounds,
{
    if exists|r: int| 1 <= r < rounds && decided(player, enemy, r) {
        let r = choose|r: int| 1 <= r < rounds && decided(player, enemy, r);
        lemma_decided_battle_ends(player, enemy, r);
    } else {
        lemma_rounds_unique(player, enemy, rounds);
    }
}

/// A lineup in which no health is positive has no unit alive.
pub proof fn lemma_none_alive(units: Seq<UnitView>)
    requires
        forall|j: int| 0 <= j < units.len() ==> units[j].health <= 0,
    ensures
        alive_count(units) == 0,
    decreases units.len(),
{
    if units.len() > 0 {
        lemma_none_alive(units.drop_last());
    }
}

/// The largest health of a lineup is never negative.
pub proof fn lemma_max_health_nonnegative(units: Seq<UnitView>)
    ensures
        max_health(units) >= 0,
    decreases units.len(),
{
    if units.len() > 0 {
        lemma_max_health_nonnegative(units.drop_last());
    }
}

/// No health in a lineup is above the lineup's largest.
pub proof fn lemma_max_health_bounds(units: Seq<UnitView>, j: int)
    requires
        0 <= j < units.len(),
    ensures
        units[j].health <= max_health(units),
    decreases units.len(),
{
    if j < units.len() - 1 {
        lemma_max_health_bounds(units.drop_last(), j);
    }
}

/// Where every unit of one side faces a unit with positive attack, the
/// battle stops: after one round more than the side's largest health, none
/// of its units is alive.
pub proof fn lemma_positive_attack_ends_battle(attackers: Seq<UnitView>, defenders: Seq<UnitView>)
    requires
        defenders.len() <= attackers.len(),
        forall|j: int| 0 <= j < defenders.len() ==> attackers[j].attack > 0,
    ensures
        battle_ends(attackers, defenders),
        battle_ends(defenders, attackers),
        battle_rounds(attackers, defenders) <= max_health(defenders) + 1,
        battle_rounds(defenders, attackers) <= max_health(defenders) + 1,
{
    let rounds = max_health(defenders) + 1;
    let fallen = damaged(defenders, attackers, rounds);
    lemma_max_health_nonnegative(defenders);
    assert forall|j: int| 0 <= j < fallen.len() implies fallen[j].health <= 0 by {
        lemma_max_health_bounds(defenders, j);
        let a = attackers[j].attack;
        assert(rounds * a >= rounds) by (nonlinear_arith)
            requires
                a >= 1,
                rounds >= 1,
        ;
    }
    lemma_none_alive(fallen);
    lemma_decided_battle_ends(attackers, defenders, rounds);
    lemma_decided_battle_ends(defenders, attackers, rounds);
}

/// Where no unit that faces another has any attack, and both sides start
/// with a unit alive, no health ever changes and the battle never stops.
pub proof fn lemma_no_attack_never_ends(player: Seq<UnitView>, enemy: Seq<UnitView>)
    requires
        forall|j: int| 0 <= j < lanes(player, enemy) ==> player[j].attack == 0,
        forall|j: int| 0 <= j < lanes(player, enemy) ==> enemy[j].attack == 0,
        alive_count(player) > 0,
        alive_count(enemy) > 0,
    ensures
        !battle_ends(player, enemy),
{
    assert forall|rounds: int| !ends_after(player, enemy, rounds) by {
        assert forall|j: int| 0 <= j < lanes(player, enemy) implies rounds * player[j].attack
            == 0 && rounds * enemy[j].attack == 0 by {
            assert(rounds * 0 == 0) by (nonlinear_arith);
        }
        assert(damaged(player, enemy, rounds) =~= player);
        assert(damaged(enemy, player, rounds) =~= enemy);
    }
}

/// A lineup with a unit of positive health has a unit alive.
pub proof fn lemma_some_alive(units: Seq<UnitView>, i: int)
    requires
        0 <= i < units.len(),
        units[i].health > 0,
    ensures
        alive_count(units) > 0,
    decreases units.len(),
{
    if i < units.len() - 1 {
        lemma_some_alive(units.drop_last(), i);
    }
}

/// Where each side has a unit with positive health that nothing can hurt,
/// because no unit faces it or the one that does has no positive attack, the
/// battle never stops, whatever the other units do.
pub proof fn lemma_safe_units_never_end(
    player: Seq<UnitView>,
    enemy: Seq<UnitView>,
    i: int,
    j: int,
)
    requires
        0 <= i < player.len(),
        player[i].health > 0,
        i >= enemy.len() || enemy[i].attack <= 0,
        0 <= j < enemy.len(),
        enemy[j].health > 0,
        j >= player.len() || player[j].attack <= 0,
    ensures
        !battle_ends(player, enemy),
{
    assert forall|rounds: int| !ends_after(player, enemy, rounds) by {
        if rounds >= 1 {
            if i < enemy.len() {
                let a = enemy[i].attack;
                assert(rounds * a <= 0) by (nonlinear_arith)
                    requires
                        rounds >= 1,
                        a <= 0,
                ;
            }
            if j < player.len() {
                let a = player[j].attack;
                assert(rounds * a <= 0) by (nonlinear_arith)
                    requires
                        rounds >= 1,
                        a <= 0,
                ;
            }
            lemma_some_alive(damaged(player, enemy, rounds), i);
            lemma_some_alive(damaged(enemy, player, rounds), j);
        }
    }
}

} // verus!
