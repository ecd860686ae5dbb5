//! Simultaneous lane combat between two lineups, with a replayable event log.
//!
//! Units are never removed from a lineup: a unit whose health is zero or less
//! keeps its lane, keeps dealing its attack and keeps taking damage. After
//! `k` rounds the health of a unit that faces an opponent is therefore its
//! starting health minus `k` times the opponent's attack.

use crate::types::{BoardUnit, CombatUnitInfo, UnitView};
use vstd::prelude::*;

verus! {

/// Which side a unit belongs to.
#[derive(Debug, Clone, Copy, PartialEq, Eq, Structural)]
pub enum Side {
    Player,
    Enemy,
}

/// Reference to a unit inside an event: side, lane and name.
#[derive(Debug, Clone)]
pub struct CombatTarget {
    pub side: Side,
    pub index: usize,
    pub name: String,
}

/// Mathematical content of a [`CombatTarget`].
pub struct TargetView {
    pub side: Side,
    pub index: int,
    pub name: Seq<char>,
}

impl View for CombatTarget {
    type V = TargetView;

    open spec fn view(&self) -> TargetView {
        TargetView { side: self.side, index: self.index as int, name: self.name@ }
    }
}

/// One entry of the battle's event log.
#[derive(Debug, Clone)]
pub enum CombatEvent {
    BattleStart { player_units: Vec<CombatUnitInfo>, enemy_units: Vec<CombatUnitInfo> },
    UnitsClash { player: CombatTarget, enemy: CombatTarget },
    DamageDealt { target: CombatTarget, amount: i32, new_health: i32 },
    UnitDied { target: CombatTarget },
    UnitsSlide { side: Side },
    BattleEnd { result: String },
}

/// Mathematical content of a [`CombatEvent`].
pub enum EventView {
    BattleStart { player_units: Seq<UnitView>, enemy_units: Seq<UnitView> },
    UnitsClash { player: TargetView, enemy: TargetView },
    DamageDealt { target: TargetView, amount: int, new_health: int },
    UnitDied { target: TargetView },
    UnitsSlide { side: Side },
    BattleEnd { result: Seq<char> },
}

impl View for CombatEvent {
    type V = EventView;

    open spec fn view(&self) -> EventView {
        match *self {
            CombatEvent::BattleStart { player_units, enemy_units } => EventView::BattleStart {
                player_units: infos_view(player_units@),
                enemy_units: infos_view(enemy_units@),
            },
            CombatEvent::UnitsClash { player, enemy } => EventView::UnitsClash {
                player: player@,
                enemy: enemy@,
            },
            CombatEvent::DamageDealt { target, amount, new_health } => EventView::DamageDealt {
                target: target@,
                amount: amount as int,
                new_health: new_health as int,
            },
            CombatEvent::UnitDied { target } => EventView::UnitDied { target: target@ },
            CombatEvent::UnitsSlide { side } => EventView::UnitsSlide { side },
            CombatEvent::BattleEnd { result } => EventView::BattleEnd { result: result@ },
        }
    }
}

/// How a battle ended. `remaining` counts the winner's units with positive
/// health.
#[derive(Debug, Clone)]
pub enum BattleResult {
    Victory { remaining: usize },
    Defeat { remaining: usize },
    Draw,
}

/// Mathematical content of a [`BattleResult`].
pub enum ResultView {
    Victory { remaining: nat },
    Defeat { remaining: nat },
    Draw,
}

impl View for BattleResult {
    type V = ResultView;

    open spec fn view(&self) -> ResultView {
        match *self {
            BattleResult::Victory { remaining } => ResultView::Victory {
                remaining: remaining as nat,
            },
            BattleResult::Defeat { remaining } => ResultView::Defeat {
                remaining: remaining as nat,
            },
            BattleResult::Draw => ResultView::Draw,
        }
    }
}

/// A unit as the simulator holds it. Only `health` changes during a battle.
#[derive(Debug, Clone)]
pub struct CombatUnit {
    pub name: String,
    pub attack: i32,
    pub health: i32,
    pub max_health: i32,
}

impl View for CombatUnit {
    type V = UnitView;

    open spec fn view(&self) -> UnitView {
        UnitView {
            name: self.name@,
            attack: self.attack as int,
            health: self.health as int,
            max_health: self.max_health as int,
        }
    }
}

/// The lineup held by a vector of units.
pub open spec fn units_view(units: Seq<CombatUnit>) -> Seq<UnitView> {
    units.map_values(|u: CombatUnit| u@)
}

/// The lineup held by a vector of snapshots.
pub open spec fn infos_view(units: Seq<CombatUnitInfo>) -> Seq<UnitView> {
    units.map_values(|u: CombatUnitInfo| u@)
}

/// The log held by a vector of events.
pub open spec fn events_view(events: Seq<CombatEvent>) -> Seq<EventView> {
    events.map_values(|e: CombatEvent| e@)
}

/// Whether `x` is a value of `i32`.
pub open spec fn fits(x: int) -> bool {
    i32::MIN <= x <= i32::MAX
}

/// Health left after taking `attack` once in each of `rounds` rounds.
pub open spec fn health_after(health: int, attack: int, rounds: int) -> int {
    health - rounds * attack
}

/// Number of lanes in which both sides have a unit.
pub open spec fn lanes(player: Seq<UnitView>, enemy: Seq<UnitView>) -> int {
    if player.len() <= enemy.len() {
        player.len() as int
    } else {
        enemy.len() as int
    }
}

/// The lineup `own` after its units in the lanes below `upto` that face a
/// unit of `foe` were struck by it `rounds` times.
pub open spec fn struck(own: Seq<UnitView>, foe: Seq<UnitView>, rounds: int, upto: int) -> Seq<
    UnitView,
> {
    Seq::new(
        own.len(),
        |j: int|
            if j < upto && j < foe.len() {
                UnitView { health: health_after(own[j].health, foe[j].attack, rounds), ..own[j] }
            } else {
                own[j]
            },
    )
}

/// The lineup `own` after `rounds` full rounds against `foe`.
pub open spec fn damaged(own: Seq<UnitView>, foe: Seq<UnitView>, rounds: int) -> Seq<UnitView> {
    struck(own, foe, rounds, own.len() as int)
}

/// Number of units with positive health.
pub open spec fn alive_count(units: Seq<UnitView>) -> nat
    decreases units.len(),
{
    if units.len() == 0 {
        0
    } else {
        alive_count(units.drop_last()) + if units.last().health > 0 {
            1nat
        } else {
            0nat
        }
    }
}

/// The reference to the unit of `units` in lane `index`.
pub open spec fn target(side: Side, index: int, units: Seq<UnitView>) -> TargetView {
    TargetView { side, index, name: units[index].name }
}

/// The clash events of one round for the lanes below `upto`.
pub open spec fn clash_events(player: Seq<UnitView>, enemy: Seq<UnitView>, upto: int) -> Seq<
    EventView,
> {
    Seq::new(
        upto as nat,
        |i: int|
            EventView::UnitsClash {
                player: target(Side::Player, i, player),
                enemy: target(Side::Enemy, i, enemy),
            },
    )
}

/// The event of the player's unit in lane `i` striking the enemy's.
pub open spec fn enemy_struck(player: Seq<UnitView>, enemy: Seq<UnitView>, i: int) -> EventView {
    EventView::DamageDealt {
        target: target(Side::Enemy, i, enemy),
        amount: player[i].attack,
        new_health: health_after(enemy[i].health, player[i].attack, 1),
    }
}

/// The event of the enemy's unit in lane `i` striking the player's.
pub open spec fn player_struck(player: Seq<UnitView>, enemy: Seq<UnitView>, i: int) -> EventView {
    EventView::DamageDealt {
        target: target(Side::Player, i, player),
        amount: enemy[i].attack,
        new_health: health_after(player[i].health, enemy[i].attack, 1),
    }
}

/// The damage events of one round for the lanes below `upto`, from the
/// lineups as they stand when the round begins: for each lane the enemy's
/// unit is struck first, then the player's.
pub open spec fn damage_events(player: Seq<UnitView>, enemy: Seq<UnitView>, upto: int) -> Seq<
    EventView,
> {
    Seq::new(
        (2 * upto) as nat,
        |k: int|
            if k % 2 == 0 {
                enemy_struck(player, enemy, k / 2)
            } else {
                player_struck(player, enemy, k / 2)
            },
    )
}

/// The death events for the first `upto` units of one side, in lane order:
/// one for each unit whose health is zero or less.
pub open spec fn died_events(side: Side, units: Seq<UnitView>, upto: nat) -> Seq<EventView>
    decreases upto,
{
    if upto == 0 {
        Seq::empty()
    } else {
        let before = died_events(side, units, (upto - 1) as nat);
        if units[upto - 1].health <= 0 {
            before.push(EventView::UnitDied { target: target(side, upto - 1, units) })
        } else {
            before
        }
    }
}

/// The clash and damage events of the round that begins with these lineups.
pub open spec fn strike_events(player: Seq<UnitView>, enemy: Seq<UnitView>) -> Seq<EventView> {
    clash_events(player, enemy, lanes(player, enemy)) + damage_events(
        player,
        enemy,
        lanes(player, enemy),
    )
}

/// The death scan over these lineups: the player's units, then the enemy's.
pub open spec fn death_scan(player: Seq<UnitView>, enemy: Seq<UnitView>) -> Seq<EventView> {
    died_events(Side::Player, player, player.len()) + died_events(Side::Enemy, enemy, enemy.len())
}

/// All events of the round that begins with these lineups: every clash, then
/// every damage, then the death scan over the lineups as the round left them.
pub open spec fn round_events(player: Seq<UnitView>, enemy: Seq<UnitView>) -> Seq<EventView> {
    strike_events(player, enemy) + death_scan(damaged(player, enemy, 1), damaged(enemy, player, 1))
}

/// Whether one round from these lineups keeps every health within `i32`.
pub open spec fn round_fits(player: Seq<UnitView>, enemy: Seq<UnitView>) -> bool {
    forall|j: int|
        0 <= j < lanes(player, enemy) ==> fits(
            #[trigger] health_after(player[j].health, enemy[j].attack, 1),
        ) && fits(health_after(enemy[j].health, player[j].attack, 1))
}

/// Whether, after `rounds` rounds, some side has no unit with positive health.
pub open spec fn decided(player: Seq<UnitView>, enemy: Seq<UnitView>, rounds: int) -> bool {
    alive_count(damaged(player, enemy, rounds)) == 0 || alive_count(
        damaged(enemy, player, rounds),
    ) == 0
}

/// Whether the battle stops after exactly `rounds` rounds: that round is the
/// first, from round one on, after which the battle is decided.
pub open spec fn ends_after(player: Seq<UnitView>, enemy: Seq<UnitView>, rounds: int) -> bool {
    &&& rounds >= 1
    &&& decided(player, enemy, rounds)
    &&& forall|r: int| 1 <= r < rounds ==> !#[trigger] decided(player, enemy, r)
}

/// Whether the battle stops at all. A battle in which no health ever crosses
/// zero goes on for ever.
pub open spec fn battle_ends(player: Seq<UnitView>, enemy: Seq<UnitView>) -> bool {
    exists|rounds: int| ends_after(player, enemy, rounds)
}

/// The number of rounds fought by a battle that stops.
pub open spec fn battle_rounds(player: Seq<UnitView>, enemy: Seq<UnitView>) -> int {
    choose|rounds: int| ends_after(player, enemy, rounds)
}

/// Whether every round of the battle keeps every health within `i32`.
pub open spec fn battle_fits(player: Seq<UnitView>, enemy: Seq<UnitView>) -> bool {
    forall|r: int|
        0 <= r < battle_rounds(player, enemy) ==> #[trigger] round_fits(
            damaged(player, enemy, r),
            damaged(enemy, player, r),
        )
}

/// The result read off the lineups as the last round left them.
pub open spec fn outcome(player: Seq<UnitView>, enemy: Seq<UnitView>) -> ResultView {
    if alive_count(player) > 0 && alive_count(enemy) == 0 {
        ResultView::Victory { remaining: alive_count(player) }
    } else if alive_count(player) == 0 && alive_count(enemy) > 0 {
        ResultView::Defeat { remaining: alive_count(enemy) }
    } else {
        ResultView::Draw
    }
}

/// The lower-case tag under which a result is logged.
pub open spec fn result_tag(result: ResultView) -> Seq<char> {
    match result {
        ResultView::Victory { .. } => "victory"@,
        ResultView::Defeat { .. } => "defeat"@,
        ResultView::Draw => "draw"@,
    }
}

/// The events of the first `rounds` rounds of the battle between the two
/// starting lineups.
pub open spec fn rounds_log(player: Seq<UnitView>, enemy: Seq<UnitView>, rounds: nat) -> Seq<
    EventView,
>
    decreases rounds,
{
    if rounds == 0 {
        Seq::empty()
    } else {
        rounds_log(player, enemy, (rounds - 1) as nat) + round_events(
            damaged(player, enemy, rounds - 1),
            damaged(enemy, player, rounds - 1),
        )
    }
}

/// The player's lineup when the battle stops.
pub open spec fn final_player(player: Seq<UnitView>, enemy: Seq<UnitView>) -> Seq<UnitView> {
    damaged(player, enemy, battle_rounds(player, enemy))
}

/// The enemy's lineup when the battle stops.
pub open spec fn final_enemy(player: Seq<UnitView>, enemy: Seq<UnitView>) -> Seq<UnitView> {
    damaged(enemy, player, battle_rounds(player, enemy))
}

/// The result of the battle between the two starting lineups.
pub open spec fn battle_result(player: Seq<UnitView>, enemy: Seq<UnitView>) -> ResultView {
    outcome(final_player(player, enemy), final_enemy(player, enemy))
}

/// The whole log of the battle between the two starting lineups: the start
/// event with both lineups as given, the events of every round in order, and
/// the end event with the result's tag.
pub open spec fn battle_log(player: Seq<UnitView>, enemy: Seq<UnitView>) -> Seq<EventView> {
    seq![EventView::BattleStart { player_units: player, enemy_units: enemy }] + rounds_log(
        player,
        enemy,
        battle_rounds(player, enemy) as nat,
    ) + seq![EventView::BattleEnd { result: result_tag(battle_result(player, enemy)) }]
}

/// One more round after `rounds` rounds gives the lineup after `rounds + 1`.
pub proof fn lemma_one_more_round(own: Seq<UnitView>, foe: Seq<UnitView>, rounds: int)
    ensures
        damaged(damaged(own, foe, rounds), damaged(foe, own, rounds), 1) == damaged(
            own,
            foe,
            rounds + 1,
        ),
{
    let next = damaged(damaged(own, foe, rounds), damaged(foe, own, rounds), 1);
    let later = damaged(own, foe, rounds + 1);
    assert forall|j: int| 0 <= j < own.len() implies next[j] == later[j] by {
        if j < foe.len() {
            let a = foe[j].attack;
            assert((rounds + 1) * a == rounds * a + 1 * a) by (nonlinear_arith);
        }
    }
    assert(next =~= later);
}

impl CombatUnit {
    /// The combat unit for a unit on the board: its card's name and attack,
    /// its current health, and its card's health as the maximum.
    pub fn from_board_unit(unit: &BoardUnit) -> (combat: CombatUnit)
        ensures
            combat@ == (UnitView {
                name: unit.card.name@,
                attack: unit.card.stats.attack as int,
                health: unit.current_health as int,
                max_health: unit.card.stats.health as int,
            }),
    {
        CombatUnit {
            name: unit.card.name.clone(),
            attack: unit.card.stats.attack,
            health: unit.current_health,
            max_health: unit.card.stats.health,
        }
    }

    /// Whether the unit's health is positive.
    pub fn is_alive(&self) -> (alive: bool)
        ensures
            alive == (self@.health > 0),
    {
        self.health > 0
    }

    /// Subtracts `amount` from the unit's health; a negative amount heals.
    pub fn take_damage(&mut self, amount: i32)
        requires
            fits(old(self).health - amount),
        ensures
            final(self)@ == (UnitView { health: old(self)@.health - amount, ..old(self)@ }),
    {
        self.health -= amount;
    }
}

/// The battle simulator: both lineups and the log written so far.
pub struct BattleSimulator {
    player_units: Vec<CombatUnit>,
    enemy_units: Vec<CombatUnit>,
    events: Vec<CombatEvent>,
}

/// The snapshots of a lineup, in lane order.
fn snapshot(units: &Vec<CombatUnit>) -> (infos: Vec<CombatUnitInfo>)
    ensures
        infos_view(infos@) == units_view(units@),
{
    let mut infos: Vec<CombatUnitInfo> = Vec::new();
    let mut i: usize = 0;
    while i < units.len()
        invariant
            i <= units.len(),
            infos@.len() == i,
            forall|j: int| 0 <= j < i ==> (#[trigger] infos@[j])@ == units@[j]@,
        decreases units.len() - i,
    {
        let u = &units[i];
        infos.push(
            CombatUnitInfo {
                name: u.name.clone(),
                attack: u.attack,
                health: u.health,
                max_health: u.max_health,
            },
        );
        i += 1;
    }
    assert(infos_view(infos@) =~= units_view(units@));
    infos
}

/// Counts the units with positive health.
fn count_alive(units: &Vec<CombatUnit>) -> (n: usize)
    ensures
        n == alive_count(units_view(units@)),
{
    let mut n: usize = 0;
    let mut i: usize = 0;
    while i < units.len()
        invariant
            i <= units.len(),
            n <= i,
            n == alive_count(units_view(units@).take(i as int)),
        decreases units.len() - i,
    {
        proof {
            let next = units_view(units@).take(i + 1);
            assert(next.drop_last() =~= units_view(units@).take(i as int));
        }
        if units[i].is_alive() {
            n += 1;
        }
        i += 1;
    }
    assert(units_view(units@).take(i as int) =~= units_view(units@));
    n
}

/// Appends a death event for each of `units` whose health is zero or less.
fn scan_dead(units: &Vec<CombatUnit>, side: Side, events: &mut Vec<CombatEvent>)
    ensures
        events_view(final(events)@) == events_view(old(events)@) + died_events(
            side,
            units_view(units@),
            units@.len(),
        ),
{
    let ghost ev0 = events_view(events@);
    let ghost lineup = units_view(units@);
    let mut index: usize = 0;
    while index < units.len()
        invariant
            index <= units.len(),
            lineup == units_view(units@),
            events_view(events@) == ev0 + died_events(side, lineup, index as nat),
        decreases units.len() - index,
    {
        let ghost before = events_view(events@);
        if !units[index].is_alive() {
            let dead = CombatTarget { side, index, name: units[index].name.clone() };
            events.push(CombatEvent::UnitDied { target: dead });
            assert(events_view(events@) =~= before.push(
                EventView::UnitDied { target: target(side, index as int, lineup) },
            ));
        }
        index += 1;
        assert(events_view(events@) =~= ev0 + died_events(side, lineup, index as nat));
    }
    assert(ev0 + died_events(side, lineup, 0) =~= ev0);
}

/// A copy of a lineup.
fn copy_units(units: &Vec<CombatUnit>) -> (copy: Vec<CombatUnit>)
    ensures
        units_view(copy@) == units_view(units@),
{
    let mut copy: Vec<CombatUnit> = Vec::new();
    let mut i: usize = 0;
    while i < units.len()
        invariant
            i <= units.len(),
            copy@.len() == i,
            forall|j: int| 0 <= j < i ==> (#[trigger] copy@[j])@ == units@[j]@,
        decreases units.len() - i,
    {
        let u = &units[i];
        copy.push(
            CombatUnit {
                name: u.name.clone(),
                attack: u.attack,
                health: u.health,
                max_health: u.max_health,
            },
        );
        i += 1;
    }
    assert(units_view(copy@) =~= units_view(units@));
    copy
}

impl BattleSimulator {
    /// The player's lineup as it stands.
    pub closed spec fn player(&self) -> Seq<UnitView> {
        units_view(self.player_units@)
    }

    /// The enemy's lineup as it stands.
    pub closed spec fn enemy(&self) -> Seq<UnitView> {
        units_view(self.enemy_units@)
    }

    /// The log written so far.
    pub closed spec fn events(&self) -> Seq<EventView> {
        events_view(self.events@)
    }

    /// A simulator over the two lineups, with an empty log.
    pub fn new(player_units: Vec<CombatUnit>, enemy_units: Vec<CombatUnit>) -> (sim:
        BattleSimulator)
        ensures
            sim.player() == units_view(player_units@),
            sim.enemy() == units_view(enemy_units@),
            sim.events() == Seq::<EventView>::empty(),
    {
        let sim = BattleSimulator { player_units, enemy_units, events: Vec::new() };
        assert(sim.events() =~= Seq::<EventView>::empty());
        sim
    }

    /// One round of strikes: logs a clash for every lane that both sides
    /// occupy, then lane by lane strikes the enemy's unit with the player's
    /// attack and the player's unit with the enemy's, logging each.
    fn resolve_clash(&mut self)
        requires
            round_fits(old(self).player(), old(self).enemy()),
        ensures
            final(self).player() == damaged(old(self).player(), old(self).enemy(), 1),
            final(self).enemy() == damaged(old(self).enemy(), old(self).player(), 1),
            final(self).events() == old(self).events() + strike_events(
                old(self).player(),
                old(self).enemy(),
            ),
    {
        let ghost p0 = self.player();
        let ghost e0 = self.enemy();
        let ghost ev0 = self.events();
        let ghost n = lanes(p0, e0);
        let max_positions = if self.player_units.len() >= self.enemy_units.len() {
            self.player_units.len()
        } else {
            self.enemy_units.len()
        };

        let mut position: usize = 0;
        while position < max_positions
            invariant
                position <= max_positions,
                max_positions >= self.player_units.len(),
                max_positions >= self.enemy_units.len(),
                self.player_units.len() == p0.len(),
                self.enemy_units.len() == e0.len(),
                self.player() == p0,
                self.enemy() == e0,
                n == lanes(p0, e0),
                self.events() == ev0 + clash_events(
                    p0,
                    e0,
                    if position <= n {
                        position as int
                    } else {
                        n
                    },
                ),
            decreases max_positions - position,
        {
            let ghost before = self.events();
            if position < self.player_units.len() && position < self.enemy_units.len() {
                let player = CombatTarget {
                    side: Side::Player,
                    index: position,
                    name: self.player_units[position].name.clone(),
                };
                let enemy = CombatTarget {
                    side: Side::Enemy,
                    index: position,
                    name: self.enemy_units[position].name.clone(),
                };
                self.events.push(CombatEvent::UnitsClash { player, enemy });
                assert(self.events() =~= before.push(
                    EventView::UnitsClash {
                        player: target(Side::Player, position as int, p0),
                        enemy: target(Side::Enemy, position as int, e0),
                    },
                ));
                assert(self.events() =~= ev0 + clash_events(p0, e0, position + 1));
            }
            position += 1;
        }
        assert(self.events() == ev0 + clash_events(p0, e0, n));

        let ghost ev1 = self.events();
        let mut position: usize = 0;
        while position < max_positions
            invariant
                position <= max_positions,
                max_positions >= self.player_units.len(),
                max_positions >= self.enemy_units.len(),
                self.player_units.len() == p0.len(),
                self.enemy_units.len() == e0.len(),
                round_fits(p0, e0),
                self.player() == struck(p0, e0, 1, position as int),
                self.enemy() == struck(e0, p0, 1, position as int),
                n == lanes(p0, e0),
                self.events() == ev1 + damage_events(
                    p0,
                    e0,
                    if position <= n {
                        position as int
                    } else {
                        n
                    },
                ),
            decreases max_positions - position,
        {
            let ghost before = self.events();
            if position < self.player_units.len() && position < self.enemy_units.len() {
                let ghost i = position as int;
                assert(fits(health_after(p0[i].health, e0[i].attack, 1)));
                assert(fits(health_after(e0[i].health, p0[i].attack, 1)));

                let ghost foes = self.enemy_units@;
                let ghost own = self.player_units@;
                assert(self.player()[i] == p0[i]);
                assert(self.enemy()[i] == e0[i]);
                let damage = self.player_units[position].attack;
                self.enemy_units[position].take_damage(damage);
                assert(self.enemy_units@[i]@.health == health_after(
                    e0[i].health,
                    p0[i].attack,
                    1,
                ));
                let struck_enemy = CombatTarget {
                    side: Side::Enemy,
                    index: position,
                    name: self.enemy_units[position].name.clone(),
                };
                let new_health = self.enemy_units[position].health;
                self.events.push(
                    CombatEvent::DamageDealt { target: struck_enemy, amount: damage, new_health },
                );

                let damage = self.enemy_units[position].attack;
                self.player_units[position].take_damage(damage);
                assert(self.player_units@[i]@.health == health_after(
                    p0[i].health,
                    e0[i].attack,
                    1,
                ));
                let struck_player = CombatTarget {
                    side: Side::Player,
                    index: position,
                    name: self.player_units[position].name.clone(),
                };
                let new_health = self.player_units[position].health;
                self.events.push(
                    CombatEvent::DamageDealt { target: struck_player, amount: damage, new_health },
                );

                assert forall|j: int| 0 <= j < p0.len() implies self.player()[j] == struck(
                    p0,
                    e0,
                    1,
                    position + 1,
                )[j] by {
                    assert(units_view(own)[j] == struck(p0, e0, 1, position as int)[j]);
                }
                assert forall|j: int| 0 <= j < e0.len() implies self.enemy()[j] == struck(
                    e0,
                    p0,
                    1,
                    position + 1,
                )[j] by {
                    assert(units_view(foes)[j] == struck(e0, p0, 1, position as int)[j]);
                }
                assert(self.player() =~= struck(p0, e0, 1, position + 1));
                assert(self.enemy() =~= struck(e0, p0, 1, position + 1));
                assert(self.events() =~= before.push(enemy_struck(p0, e0, i)).push(
                    player_struck(p0, e0, i),
                ));
                assert(self.events() =~= ev1 + damage_events(p0, e0, position + 1));
            } else {
                assert(self.player() =~= struck(p0, e0, 1, position + 1));
                assert(self.enemy() =~= struck(e0, p0, 1, position + 1));
            }
            position += 1;
        }
        assert(self.player() =~= damaged(p0, e0, 1));
        assert(self.enemy() =~= damaged(e0, p0, 1));
        assert(self.events() =~= ev0 + strike_events(p0, e0));
    }

    /// The death scan: logs a death for every unit whose health is zero or
    /// less, the player's units first. No unit is changed or removed, and a
    /// unit that stays dead is logged again in every later round.
    fn check_dead_units(&mut self)
        ensures
            final(self).player() == old(self).player(),
            final(self).enemy() == old(self).enemy(),
            final(self).events() == old(self).events() + death_scan(
                old(self).player(),
                old(self).enemy(),
            ),
    {
        let ghost ev0 = self.events();
        scan_dead(&self.player_units, Side::Player, &mut self.events);
        scan_dead(&self.enemy_units, Side::Enemy, &mut self.events);
        assert(self.events() =~= ev0 + death_scan(self.player(), self.enemy()));
    }

    /// Whether one more round keeps every health within `i32`.
    fn next_round_fits(&self) -> (ok: bool)
        ensures
            ok == round_fits(self.player(), self.enemy()),
    {
        let shared = if self.player_units.len() <= self.enemy_units.len() {
            self.player_units.len()
        } else {
            self.enemy_units.len()
        };
        let mut j: usize = 0;
        while j < shared
            invariant
                j <= shared,
                shared == lanes(self.player(), self.enemy()),
                forall|i: int|
                    0 <= i < j ==> fits(
                        #[trigger] health_after(
                            self.player()[i].health,
                            self.enemy()[i].attack,
                            1,
                        ),
                    ) && fits(health_after(self.enemy()[i].health, self.player()[i].attack, 1)),
            decreases shared - j,
        {
            let p = &self.player_units[j];
            let e = &self.enemy_units[j];
            let player_left: i64 = p.health as i64 - e.attack as i64;
            let enemy_left: i64 = e.health as i64 - p.attack as i64;
            if player_left < i32::MIN as i64 || player_left > i32::MAX as i64 || enemy_left
                < i32::MIN as i64 || enemy_left > i32::MAX as i64 {
                proof {
                    let i = j as int;
                    assert(self.player()[i] == self.player_units@[i]@);
                    assert(self.enemy()[i] == self.enemy_units@[i]@);
                    assert(!fits(
                        health_after(self.player()[i].health, self.enemy()[i].attack, 1),
                    ) || !fits(health_after(self.enemy()[i].health, self.player()[i].attack, 1)));
                }
                return false;
            }
            proof {
                let i = j as int;
                assert(self.player()[i] == self.player_units@[i]@);
                assert(self.enemy()[i] == self.enemy_units@[i]@);
                assert(fits(health_after(self.player()[i].health, self.enemy()[i].attack, 1)));
                assert(fits(health_after(self.enemy()[i].health, self.player()[i].attack, 1)));
            }
            j += 1;
        }
        true
    }

    /// Runs the battle to its end. Returns the result, the log with the
    /// battle's events appended, and the player's lineup as the last round
    /// left it.
    ///
    /// The battle must be one that stops, and one in which no subtraction
    /// leaves the range of `i32`.
    pub fn simulate(self) -> (out: (BattleResult, Vec<CombatEvent>, Vec<CombatUnit>))
        requires
            battle_ends(self.player(), self.enemy()),
            battle_fits(self.player(), self.enemy()),
        ensures
            out.0@ == battle_result(self.player(), self.enemy()),
            events_view(out.1@) == self.events() + battle_log(self.player(), self.enemy()),
            units_view(out.2@) == final_player(self.player(), self.enemy()),
    {
        let mut sim = self;
        let ghost p0 = sim.player();
        let ghost e0 = sim.enemy();
        let ghost ev0 = sim.events();
        let ghost total = battle_rounds(p0, e0);
        let ghost start = EventView::BattleStart { player_units: p0, enemy_units: e0 };

        let player_units = snapshot(&sim.player_units);
        let enemy_units = snapshot(&sim.enemy_units);
        sim.events.push(CombatEvent::BattleStart { player_units, enemy_units });

        let ghost mut round: int = 0;
        let mut player_alive: usize = 0;
        let mut enemy_alive: usize = 0;
        let mut done = false;
        proof {
            assert(sim.events() =~= ev0 + seq![start] + rounds_log(p0, e0, 0));
            assert(damaged(p0, e0, 0) =~= p0);
            assert(damaged(e0, p0, 0) =~= e0);
        }
        while !done
            invariant
                ends_after(p0, e0, total),
                battle_fits(p0, e0),
                total == battle_rounds(p0, e0),
                0 <= round <= total,
                !done ==> round < total,
                done ==> round == total,
                sim.player() == damaged(p0, e0, round),
                sim.enemy() == damaged(e0, p0, round),
                sim.events() == ev0 + seq![start] + rounds_log(p0, e0, round as nat),
                done ==> player_alive == alive_count(sim.player()),
                done ==> enemy_alive == alive_count(sim.enemy()),
            decreases total - round,
        {
            let ghost before = sim.events();
            proof {
                assert(round_fits(damaged(p0, e0, round), damaged(e0, p0, round)));
                lemma_one_more_round(p0, e0, round);
                lemma_one_more_round(e0, p0, round);
            }
            sim.resolve_clash();
            sim.check_dead_units();
            player_alive = count_alive(&sim.player_units);
            enemy_alive = count_alive(&sim.enemy_units);
            proof {
                assert(sim.events() =~= before + round_events(
                    damaged(p0, e0, round),
                    damaged(e0, p0, round),
                ));
                round = round + 1;
                assert(sim.events() =~= ev0 + seq![start] + rounds_log(p0, e0, round as nat));
                assert(decided(p0, e0, round) <==> player_alive == 0 || enemy_alive == 0);
            }
            if player_alive == 0 || enemy_alive == 0 {
                done = true;
            }
        }

        let result = if player_alive > 0 && enemy_alive == 0 {
            BattleResult::Victory { remaining: player_alive }
        } else if player_alive == 0 && enemy_alive > 0 {
            BattleResult::Defeat { remaining: enemy_alive }
        } else {
            BattleResult::Draw
        };
        let tag = match &result {
            BattleResult::Victory { .. } => "victory".to_string(),
            BattleResult::Defeat { .. } => "defeat".to_string(),
            BattleResult::Draw => "draw".to_string(),
        };
        let ghost before = sim.events();
        sim.events.push(CombatEvent::BattleEnd { result: tag });
        proof {
            assert(sim.events() =~= before.push(
                EventView::BattleEnd { result: result_tag(result@) },
            ));
            assert(sim.events() =~= ev0 + battle_log(p0, e0));
        }
        (result, sim.events, sim.player_units)
    }

    /// Fights the battle on a copy, without keeping a log, for at most
    /// `max_rounds` rounds. Returns the number of rounds after which the
    /// battle stops, where it stops within `max_rounds` rounds and every
    /// health stays within `i32` until then: exactly the battles that
    /// [`BattleSimulator::simulate`] accepts and that are no longer than
    /// `max_rounds`.
    pub fn rounds_to_finish(&self, max_rounds: u32) -> (rounds: Option<u32>)
        ensures
            rounds is Some <==> battle_ends(self.player(), self.enemy()) && battle_rounds(
                self.player(),
                self.enemy(),
            ) <= max_rounds && battle_fits(self.player(), self.enemy()),
            rounds is Some ==> rounds->0 == battle_rounds(self.player(), self.enemy()),
    {
        let ghost p0 = self.player();
        let ghost e0 = self.enemy();
        let mut scratch = BattleSimulator {
            player_units: copy_units(&self.player_units),
            enemy_units: copy_units(&self.enemy_units),
            events: Vec::new(),
        };
        proof {
            assert(damaged(p0, e0, 0) =~= p0);
            assert(damaged(e0, p0, 0) =~= e0);
        }
        let mut round: u32 = 0;
        while round < max_rounds
            invariant
                round <= max_rounds,
                p0 == self.player(),
                e0 == self.enemy(),
                scratch.player() == damaged(p0, e0, round as int),
                scratch.enemy() == damaged(e0, p0, round as int),
                forall|r: int| 1 <= r <= round ==> !#[trigger] decided(p0, e0, r),
                forall|r: int|
                    0 <= r < round ==> #[trigger] round_fits(
                        damaged(p0, e0, r),
                        damaged(e0, p0, r),
                    ),
            decreases max_rounds - round,
        {
            if !scratch.next_round_fits() {
                proof {
                    if battle_ends(p0, e0) {
                        let total = battle_rounds(p0, e0);
                        assert(ends_after(p0, e0, total));
                        if total <= round {
                            assert(!decided(p0, e0, total));
                        }
                        assert(!round_fits(
                            damaged(p0, e0, round as int),
                            damaged(e0, p0, round as int),
                        ));
                    }
                }
                return None;
            }
            proof {
                lemma_one_more_round(p0, e0, round as int);
                lemma_one_more_round(e0, p0, round as int);
            }
            scratch.events.clear();
            scratch.resolve_clash();
            round += 1;
            let player_alive = count_alive(&scratch.player_units);
            let enemy_alive = count_alive(&scratch.enemy_units);
            if player_alive == 0 || enemy_alive == 0 {
                proof {
                    assert(ends_after(p0, e0, round as int));
                    let total = battle_rounds(p0, e0);
                    assert(ends_after(p0, e0, total));
                    if total < round {
                        assert(!decided(p0, e0, total));
                    }
                    if round < total {
                        assert(!decided(p0, e0, round as int));
                    }
                }
                return Some(round);
            }
        }
        proof {
            if battle_ends(p0, e0) {
                let total = battle_rounds(p0, e0);
                assert(ends_after(p0, e0, total));
                if total <= max_rounds {
                    assert(!decided(p0, e0, total));
                }
            }
        }
        None
    }
}

} // verus!
