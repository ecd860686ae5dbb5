use battle_core::battle::{BattleResult, BattleSimulator, CombatEvent, CombatUnit, Side};
use battle_core::types::{BoardUnit, CardId, UnitCard, UnitStats};

fn unit(name: &str, attack: i32, health: i32) -> CombatUnit {
    CombatUnit { name: name.to_string(), attack, health, max_health: health }
}

fn log_lines(events: &[CombatEvent]) -> Vec<String> {
    events.iter().map(|e| format!("{:?}", e)).collect()
}

#[test]
fn mutual_kill_is_a_draw() {
    let sim = BattleSimulator::new(vec![unit("p", 3, 5)], vec![unit("e", 5, 3)]);
    let (result, events, player) = sim.simulate();
    assert!(matches!(result, BattleResult::Draw));
    let lines = log_lines(&events);
    let expected = vec![
        "BattleStart { player_units: [CombatUnitInfo { name: \"p\", attack: 3, health: 5, max_health: 5 }], enemy_units: [CombatUnitInfo { name: \"e\", attack: 5, health: 3, max_health: 3 }] }",
        "UnitsClash { player: CombatTarget { side: Player, index: 0, name: \"p\" }, enemy: CombatTarget { side: Enemy, index: 0, name: \"e\" } }",
        "DamageDealt { target: CombatTarget { side: Enemy, index: 0, name: \"e\" }, amount: 3, new_health: 0 }",
        "DamageDealt { target: CombatTarget { side: Player, index: 0, name: \"p\" }, amount: 5, new_health: 0 }",
        "UnitDied { target: CombatTarget { side: Player, index: 0, name: \"p\" } }",
        "UnitDied { target: CombatTarget { side: Enemy, index: 0, name: \"e\" } }",
        "BattleEnd { result: \"draw\" }",
    ];
    assert_eq!(lines, expected);
    assert_eq!(player.len(), 1);
    assert_eq!(player[0].health, 0);
    assert_eq!(player[0].attack, 3);
    assert_eq!(player[0].max_health, 5);
    assert_eq!(player[0].name, "p");
}

#[test]
fn strong_player_wins_in_one_round() {
    let sim = BattleSimulator::new(vec![unit("p", 5, 10)], vec![unit("e", 2, 3)]);
    let (result, events, player) = sim.simulate();
    assert!(matches!(result, BattleResult::Victory { remaining: 1 }));
    let lines = log_lines(&events);
    let expected = vec![
        "BattleStart { player_units: [CombatUnitInfo { name: \"p\", attack: 5, health: 10, max_health: 10 }], enemy_units: [CombatUnitInfo { name: \"e\", attack: 2, health: 3, max_health: 3 }] }",
        "UnitsClash { player: CombatTarget { side: Player, index: 0, name: \"p\" }, enemy: CombatTarget { side: Enemy, index: 0, name: \"e\" } }",
        "DamageDealt { target: CombatTarget { side: Enemy, index: 0, name: \"e\" }, amount: 5, new_health: -2 }",
        "DamageDealt { target: CombatTarget { side: Player, index: 0, name: \"p\" }, amount: 2, new_health: 8 }",
        "UnitDied { target: CombatTarget { side: Enemy, index: 0, name: \"e\" } }",
        "BattleEnd { result: \"victory\" }",
    ];
    assert_eq!(lines, expected);
    assert_eq!(player[0].health, 8);
}

#[test]
fn slow_victory_takes_two_rounds() {
    let sim = BattleSimulator::new(vec![unit("p", 2, 10)], vec![unit("e", 2, 3)]);
    let (result, events, player) = sim.simulate();
    assert!(matches!(result, BattleResult::Victory { remaining: 1 }));
    let lines = log_lines(&events);
    let expected = vec![
        "BattleStart { player_units: [CombatUnitInfo { name: \"p\", attack: 2, health: 10, max_health: 10 }], enemy_units: [CombatUnitInfo { name: \"e\", attack: 2, health: 3, max_health: 3 }] }",
        "UnitsClash { player: CombatTarget { side: Player, index: 0, name: \"p\" }, enemy: CombatTarget { side: Enemy, index: 0, name: \"e\" } }",
        "DamageDealt { target: CombatTarget { side: Enemy, index: 0, name: \"e\" }, amount: 2, new_health: 1 }",
        "DamageDealt { target: CombatTarget { side: Player, index: 0, name: \"p\" }, amount: 2, new_health: 8 }",
        "UnitsClash { player: CombatTarget { side: Player, index: 0, name: \"p\" }, enemy: CombatTarget { side: Enemy, index: 0, name: \"e\" } }",
        "DamageDealt { target: CombatTarget { side: Enemy, index: 0, name: \"e\" }, amount: 2, new_health: -1 }",
        "DamageDealt { target: CombatTarget { side: Player, index: 0, name: \"p\" }, amount: 2, new_health: 6 }",
        "UnitDied { target: CombatTarget { side: Enemy, index: 0, name: \"e\" } }",
        "BattleEnd { result: \"victory\" }",
    ];
    assert_eq!(lines, expected);
    assert_eq!(player[0].health, 6);
}

#[test]
fn defeat_counts_enemy_survivors() {
    let sim = BattleSimulator::new(
        vec![unit("p0", 1, 1)],
        vec![unit("e0", 4, 9), unit("e1", 0, 2), unit("e2", 7, 0)],
    );
    let (result, events, player) = sim.simulate();
    assert!(matches!(result, BattleResult::Defeat { remaining: 2 }));
    let lines = log_lines(&events);
    assert_eq!(lines.len(), 7);
    assert_eq!(
        lines[4],
        "UnitDied { target: CombatTarget { side: Player, index: 0, name: \"p0\" } }"
    );
    assert_eq!(
        lines[5],
        "UnitDied { target: CombatTarget { side: Enemy, index: 2, name: \"e2\" } }"
    );
    assert_eq!(lines[6], "BattleEnd { result: \"defeat\" }");
    assert_eq!(player[0].health, -3);
}

#[test]
fn dead_units_keep_fighting_and_are_reported_again() {
    let sim = BattleSimulator::new(
        vec![unit("a", 1, 1), unit("b", 1, 10)],
        vec![unit("x", 5, 3), unit("y", 1, 2)],
    );
    let (result, events, player) = sim.simulate();
    // Round 1: a dies. Round 2: y dies, a is reported again. Round 3: x dies.
    assert!(matches!(result, BattleResult::Victory { remaining: 1 }));
    assert_eq!(player[0].health, 1 - 3 * 5);
    assert_eq!(player[1].health, 10 - 3);
    let died_a = events
        .iter()
        .filter(|e| match e {
            CombatEvent::UnitDied { target } => target.side == Side::Player && target.index == 0,
            _ => false,
        })
        .count();
    assert_eq!(died_a, 3);
    let clashes = events.iter().filter(|e| matches!(e, CombatEvent::UnitsClash { .. })).count();
    let damages = events.iter().filter(|e| matches!(e, CombatEvent::DamageDealt { .. })).count();
    assert_eq!(clashes, 6);
    assert_eq!(damages, 12);
}

#[test]
fn log_has_one_start_and_one_end() {
    let sim = BattleSimulator::new(
        vec![unit("a", 2, 4), unit("b", 3, 5), unit("c", 1, 1)],
        vec![unit("x", 1, 6), unit("y", 2, 6)],
    );
    let (_, events, _) = sim.simulate();
    assert!(matches!(events.first(), Some(CombatEvent::BattleStart { .. })));
    assert!(matches!(events.last(), Some(CombatEvent::BattleEnd { .. })));
    let starts = events.iter().filter(|e| matches!(e, CombatEvent::BattleStart { .. })).count();
    let ends = events.iter().filter(|e| matches!(e, CombatEvent::BattleEnd { .. })).count();
    assert_eq!(starts, 1);
    assert_eq!(ends, 1);
    // Within the first round: two clashes, then four damage events.
    assert!(matches!(events[1], CombatEvent::UnitsClash { .. }));
    assert!(matches!(events[2], CombatEvent::UnitsClash { .. }));
    for k in 3..7 {
        assert!(matches!(events[k], CombatEvent::DamageDealt { .. }));
    }
    assert!(!events.iter().any(|e| matches!(e, CombatEvent::UnitsSlide { .. })));
}

#[test]
fn empty_enemy_lineup_is_a_victory_after_one_round() {
    let sim = BattleSimulator::new(vec![unit("a", 0, 4), unit("b", 0, 0)], vec![]);
    let (result, events, player) = sim.simulate();
    assert!(matches!(result, BattleResult::Victory { remaining: 1 }));
    let lines = log_lines(&events);
    assert_eq!(lines.len(), 3);
    assert_eq!(
        lines[1],
        "UnitDied { target: CombatTarget { side: Player, index: 1, name: \"b\" } }"
    );
    assert_eq!(player.len(), 2);
    assert_eq!(player[0].health, 4);
}

#[test]
fn both_lineups_empty_is_a_draw() {
    let sim = BattleSimulator::new(vec![], vec![]);
    let (result, events, player) = sim.simulate();
    assert!(matches!(result, BattleResult::Draw));
    assert_eq!(events.len(), 2);
    assert!(player.is_empty());
}

#[test]
fn negative_attack_heals() {
    let sim = BattleSimulator::new(vec![unit("p", -2, 3)], vec![unit("e", 3, 1)]);
    let (result, _, player) = sim.simulate();
    assert!(matches!(result, BattleResult::Defeat { remaining: 1 }));
    assert_eq!(player[0].health, 0);
}

#[test]
fn combat_unit_from_board_unit() {
    let board = BoardUnit {
        card: UnitCard {
            id: CardId(4),
            name: "Golem".to_string(),
            stats: UnitStats { attack: 6, health: 9 },
        },
        current_health: 5,
    };
    let u = CombatUnit::from_board_unit(&board);
    assert_eq!(u.name, "Golem");
    assert_eq!(u.attack, 6);
    assert_eq!(u.health, 5);
    assert_eq!(u.max_health, 9);
}

#[test]
fn alive_and_damage() {
    let mut u = unit("u", 1, 4);
    assert!(u.is_alive());
    u.take_damage(3);
    assert_eq!(u.health, 1);
    assert!(u.is_alive());
    u.take_damage(1);
    assert_eq!(u.health, 0);
    assert!(!u.is_alive());
    u.take_damage(-5);
    assert_eq!(u.health, 5);
    assert_eq!(u.attack, 1);
    assert_eq!(u.max_health, 4);
}

#[test]
fn rounds_to_finish_counts_rounds() {
    let sim = BattleSimulator::new(vec![unit("p", 3, 5)], vec![unit("e", 5, 3)]);
    assert_eq!(sim.rounds_to_finish(10), Some(1));
    let sim = BattleSimulator::new(vec![unit("p", 2, 10)], vec![unit("e", 2, 3)]);
    assert_eq!(sim.rounds_to_finish(10), Some(2));
    assert_eq!(sim.rounds_to_finish(2), Some(2));
    assert_eq!(sim.rounds_to_finish(1), None);
    assert_eq!(sim.rounds_to_finish(0), None);
    // The simulator is left as it was.
    let (result, events, player) = sim.simulate();
    assert!(matches!(result, BattleResult::Victory { remaining: 1 }));
    assert_eq!(events.len(), 9);
    assert_eq!(player[0].health, 6);
}

#[test]
fn rounds_to_finish_sees_a_stalemate() {
    let sim = BattleSimulator::new(vec![unit("p", 0, 5)], vec![unit("e", 0, 3)]);
    assert_eq!(sim.rounds_to_finish(1000), None);
    // A unit that faces nobody is never hurt, whatever the others do.
    let sim = BattleSimulator::new(
        vec![unit("a", 1, 5), unit("b", 0, 5)],
        vec![unit("x", 0, 5), unit("y", 0, 5)],
    );
    assert_eq!(sim.rounds_to_finish(1000), None);
}

#[test]
fn rounds_to_finish_sees_an_overflow() {
    let sim = BattleSimulator::new(
        vec![unit("p", 0, i32::MIN + 1), unit("q", 0, 1)],
        vec![unit("e", 2, 1), unit("f", 0, 1)],
    );
    assert_eq!(sim.rounds_to_finish(1000), None);
    let sim = BattleSimulator::new(vec![unit("p", 1, i32::MIN + 2)], vec![unit("e", 2, 1)]);
    assert_eq!(sim.rounds_to_finish(1000), Some(1));
}
