use initiative_tracker::Intent;
use initiative_tracker::combat::CombatState;
use initiative_tracker::combat::handle_combat_input;
use initiative_tracker::roster::Combatant;

fn three_combatants() -> Vec<Combatant> {
    vec![
        Combatant { name: String::from("Legolas"), initiative: 18 },
        Combatant { name: String::from("Aragorn"), initiative: 15 },
        Combatant { name: String::from("Gimli"), initiative: 12 },
    ]
}

#[test]
fn three_confirms_advance_one_round() {
    let mut st = CombatState { combatants: three_combatants(), current_turn: 0, round: 0 };
    let exit = handle_combat_input(&mut st, Intent::Confirm);
    assert!(!exit);
    assert_eq!((st.current_turn, st.round), (1, 0));
    handle_combat_input(&mut st, Intent::Confirm);
    assert_eq!((st.current_turn, st.round), (2, 0));
    handle_combat_input(&mut st, Intent::Confirm);
    assert_eq!((st.current_turn, st.round), (0, 1));
}

#[test]
fn single_combatant_wraps_every_confirm() {
    let mut st = CombatState {
        combatants: vec![Combatant { name: String::from("Solo"), initiative: 1 }],
        current_turn: 0,
        round: 0,
    };
    handle_combat_input(&mut st, Intent::Confirm);
    assert_eq!((st.current_turn, st.round), (0, 1));
    handle_combat_input(&mut st, Intent::Confirm);
    assert_eq!((st.current_turn, st.round), (0, 2));
}

#[test]
fn backward_at_turn_zero_goes_negative() {
    let mut st = CombatState { combatants: three_combatants(), current_turn: 0, round: 0 };
    let exit = handle_combat_input(&mut st, Intent::DeleteChar);
    assert!(!exit);
    assert_eq!((st.current_turn, st.round), (2, -1));
}

#[test]
fn backward_mid_round_steps_turn_only() {
    let mut st = CombatState { combatants: three_combatants(), current_turn: 2, round: 4 };
    handle_combat_input(&mut st, Intent::DeleteChar);
    assert_eq!((st.current_turn, st.round), (1, 4));
}

#[test]
fn backward_undoes_confirm() {
    for start in 0..3 {
        let mut st = CombatState { combatants: three_combatants(), current_turn: start, round: 7 };
        handle_combat_input(&mut st, Intent::Confirm);
        handle_combat_input(&mut st, Intent::DeleteChar);
        assert_eq!((st.current_turn, st.round), (start, 7));
    }
}

#[test]
fn confirm_undoes_backward() {
    for start in 0..3 {
        let mut st = CombatState { combatants: three_combatants(), current_turn: start, round: 7 };
        handle_combat_input(&mut st, Intent::DeleteChar);
        handle_combat_input(&mut st, Intent::Confirm);
        assert_eq!((st.current_turn, st.round), (start, 7));
    }
}

#[test]
fn cancel_exits_without_mutation() {
    let mut st = CombatState { combatants: three_combatants(), current_turn: 1, round: 2 };
    let exit = handle_combat_input(&mut st, Intent::Cancel);
    assert!(exit);
    assert_eq!((st.current_turn, st.round), (1, 2));
}

#[test]
fn other_intents_are_noops() {
    let mut st = CombatState { combatants: three_combatants(), current_turn: 1, round: 2 };
    for intent in [Intent::Up, Intent::Down, Intent::NextField, Intent::Character('x')] {
        let exit = handle_combat_input(&mut st, intent);
        assert!(!exit);
        assert_eq!((st.current_turn, st.round), (1, 2));
    }
    assert_eq!(st.combatants.len(), 3);
}
