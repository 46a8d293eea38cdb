use initiative_tracker::Intent;
use initiative_tracker::roster::Combatant;
use initiative_tracker::setup::InputField;
use initiative_tracker::setup::SetupMenuState;
use initiative_tracker::setup::SetupState;
use initiative_tracker::setup::handle_enter;
use initiative_tracker::setup::handle_input;
use initiative_tracker::setup::refresh_max_size;

fn fresh() -> SetupState {
    SetupState::init()
}

#[test]
fn init_starts_on_top_menu() {
    let st = fresh();
    assert!(st.combatants.is_empty());
    assert_eq!(st.menu, SetupMenuState::PopulateEntries);
    assert_eq!(st.selected, 0);
    assert_eq!(st.max_size, 3);
    assert_eq!(st.name_input, "");
    assert_eq!(st.initiative_input, "");
    assert_eq!(st.active_field, InputField::Name);
}

#[test]
fn up_stops_at_zero() {
    let mut st = fresh();
    handle_input(&mut st, Intent::Up);
    assert_eq!(st.selected, 0);
    st.selected = 2;
    handle_input(&mut st, Intent::Up);
    assert_eq!(st.selected, 1);
}

#[test]
fn down_stops_at_max_size() {
    let mut st = fresh();
    for _ in 0..5 {
        handle_input(&mut st, Intent::Down);
    }
    assert_eq!(st.selected, 3);
}

#[test]
fn refresh_bound_tracks_screen() {
    let mut st = fresh();
    st.combatants.push(Combatant { name: String::from("A"), initiative: 1 });
    st.menu = SetupMenuState::RemoveEntry;
    refresh_max_size(&mut st);
    assert_eq!(st.max_size, 1);
    st.menu = SetupMenuState::PopulateEntries;
    refresh_max_size(&mut st);
    assert_eq!(st.max_size, 3);
}

#[test]
fn enter_opens_each_screen() {
    let mut st = fresh();
    st.selected = 0;
    assert!(!handle_enter(&mut st));
    assert_eq!(st.menu, SetupMenuState::AddEntry);

    let mut st = fresh();
    st.selected = 1;
    assert!(!handle_enter(&mut st));
    assert_eq!(st.menu, SetupMenuState::RemoveEntry);

    let mut st = fresh();
    st.selected = 2;
    assert!(!handle_enter(&mut st));
    assert_eq!(st.menu, SetupMenuState::ViewOrder);

    let mut st = fresh();
    st.selected = 3;
    assert!(handle_enter(&mut st));
}

#[test]
fn cancel_leaves_submenu_and_exits_top_menu() {
    let mut st = fresh();
    st.menu = SetupMenuState::AddEntry;
    st.selected = 2;
    assert!(!handle_input(&mut st, Intent::Cancel));
    assert_eq!(st.menu, SetupMenuState::PopulateEntries);
    assert_eq!(st.selected, 0);
    assert!(handle_input(&mut st, Intent::Cancel));
}

#[test]
fn typing_fills_name_field() {
    let mut st = fresh();
    st.menu = SetupMenuState::AddEntry;
    for c in ['S', 'a', 'm'] {
        handle_input(&mut st, Intent::Character(c));
    }
    assert_eq!(st.name_input, "Sam");
    assert_eq!(st.initiative_input, "");
}

#[test]
fn initiative_field_filters_characters() {
    let mut st = fresh();
    st.menu = SetupMenuState::AddEntry;
    st.active_field = InputField::Initiative;
    handle_input(&mut st, Intent::Character('a'));
    assert_eq!(st.initiative_input, "");
    handle_input(&mut st, Intent::Character('-'));
    assert_eq!(st.initiative_input, "-");
    handle_input(&mut st, Intent::Character('-'));
    assert_eq!(st.initiative_input, "-");
    handle_input(&mut st, Intent::Character('7'));
    assert_eq!(st.initiative_input, "-7");
}

#[test]
fn characters_outside_form_are_ignored() {
    let mut st = fresh();
    handle_input(&mut st, Intent::Character('x'));
    assert_eq!(st.name_input, "");
    assert_eq!(st.initiative_input, "");
}

#[test]
fn next_field_toggles_only_in_form() {
    let mut st = fresh();
    handle_input(&mut st, Intent::NextField);
    assert_eq!(st.active_field, InputField::Name);
    st.menu = SetupMenuState::AddEntry;
    handle_input(&mut st, Intent::NextField);
    assert_eq!(st.active_field, InputField::Initiative);
    handle_input(&mut st, Intent::NextField);
    assert_eq!(st.active_field, InputField::Name);
}

#[test]
fn delete_char_pops_active_buffer() {
    let mut st = fresh();
    st.menu = SetupMenuState::AddEntry;
    for c in ['S', 'a', 'm'] {
        handle_input(&mut st, Intent::Character(c));
    }
    handle_input(&mut st, Intent::DeleteChar);
    assert_eq!(st.name_input, "Sa");
    handle_input(&mut st, Intent::DeleteChar);
    handle_input(&mut st, Intent::DeleteChar);
    handle_input(&mut st, Intent::DeleteChar);
    assert_eq!(st.name_input, "");
}

#[test]
fn confirm_adds_valid_entry() {
    let mut st = fresh();
    st.menu = SetupMenuState::AddEntry;
    for c in ['S', 'a', 'm'] {
        handle_input(&mut st, Intent::Character(c));
    }
    handle_input(&mut st, Intent::NextField);
    for c in ['1', '4'] {
        handle_input(&mut st, Intent::Character(c));
    }
    assert!(!handle_input(&mut st, Intent::Confirm));
    assert_eq!(st.menu, SetupMenuState::PopulateEntries);
    assert_eq!(st.combatants.len(), 1);
    assert_eq!(st.combatants[0].name, "Sam");
    assert_eq!(st.combatants[0].initiative, 14);
    assert_eq!(st.name_input, "");
    assert_eq!(st.initiative_input, "");
    assert_eq!(st.active_field, InputField::Name);
}

#[test]
fn confirm_with_empty_name_adds_nothing() {
    let mut st = fresh();
    st.menu = SetupMenuState::AddEntry;
    st.active_field = InputField::Initiative;
    handle_input(&mut st, Intent::Character('1'));
    handle_input(&mut st, Intent::Character('0'));
    assert_eq!(st.initiative_input, "10");
    assert!(!handle_input(&mut st, Intent::Confirm));
    assert!(st.combatants.is_empty());
    assert_eq!(st.menu, SetupMenuState::PopulateEntries);
}

#[test]
fn confirm_with_invalid_initiative_discards_silently() {
    let mut st = fresh();
    st.menu = SetupMenuState::AddEntry;
    handle_input(&mut st, Intent::Character('P'));
    assert!(!handle_input(&mut st, Intent::Confirm));
    assert!(st.combatants.is_empty());
    assert_eq!(st.menu, SetupMenuState::PopulateEntries);
    assert_eq!(st.name_input, "");
}

#[test]
fn remove_entry_removes_selected() {
    let mut st = fresh();
    st.combatants.push(Combatant { name: String::from("A"), initiative: 1 });
    st.combatants.push(Combatant { name: String::from("B"), initiative: 2 });
    st.menu = SetupMenuState::RemoveEntry;
    st.selected = 0;
    assert!(!handle_input(&mut st, Intent::Confirm));
    assert_eq!(st.combatants.len(), 1);
    assert_eq!(st.combatants[0].name, "B");
    assert_eq!(st.menu, SetupMenuState::PopulateEntries);
}

#[test]
fn remove_entry_out_of_bounds_is_noop() {
    let mut st = fresh();
    st.combatants.push(Combatant { name: String::from("A"), initiative: 1 });
    st.combatants.push(Combatant { name: String::from("B"), initiative: 2 });
    st.menu = SetupMenuState::RemoveEntry;
    st.selected = 2;
    assert!(!handle_input(&mut st, Intent::Confirm));
    assert_eq!(st.combatants.len(), 2);
    assert_eq!(st.menu, SetupMenuState::RemoveEntry);
    assert_eq!(st.selected, 2);
}

#[test]
fn view_order_sorts_descending_and_stable() {
    let mut st = fresh();
    st.combatants.push(Combatant { name: String::from("First10"), initiative: 10 });
    st.combatants.push(Combatant { name: String::from("Top"), initiative: 20 });
    st.combatants.push(Combatant { name: String::from("Second10"), initiative: 10 });
    st.combatants.push(Combatant { name: String::from("Low"), initiative: 5 });
    st.menu = SetupMenuState::ViewOrder;
    assert!(!handle_input(&mut st, Intent::Confirm));
    assert_eq!(st.menu, SetupMenuState::PopulateEntries);
    let names: Vec<&str> = st.combatants.iter().map(|c| c.name.as_str()).collect();
    assert_eq!(names, vec!["Top", "First10", "Second10", "Low"]);
}
