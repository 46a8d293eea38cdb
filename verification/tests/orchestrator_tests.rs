use initiative_tracker::TrackerError;
use initiative_tracker::orchestrator::parse_args;
use initiative_tracker::orchestrator::prepare_combat;
use initiative_tracker::roster::Combatant;

#[test]
fn no_positional_argument_selects_setup() {
    let args = vec![String::from("tracker")];
    let a = parse_args(&args).unwrap();
    assert_eq!(a.filename, None);
}

#[test]
fn one_positional_argument_names_the_source() {
    let args = vec![String::from("tracker"), String::from("roster.txt")];
    let a = parse_args(&args).unwrap();
    assert_eq!(a.filename, Some(String::from("roster.txt")));
}

#[test]
fn two_positional_arguments_are_a_usage_error() {
    let args = vec![String::from("tracker"), String::from("a"), String::from("b")];
    assert_eq!(parse_args(&args).unwrap_err(), TrackerError::Usage);
}

#[test]
fn empty_roster_is_rejected() {
    let ros: Vec<Combatant> = Vec::new();
    assert_eq!(prepare_combat(ros).unwrap_err(), TrackerError::EmptyRoster);
}

#[test]
fn prepare_combat_sorts_and_starts_at_top() {
    let ros = vec![
        Combatant { name: String::from("EarlyTie"), initiative: 3 },
        Combatant { name: String::from("High"), initiative: 9 },
        Combatant { name: String::from("LateTie"), initiative: 3 },
    ];
    let combat = prepare_combat(ros).unwrap();
    let names: Vec<&str> = combat.combatants.iter().map(|c| c.name.as_str()).collect();
    assert_eq!(names, vec!["High", "EarlyTie", "LateTie"]);
    assert_eq!(combat.current_turn, 0);
    assert_eq!(combat.round, 0);
}
