//! Turn-order tracking for a turn-based tabletop encounter.
//!
//! The library holds the decision logic of the tracker: parsing roster
//! records, the interactive setup state machine, the stable initiative
//! sort, and the combat state machine that steps through rounds and
//! turns.  A thin shell around it does the terminal I/O.

pub mod combat;
pub mod loader;
pub mod orchestrator;
pub mod parse;
pub mod roster;
pub mod setup;

use vstd::prelude::*;

verus! {

/// The failure modes of the tracker: a bad argument count, an unreadable
/// roster source, a record with the wrong field count, a non-numeric
/// initiative field, and an empty roster at the start of combat.
#[derive(Clone, Copy, Debug, PartialEq, Eq, Structural)]
pub enum TrackerError {
    Usage,
    RosterSource,
    LineFormat,
    IntegerParse,
    EmptyRoster,
}

/// The closed set of abstract key intents that the state machines
/// consume.  Raw terminal events are translated into these at the
/// boundary; inside the library every handler matches on them
/// exhaustively.  In combat, `DeleteChar` is the backward-step intent.
#[derive(Clone, Copy, Debug, PartialEq, Eq, Structural)]
pub enum Intent {
    Up,
    Down,
    Confirm,
    Cancel,
    NextField,
    DeleteChar,
    Character(char),
}

} // verus!
