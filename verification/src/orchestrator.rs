//! Orchestration decisions: command-line validation and the hand-off
//! from an assembled roster into combat.

use vstd::prelude::*;
use crate::TrackerError;
use crate::combat::CombatState;
use crate::roster::Combatant;
use crate::roster::lemma_sort_desc_sorted;
use crate::roster::sort_by_initiative;
use crate::roster::sort_desc;
use crate::roster::sorted_desc;

verus! {

/// The validated command line: at most one positional argument, the
/// roster source.
#[derive(Debug)]
pub struct Args {
    pub filename: Option<String>,
}

/// Validate the argument vector, program name included.  Two or more
/// positional arguments are a usage error; exactly one names the roster
/// source; none selects interactive setup.
pub fn parse_args(args: &Vec<String>) -> (r: Result<Args, TrackerError>)
    ensures
        match r {
            Ok(a) => args@.len() <= 2 && a.filename == if args@.len() == 2 {
                Some(args@[1])
            } else {
                None::<String>
            },
            Err(e) => args@.len() > 2 && e == TrackerError::Usage,
        },
{
    if args.len() > 2 {
        return Err(TrackerError::Usage);
    }
    if args.len() == 2 {
        Ok(Args { filename: Some(args[1].clone()) })
    } else {
        Ok(Args { filename: None })
    }
}

/// Validate and sort the assembled roster, then enter combat.  An empty
/// roster is rejected; otherwise the roster is sorted descending by
/// initiative (stable) and combat starts at turn 0 of round 0.
pub fn prepare_combat(combatants: Vec<Combatant>) -> (r: Result<CombatState, TrackerError>)
    ensures
        match r {
            Ok(c) => {
                &&& combatants@.len() > 0
                &&& c.combatants@ == sort_desc(combatants@)
                &&& sorted_desc(c.combatants@)
                &&& c.current_turn == 0
                &&& c.round == 0
                &&& c.wf()
            },
            Err(e) => combatants@.len() == 0 && e == TrackerError::EmptyRoster,
        },
{
    if combatants.len() == 0 {
        return Err(TrackerError::EmptyRoster);
    }
    let mut ros = combatants;
    sort_by_initiative(&mut ros);
    proof {
        lemma_sort_desc_sorted(combatants@);
    }
    Ok(CombatState { combatants: ros, current_turn: 0, round: 0 })
}

} // verus!
