//! The combat state machine: round and turn advancement over a fixed,
//! non-empty roster.

use vstd::prelude::*;
use vstd::arithmetic::div_mod::lemma_small_mod;
use vstd::arithmetic::div_mod::lemma_mod_self_0;
use crate::Intent;
use crate::roster::Combatant;

verus! {

/// Combat over a fixed, non-empty roster.  `round` starts at 0 (it is
/// displayed as `round + 1`) and may go negative under repeated
/// backward steps at the start of round 0.
#[derive(Debug)]
pub struct CombatState {
    pub combatants: Vec<Combatant>,
    pub current_turn: usize,
    pub round: i32,
}

impl CombatState {
    /// The roster is non-empty and the current turn indexes into it.
    pub open spec fn wf(self) -> bool {
        &&& self.combatants@.len() > 0
        &&& (self.current_turn as int) < self.combatants@.len()
    }
}

/// One Confirm step on a (turn, round) pair for a roster of `n`
/// combatants: the turn advances cyclically, and the round increments
/// exactly when the turn wraps back to 0.
pub open spec fn confirm_step(turn: int, round: int, n: int) -> (int, int)
    recommends
        1 <= n,
{
    let t = (turn + 1) % n;
    (t, if t == 0 { round + 1 } else { round })
}

/// One backward step on a (turn, round) pair for a roster of `n`
/// combatants: at turn 0 it moves to the last turn of the previous
/// round, otherwise it steps the turn back by one.
pub open spec fn backward_step(turn: int, round: int, n: int) -> (int, int)
    recommends
        1 <= n,
{
    if turn == 0 {
        (n - 1, round - 1)
    } else {
        (turn - 1, round)
    }
}

/// `k` Confirm steps in a row from a (turn, round) pair.
pub open spec fn confirm_iter(turn: int, round: int, n: int, k: nat) -> (int, int)
    recommends
        1 <= n,
    decreases k,
{
    if k == 0 {
        (turn, round)
    } else {
        let p = confirm_iter(turn, round, n, (k - 1) as nat);
        confirm_step(p.0, p.1, n)
    }
}

/// Apply one input intent to the combat state.  Confirm advances the
/// turn cyclically and increments the round on wraparound; the
/// backward intent (`DeleteChar`) undoes one step, decrementing the
/// round at the top of the order; Cancel asks the caller to stop;
/// every other intent is a no-op.
pub fn handle_combat_input(state: &mut CombatState, intent: Intent) -> (exit: bool)
    requires
        old(state).wf(),
        intent is Confirm && old(state).current_turn + 1 == old(state).combatants@.len()
            ==> old(state).round < i32::MAX,
        intent is DeleteChar && old(state).current_turn == 0 ==> i32::MIN < old(state).round,
    ensures
        final(state).wf(),
        final(state).combatants == old(state).combatants,
        exit == (intent is Cancel),
        intent is Confirm ==> (final(state).current_turn as int, final(state).round as int)
            == confirm_step(
                old(state).current_turn as int,
                old(state).round as int,
                old(state).combatants@.len() as int,
            ),
        intent is DeleteChar ==> (final(state).current_turn as int, final(state).round as int)
            == backward_step(
                old(state).current_turn as int,
                old(state).round as int,
                old(state).combatants@.len() as int,
            ),
        !(intent is Confirm) && !(intent is DeleteChar) ==> *final(state) == *old(state),
{
    match intent {
        Intent::Confirm => {
            let n = state.combatants.len();
            proof {
                if state.current_turn as int + 1 < n as int {
                    lemma_small_mod((state.current_turn + 1) as nat, n as nat);
                } else {
                    lemma_mod_self_0(n as int);
                }
            }
            state.current_turn = (state.current_turn + 1) % n;
            if state.current_turn == 0 {
                state.round = state.round + 1;
            }
            false
        },
        Intent::DeleteChar => {
            if state.current_turn == 0 {
                state.round = state.round - 1;
                state.current_turn = state.combatants.len() - 1;
            } else {
                state.current_turn = state.current_turn - 1;
            }
            false
        },
        Intent::Cancel => true,
        _ => false,
    }
}

proof fn lemma_partial_round(n: int, r: int, k: nat)
    requires
        1 <= n,
        k as int <= n,
    ensures
        confirm_iter(0, r, n, k) == if (k as int) < n {
            (k as int, r)
        } else {
            (0int, r + 1)
        },
    decreases k,
{
    if k == 0 {
    } else {
        lemma_partial_round(n, r, (k - 1) as nat);
        if (k as int) < n {
            lemma_small_mod(k, n as nat);
        } else {
            lemma_mod_self_0(n);
        }
    }
}

/// Law: from the top of the order in round `r`, one Confirm per
/// combatant comes back to the top of the order with the round
/// advanced by exactly one.
pub proof fn lemma_full_round(n: int, r: int)
    requires
        1 <= n,
    ensures
        confirm_iter(0, r, n, n as nat) == (0int, r + 1),
{
    lemma_partial_round(n, r, n as nat);
}

/// Law: a backward step exactly undoes a Confirm step, on the turn and
/// on the round alike; at the wraparound boundary the round that
/// Confirm incremented is decremented again.
pub proof fn lemma_backward_inverts_confirm(t: int, r: int, n: int)
    requires
        1 <= n,
        0 <= t < n,
    ensures
        ({
            let p = confirm_step(t, r, n);
            backward_step(p.0, p.1, n)
        }) == (t, r),
{
    if t + 1 < n {
        lemma_small_mod((t + 1) as nat, n as nat);
    } else {
        lemma_mod_self_0(n);
    }
}

/// Law: a Confirm step exactly undoes a backward step, so the two are
/// inverse in both directions.
pub proof fn lemma_confirm_inverts_backward(t: int, r: int, n: int)
    requires
        1 <= n,
        0 <= t < n,
    ensures
        ({
            let p = backward_step(t, r, n);
            confirm_step(p.0, p.1, n)
        }) == (t, r),
{
    if t == 0 {
        lemma_mod_self_0(n);
    } else {
        lemma_small_mod(t as nat, n as nat);
    }
}

} // verus!
