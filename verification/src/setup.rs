//! The interactive setup state machine: menu navigation, the add-entry
//! form, entry removal, and initiative-order viewing (which sorts as a
//! side effect).

use vstd::prelude::*;
use vstd::string::StrSliceExecFns;
use crate::Intent;
use crate::parse::int_str_val;
use crate::parse::is_digit_char;
use crate::parse::parse_i32;
use crate::parse::valid_int_str;
use crate::roster::Combatant;
use crate::roster::sort_by_initiative;
use crate::roster::sort_desc;

verus! {

/// The screens of the setup state machine.
#[derive(Clone, Copy, Debug, PartialEq, Eq, Structural)]
pub enum SetupMenuState {
    PopulateEntries,
    AddEntry,
    RemoveEntry,
    ViewOrder,
}

/// The form field of the add-entry screen that receives characters.
#[derive(Clone, Copy, Debug, PartialEq, Eq, Structural)]
pub enum InputField {
    Name,
    Initiative,
}

/// Fixed option indices of the top-level menu.
pub const ADD_ENTRY: usize = 0;

pub const REMOVE_ENTRY: usize = 1;

pub const VIEW_ORDER: usize = 2;

/// The navigation bound of the top-level menu: its four options sit at
/// indices 0 through 3.
pub const POPULATE_MAX: usize = 3;

/// The mutable state of the interactive setup phase.  `selected` may
/// equal `max_size`, one past the last option on some screens, so it is
/// never used to index `combatants` without a bounds check.
pub struct SetupState {
    pub combatants: Vec<Combatant>,
    pub menu: SetupMenuState,
    pub selected: usize,
    pub max_size: usize,
    pub name_input: String,
    pub initiative_input: String,
    pub active_field: InputField,
}

/// The other input field.
pub open spec fn toggled(f: InputField) -> InputField {
    match f {
        InputField::Name => InputField::Initiative,
        InputField::Initiative => InputField::Name,
    }
}

/// `s` with its last character removed, or empty `s` unchanged.
pub open spec fn chopped(s: Seq<char>) -> Seq<char> {
    if s.len() > 0 {
        s.drop_last()
    } else {
        s
    }
}

/// Fields that no navigation or form intent touches.
pub open spec fn same_roster_and_buffers(pre: SetupState, post: SetupState) -> bool {
    &&& post.combatants == pre.combatants
    &&& post.max_size == pre.max_size
    &&& post.name_input == pre.name_input
    &&& post.initiative_input == pre.initiative_input
    &&& post.active_field == pre.active_field
}

/// A switch to screen `m`: the selection resets, everything else stays.
pub open spec fn menu_switch(pre: SetupState, post: SetupState, m: SetupMenuState) -> bool {
    &&& post.menu == m
    &&& post.selected == 0
    &&& same_roster_and_buffers(pre, post)
}

/// Confirm in the add-entry form.  An empty name, or an initiative that
/// is no valid numeral, silently discards the entry; a valid entry is
/// appended.  Either way the form clears and control returns to the
/// top-level menu.
pub open spec fn add_entry_post(pre: SetupState, post: SetupState) -> bool {
    &&& post.combatants@ == if pre.name_input@.len() > 0 && valid_int_str(
        pre.initiative_input@,
    ) {
        pre.combatants@.push(
            Combatant {
                name: pre.name_input,
                initiative: int_str_val(pre.initiative_input@) as i32,
            },
        )
    } else {
        pre.combatants@
    }
    &&& post.menu is PopulateEntries
    &&& post.selected == 0
    &&& post.max_size == pre.max_size
    &&& post.name_input@.len() == 0
    &&& post.initiative_input@.len() == 0
    &&& post.active_field is Name
}

/// Confirm in the remove-entry screen: an out-of-bounds selection is a
/// no-op that stays on the screen; otherwise the selected combatant is
/// removed and control returns to the top-level menu.
pub open spec fn remove_entry_post(pre: SetupState, post: SetupState) -> bool {
    if pre.selected >= pre.combatants@.len() {
        post == pre
    } else {
        &&& post.combatants@ == pre.combatants@.remove(pre.selected as int)
        &&& post.menu is PopulateEntries
        &&& post.selected == 0
        &&& post.max_size == pre.max_size
        &&& post.name_input == pre.name_input
        &&& post.initiative_input == pre.initiative_input
        &&& post.active_field == pre.active_field
    }
}

/// Confirm in the view-order screen: viewing sorts the roster
/// descending by initiative (stable) as a side effect, then returns to
/// the top-level menu.
pub open spec fn view_order_post(pre: SetupState, post: SetupState) -> bool {
    &&& post.combatants@ == sort_desc(pre.combatants@)
    &&& post.menu is PopulateEntries
    &&& post.selected == 0
    &&& post.max_size == pre.max_size
    &&& post.name_input == pre.name_input
    &&& post.initiative_input == pre.initiative_input
    &&& post.active_field == pre.active_field
}

/// What Confirm does on each screen.  On the top-level menu the three
/// fixed option indices open their screens; any other selection
/// (Continue at index 3, or one past it) ends setup.
pub open spec fn confirm_post(pre: SetupState, post: SetupState, exit: bool) -> bool {
    match pre.menu {
        SetupMenuState::PopulateEntries => {
            if pre.selected == ADD_ENTRY {
                menu_switch(pre, post, SetupMenuState::AddEntry) && !exit
            } else if pre.selected == REMOVE_ENTRY {
                menu_switch(pre, post, SetupMenuState::RemoveEntry) && !exit
            } else if pre.selected == VIEW_ORDER {
                menu_switch(pre, post, SetupMenuState::ViewOrder) && !exit
            } else {
                post == pre && exit
            }
        },
        SetupMenuState::AddEntry => add_entry_post(pre, post) && !exit,
        SetupMenuState::RemoveEntry => remove_entry_post(pre, post) && !exit,
        SetupMenuState::ViewOrder => view_order_post(pre, post) && !exit,
    }
}

/// The full transition relation of the setup state machine, one case
/// per abstract intent.
pub open spec fn setup_post(pre: SetupState, post: SetupState, intent: Intent, exit: bool) -> bool {
    match intent {
        Intent::Up => !exit && post.menu == pre.menu && same_roster_and_buffers(pre, post)
            && post.selected as int == if pre.selected > 0 {
            pre.selected - 1
        } else {
            0int
        },
        Intent::Down => !exit && post.menu == pre.menu && same_roster_and_buffers(pre, post)
            && post.selected as int == if pre.selected < pre.max_size {
            pre.selected + 1
        } else {
            pre.selected as int
        },
        Intent::Confirm => confirm_post(pre, post, exit),
        Intent::Cancel => if pre.menu is PopulateEntries {
            exit && post == pre
        } else {
            !exit && menu_switch(pre, post, SetupMenuState::PopulateEntries)
        },
        Intent::NextField => !exit && post.menu == pre.menu && post.selected == pre.selected
            && post.combatants == pre.combatants && post.max_size == pre.max_size
            && post.name_input == pre.name_input && post.initiative_input == pre.initiative_input
            && post.active_field == if pre.menu is AddEntry {
            toggled(pre.active_field)
        } else {
            pre.active_field
        },
        Intent::DeleteChar => !exit && if pre.menu is AddEntry {
            &&& post.menu == pre.menu
            &&& post.selected == pre.selected
            &&& post.combatants == pre.combatants
            &&& post.max_size == pre.max_size
            &&& post.active_field == pre.active_field
            &&& match pre.active_field {
                InputField::Name => post.name_input@ == chopped(pre.name_input@)
                    && post.initiative_input == pre.initiative_input,
                InputField::Initiative => post.initiative_input@ == chopped(
                    pre.initiative_input@,
                ) && post.name_input == pre.name_input,
            }
        } else {
            post == pre
        },
        Intent::Character(c) => !exit && if pre.menu is AddEntry {
            &&& post.menu == pre.menu
            &&& post.selected == pre.selected
            &&& post.combatants == pre.combatants
            &&& post.max_size == pre.max_size
            &&& post.active_field == pre.active_field
            &&& match pre.active_field {
                InputField::Name => post.name_input@ == pre.name_input@.push(c)
                    && post.initiative_input == pre.initiative_input,
                InputField::Initiative => post.initiative_input@ == (if is_digit_char(c) || (c
                    == '-' && pre.initiative_input@.len() == 0) {
                    pre.initiative_input@.push(c)
                } else {
                    pre.initiative_input@
                }) && post.name_input == pre.name_input,
            }
        } else {
            post == pre
        },
    }
}

/// Relies on String::push: appends exactly the given character.
#[verifier::external_body]
fn push_char(s: &mut String, c: char)
    ensures
        final(s)@ == old(s)@.push(c),
{
    s.push(c);
}

/// Relies on String::pop: removes the last character of a non-empty
/// string; an empty string stays empty.
#[verifier::external_body]
fn pop_char(s: &mut String)
    ensures
        final(s)@ == chopped(old(s)@),
{
    s.pop();
}

impl SetupState {
    /// The state at setup entry: empty roster, top-level menu, empty
    /// form buffers, name field active.
    pub fn init() -> (s: SetupState)
        ensures
            s.combatants@.len() == 0,
            s.menu is PopulateEntries,
            s.selected == 0,
            s.max_size == POPULATE_MAX,
            s.name_input@.len() == 0,
            s.initiative_input@.len() == 0,
            s.active_field is Name,
    {
        SetupState {
            combatants: Vec::new(),
            menu: SetupMenuState::PopulateEntries,
            selected: 0,
            max_size: POPULATE_MAX,
            name_input: String::new(),
            initiative_input: String::new(),
            active_field: InputField::Name,
        }
    }
}

/// Before each input: on the top-level menu the navigation bound is the
/// fixed option count, on every other screen it is the roster length.
pub fn refresh_max_size(state: &mut SetupState)
    ensures
        final(state).max_size as int == if old(state).menu is PopulateEntries {
            POPULATE_MAX as int
        } else {
            old(state).combatants@.len() as int
        },
        final(state).combatants == old(state).combatants,
        final(state).menu == old(state).menu,
        final(state).selected == old(state).selected,
        final(state).name_input == old(state).name_input,
        final(state).initiative_input == old(state).initiative_input,
        final(state).active_field == old(state).active_field,
{
    match state.menu {
        SetupMenuState::PopulateEntries => {
            state.max_size = POPULATE_MAX;
        },
        _ => {
            state.max_size = state.combatants.len();
        },
    }
}

/// Confirm in the add-entry form; see `add_entry_post`.
pub fn add_entry(state: &mut SetupState) -> (exit: bool)
    ensures
        add_entry_post(*old(state), *final(state)),
        !exit,
{
    if state.name_input.as_str().is_empty() {
        state.initiative_input = String::new();
        state.active_field = InputField::Name;
        state.menu = SetupMenuState::PopulateEntries;
        state.selected = 0;
        return false;
    }
    match parse_i32(state.initiative_input.as_str()) {
        Some(v) => {
            let name = state.name_input.clone();
            state.combatants.push(Combatant { name, initiative: v });
        },
        None => {},
    }
    state.name_input = String::new();
    state.initiative_input = String::new();
    state.active_field = InputField::Name;
    state.menu = SetupMenuState::PopulateEntries;
    state.selected = 0;
    false
}

/// Confirm in the remove-entry screen; see `remove_entry_post`.
pub fn remove_entry(state: &mut SetupState) -> (exit: bool)
    ensures
        remove_entry_post(*old(state), *final(state)),
        !exit,
{
    if state.selected >= state.combatants.len() {
        return false;
    }
    state.combatants.remove(state.selected);
    state.menu = SetupMenuState::PopulateEntries;
    state.selected = 0;
    false
}

/// Confirm in the view-order screen; see `view_order_post`.
pub fn view_initiative_order(state: &mut SetupState) -> (exit: bool)
    ensures
        view_order_post(*old(state), *final(state)),
        !exit,
{
    sort_by_initiative(&mut state.combatants);
    state.menu = SetupMenuState::PopulateEntries;
    state.selected = 0;
    false
}

/// Dispatch a Confirm intent to the current screen; see `confirm_post`.
pub fn handle_enter(state: &mut SetupState) -> (exit: bool)
    ensures
        confirm_post(*old(state), *final(state), exit),
{
    match state.menu {
        SetupMenuState::PopulateEntries => {
            if state.selected == ADD_ENTRY {
                state.menu = SetupMenuState::AddEntry;
                state.selected = 0;
                false
            } else if state.selected == REMOVE_ENTRY {
                state.menu = SetupMenuState::RemoveEntry;
                state.selected = 0;
                false
            } else if state.selected == VIEW_ORDER {
                state.menu = SetupMenuState::ViewOrder;
                state.selected = 0;
                false
            } else {
                true
            }
        },
        SetupMenuState::AddEntry => add_entry(state),
        SetupMenuState::RemoveEntry => remove_entry(state),
        SetupMenuState::ViewOrder => view_initiative_order(state),
    }
}

/// Apply one abstract input intent to the setup state; the result says
/// whether setup ends and the current roster is handed on.  The full
/// behaviour is `setup_post`.
pub fn handle_input(state: &mut SetupState, intent: Intent) -> (exit: bool)
    ensures
        setup_post(*old(state), *final(state), intent, exit),
{
    match intent {
        Intent::Up => {
            if state.selected > 0 {
                state.selected = state.selected - 1;
            }
            false
        },
        Intent::Down => {
            if state.selected < state.max_size {
                state.selected = state.selected + 1;
            }
            false
        },
        Intent::Confirm => handle_enter(state),
        Intent::Cancel => {
            match state.menu {
                SetupMenuState::PopulateEntries => true,
                _ => {
                    state.menu = SetupMenuState::PopulateEntries;
                    state.selected = 0;
                    false
                },
            }
        },
        Intent::NextField => {
            match state.menu {
                SetupMenuState::AddEntry => {
                    state.active_field = match state.active_field {
                        InputField::Name => InputField::Initiative,
                        InputField::Initiative => InputField::Name,
                    };
                },
                _ => {},
            }
            false
        },
        Intent::DeleteChar => {
            match state.menu {
                SetupMenuState::AddEntry => {
                    match state.active_field {
                        InputField::Initiative => pop_char(&mut state.initiative_input),
                        InputField::Name => pop_char(&mut state.name_input),
                    }
                },
                _ => {},
            }
            false
        },
        Intent::Character(c) => {
            match state.menu {
                SetupMenuState::AddEntry => {
                    match state.active_field {
                        InputField::Name => push_char(&mut state.name_input, c),
                        InputField::Initiative => {
                            let u = c as u32;
                            let is_digit = 48 <= u && u <= 57;
                            if is_digit || (c == '-' && state.initiative_input.as_str().is_empty())
                                {
                                push_char(&mut state.initiative_input, c);
                            }
                        },
                    }
                },
                _ => {},
            }
            false
        },
    }
}

} // verus!
