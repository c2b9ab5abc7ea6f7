//! Maps raw events to semantic actions.
//!
//! The handler is stateless except for the shared state it owns: arrow keys
//! mutate the counter or the amount directly as a side effect of the
//! mapping and yield a `Render` action.
//!
//! Precedence: the unmodified single-key bindings (including the arrow
//! keys, which are matched without looking at the modifiers) are checked
//! first; Control-modified combinations are checked only when none of them
//! matched. A Control-modified arrow key is therefore indistinguishable
//! from the plain arrow key.

use vstd::prelude::*;
use crate::action::Action;
use crate::event::{Event, KeyCode, KeyEvent};
use crate::state::{
    AppState, StateModel, decrement_amount_spec, decrement_count_spec, increment_amount_spec,
    increment_count_spec,
};

verus! {

/// The action a key press maps to. Total and deterministic: every
/// (code, modifier-set) pair maps to exactly one optional action.
pub open spec fn builtin_key_action(key: KeyEvent) -> Option<Action> {
    if key.code == KeyCode::Char('q') && key.modifiers.is_empty_spec() {
        Some(Action::Quit)
    } else if key.code == KeyCode::Char('h') && key.modifiers.is_empty_spec() {
        Some(Action::Help)
    } else if key.code == KeyCode::Left || key.code == KeyCode::Right || key.code == KeyCode::Up
        || key.code == KeyCode::Down {
        Some(Action::Render)
    } else if key.code == KeyCode::Esc {
        Some(Action::Quit)
    } else if key.modifiers.control && key.code == KeyCode::Char('c') {
        Some(Action::Quit)
    } else if key.modifiers.control && key.code == KeyCode::Char('r') {
        Some(Action::Refresh)
    } else {
        None
    }
}

/// How a key press changes the shared state: the arrow keys adjust the
/// counter or the amount, every other key leaves the state alone.
pub open spec fn builtin_key_transition(m: StateModel, key: KeyEvent) -> StateModel {
    if key.code == KeyCode::Left {
        decrement_count_spec(m)
    } else if key.code == KeyCode::Right {
        increment_count_spec(m)
    } else if key.code == KeyCode::Up {
        increment_amount_spec(m)
    } else if key.code == KeyCode::Down {
        decrement_amount_spec(m)
    } else {
        m
    }
}

/// The action an event maps to: at most one.
pub open spec fn event_action(event: Event) -> Option<Action> {
    match event {
        Event::Key(key) => builtin_key_action(key),
        Event::Resize(width, height) => Some(Action::Resize(width, height)),
        Event::Tick => Some(Action::Tick),
        Event::Render => Some(Action::Render),
        _ => None,
    }
}

/// How an event changes the shared state: only key events touch it.
pub open spec fn event_transition(m: StateModel, event: Event) -> StateModel {
    match event {
        Event::Key(key) => builtin_key_transition(m, key),
        _ => m,
    }
}

/// Maps one raw event to at most one semantic action, consulting
/// and mutating the shared state it owns.
pub struct EventHandler {
    pub state: AppState,
}

impl EventHandler {
    pub fn new(state: AppState) -> (r: Self)
        ensures
            r.state == state,
    {
        EventHandler { state }
    }

    /// Maps one event to at most one action, with the state change of
    /// `event_transition`.
    pub fn handle(&mut self, event: Event) -> (r: Option<Action>)
        ensures
            r == event_action(event),
            final(self).state@ == event_transition(old(self).state@, event),
    {
        match event {
            Event::Key(key) => self.handle_key_event(key),
            Event::Mouse => None,
            Event::Resize(width, height) => Some(Action::Resize(width, height)),
            Event::Tick => Some(Action::Tick),
            Event::Render => Some(Action::Render),
            _ => None,
        }
    }

    /// Maps one key press to at most one action, with the state change of
    /// `builtin_key_transition`. The mapping is total: every key press
    /// yields exactly the outcome of `builtin_key_action`.
    pub fn handle_key_event(&mut self, key: KeyEvent) -> (r: Option<Action>)
        ensures
            r == builtin_key_action(key),
            final(self).state@ == builtin_key_transition(old(self).state@, key),
    {
        // Unmodified single-key bindings come first.
        match key.code {
            KeyCode::Char(c) => {
                if c == 'q' && key.modifiers.is_empty() {
                    return Some(Action::Quit);
                }
                if c == 'h' && key.modifiers.is_empty() {
                    return Some(Action::Help);
                }
            },
            KeyCode::Left => {
                self.state.decrement_count();
                return Some(Action::Render);
            },
            KeyCode::Right => {
                self.state.increment_count();
                return Some(Action::Render);
            },
            KeyCode::Up => {
                self.state.increment_amount();
                return Some(Action::Render);
            },
            KeyCode::Down => {
                self.state.decrement_amount();
                return Some(Action::Render);
            },
            KeyCode::Esc => {
                return Some(Action::Quit);
            },
            _ => {},
        }
        // Control-modified combinations are reached only when no
        // unmodified binding matched.
        if key.modifiers.control {
            match key.code {
                KeyCode::Char(c) => {
                    if c == 'c' {
                        return Some(Action::Quit);
                    }
                    if c == 'r' {
                        return Some(Action::Refresh);
                    }
                },
                _ => {},
            }
        }
        None
    }
}

/// The arrow keys are matched before the modifier set is looked at: a
/// Control-modified arrow key behaves exactly like the plain one. This is
/// the documented precedence of the built-in mapping.
pub proof fn lemma_arrow_keys_ignore_modifiers(
    mods: crate::event::KeyModifiers,
    m: StateModel,
)
    ensures
        builtin_key_action(KeyEvent { code: KeyCode::Left, modifiers: mods }) == Some(
            Action::Render,
        ),
        builtin_key_action(KeyEvent { code: KeyCode::Right, modifiers: mods }) == Some(
            Action::Render,
        ),
        builtin_key_action(KeyEvent { code: KeyCode::Up, modifiers: mods }) == Some(
            Action::Render,
        ),
        builtin_key_action(KeyEvent { code: KeyCode::Down, modifiers: mods }) == Some(
            Action::Render,
        ),
        builtin_key_transition(m, KeyEvent { code: KeyCode::Left, modifiers: mods })
            == decrement_count_spec(m),
{
}

} // verus!
