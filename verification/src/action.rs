//! Semantic commands flowing through the action channel.
//!
//! Actions are produced by the event handler or by a component, consumed
//! once by the application loop for their global effect, and forwarded to
//! every component's update hook; they are not persisted.

use vstd::prelude::*;

verus! {

/// A semantic command. Immutable value, cheaply cloned.
#[derive(Clone, Debug, PartialEq, Eq)]
pub enum Action {
    Tick,
    Render,
    Resize(u16, u16),
    Suspend,
    Resume,
    Quit,
    Refresh,
    Error(String),
    Help,
    ClearScreen,
    IncrementBy(i32),
    DecrementBy(i32),
}

/// Copies an action; the copy is equal to the original.
pub fn clone_action(a: &Action) -> (r: Action)
    ensures
        r == *a,
{
    match a {
        Action::Tick => Action::Tick,
        Action::Render => Action::Render,
        Action::Resize(w, h) => Action::Resize(*w, *h),
        Action::Suspend => Action::Suspend,
        Action::Resume => Action::Resume,
        Action::Quit => Action::Quit,
        Action::Refresh => Action::Refresh,
        Action::Error(message) => Action::Error(message.clone()),
        Action::Help => Action::Help,
        Action::ClearScreen => Action::ClearScreen,
        Action::IncrementBy(n) => Action::IncrementBy(*n),
        Action::DecrementBy(n) => Action::DecrementBy(*n),
    }
}

/// The actions an optional action contributes to a queue: one or none.
pub open spec fn opt_actions(a: Option<Action>) -> Seq<Action> {
    match a {
        Some(action) => seq![action],
        None => Seq::<Action>::empty(),
    }
}

} // verus!
