//! The welcome panel: a read-only display of the counter and the amount.

use vstd::prelude::*;
use vstd::string::*;
use crate::components::PanelView;
use crate::num::{dec_seq_of, i32_to_string};
use crate::state::{AppState, StateModel};

verus! {

/// The content the welcome panel draws for a given state: a greeting, the
/// counter, and the increment amount.
pub open spec fn home_view_spec(v: PanelView, m: StateModel) -> bool {
    &&& v.lines@.len() == 3
    &&& v.lines@[0]@ == "Welcome to Ratatui Domic"@
    &&& v.lines@[1]@ == "Current counter: "@ + dec_seq_of(m.count)
    &&& v.lines@[2]@ == "Current increment amount: "@ + m.amount
}

/// The welcome panel. It reads the shared state only when drawing.
pub struct Home {}

impl Home {
    pub fn new() -> (r: Self)
        ensures
            r == (Home {  }),
    {
        Home {  }
    }

    /// Draws the welcome text from the current state.
    pub fn draw(&self, state: &AppState) -> (r: Result<PanelView, String>)
        ensures
            r matches Ok(v) && home_view_spec(v, state@),
    {
        let count = state.get_count();
        let amount = state.get_amount();
        let count_text = i32_to_string(count);
        let mut lines: Vec<String> = Vec::new();
        lines.push(String::from_str("Welcome to Ratatui Domic"));
        lines.push(String::from_str("Current counter: ").concat(count_text.as_str()));
        lines.push(String::from_str("Current increment amount: ").concat(amount.as_str()));
        Ok(PanelView { lines })
    }
}

} // verus!
