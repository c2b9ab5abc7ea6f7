//! The counter panel: displays the count and the amount together with the
//! key instructions, interpolating the current amount into them.

use vstd::prelude::*;
use vstd::string::*;
use crate::components::PanelView;
use crate::num::{dec_seq_of, i32_to_string};
use crate::state::{AppState, StateModel};

verus! {

/// The content the counter panel draws for a given state: the count line,
/// the amount box, and the two instruction lines that name the current
/// amount.
pub open spec fn counter_view_spec(v: PanelView, m: StateModel) -> bool {
    &&& v.lines@.len() == 4
    &&& v.lines@[0]@ == "Count: "@ + dec_seq_of(m.count)
    &&& v.lines@[1]@ == m.amount
    &&& v.lines@[2]@ == "Increment by "@ + m.amount
    &&& v.lines@[3]@ == "Decrement by "@ + m.amount
}

/// The interactive counter panel. It reads the shared state only when
/// drawing.
pub struct Counter {}

impl Default for Counter {
    fn default() -> (r: Self)
        ensures
            r == (Counter {  }),
    {
        Counter {  }
    }
}

impl Counter {
    pub fn new() -> (r: Self)
        ensures
            r == (Counter {  }),
    {
        Counter {  }
    }

    /// Draws the count, the amount, and the amount-dependent instructions
    /// from the current state.
    pub fn draw(&self, state: &AppState) -> (r: Result<PanelView, String>)
        ensures
            r matches Ok(v) && counter_view_spec(v, state@),
    {
        let count = state.get_count();
        let amount = state.get_amount();
        let count_text = i32_to_string(count);
        let mut lines: Vec<String> = Vec::new();
        lines.push(String::from_str("Count: ").concat(count_text.as_str()));
        lines.push(amount.clone());
        lines.push(String::from_str("Increment by ").concat(amount.as_str()));
        lines.push(String::from_str("Decrement by ").concat(amount.as_str()));
        Ok(PanelView { lines })
    }
}

} // verus!
