//! UI components: independently owned rendering units, each assigned a
//! screen region.
//!
//! A component reads the shared state when asked to draw and produces its
//! text content; the decoration of that content (borders, colors,
//! alignment) belongs to the terminal backend outside this library. A draw
//! error from one component is converted into an `Error` action and does
//! not keep the other components from drawing.

use vstd::prelude::*;
use vstd::string::*;
use crate::action::Action;
use crate::event::Event;
use crate::state::{AppState, StateModel};

pub mod counter;
pub mod home;

use counter::{counter_view_spec, Counter};
use home::{home_view_spec, Home};

verus! {

/// The text content a component draws: its lines, top to bottom.
pub struct PanelView {
    pub lines: Vec<String>,
}

/// A component, dispatched over the closed set of variants.
pub enum Panel {
    Home(Home),
    Counter(Counter),
}

impl Panel {
    /// What this component's draw output looks like for a given state.
    pub open spec fn draw_spec(self, v: PanelView, m: StateModel) -> bool {
        match self {
            Panel::Home(_) => home_view_spec(v, m),
            Panel::Counter(_) => counter_view_spec(v, m),
        }
    }

    /// Reacts to a raw event; these variants produce no action from one.
    pub fn handle_event(&self, event: &Event) -> (r: Option<Action>)
        ensures
            r is None,
    {
        None
    }

    /// Reacts to a dispatched action; these variants are purely reactive
    /// at draw time and emit no follow-up action.
    pub fn update(&self, action: &Action) -> (r: Option<Action>)
        ensures
            r is None,
    {
        None
    }

    /// Draws the component from the current shared state.
    pub fn draw(&self, state: &AppState) -> (r: Result<PanelView, String>)
        ensures
            r matches Ok(v) && self.draw_spec(v, state@),
    {
        match self {
            Panel::Home(h) => h.draw(state),
            Panel::Counter(c) => c.draw(state),
        }
    }
}

/// The views of the successful draws, in order.
pub open spec fn ok_views(rs: Seq<Result<PanelView, String>>) -> Seq<PanelView>
    decreases rs.len(),
{
    if rs.len() == 0 {
        Seq::<PanelView>::empty()
    } else {
        match rs[0] {
            Ok(v) => seq![v] + ok_views(rs.skip(1)),
            Err(_) => ok_views(rs.skip(1)),
        }
    }
}

/// The messages of the failed draws, in order.
pub open spec fn error_msgs(rs: Seq<Result<PanelView, String>>) -> Seq<Seq<char>>
    decreases rs.len(),
{
    if rs.len() == 0 {
        Seq::<Seq<char>>::empty()
    } else {
        match rs[0] {
            Ok(_) => error_msgs(rs.skip(1)),
            Err(m) => seq![m@] + error_msgs(rs.skip(1)),
        }
    }
}

/// `acts` is exactly one `Error` action per failed draw, in order, each
/// carrying the failure's message.
pub open spec fn errors_reported(rs: Seq<Result<PanelView, String>>, acts: Seq<Action>) -> bool {
    &&& acts.len() == error_msgs(rs).len()
    &&& forall|i: int|
        0 <= i < acts.len() ==> (#[trigger] acts[i] matches Action::Error(t) && t@
            == "Failed to draw: "@ + error_msgs(rs)[i])
}

/// Splits the outcome of a render pass: the views of the draws that
/// succeeded, and one `Error` action for each draw that failed. A failing
/// component never hides a sibling's view.
pub fn draw_errors_to_actions(results: Vec<Result<PanelView, String>>) -> (r: (
    Vec<PanelView>,
    Vec<Action>,
))
    ensures
        r.0@ == ok_views(results@),
        errors_reported(results@, r.1@),
{
    let ghost orig = results@;
    let mut results = results;
    let mut views: Vec<PanelView> = Vec::new();
    let mut acts: Vec<Action> = Vec::new();
    while results.len() > 0
        invariant
            ok_views(orig) == views@ + ok_views(results@),
            acts@.len() + error_msgs(results@).len() == error_msgs(orig).len(),
            error_msgs(results@) == error_msgs(orig).skip(acts@.len() as int),
            forall|i: int|
                0 <= i < acts@.len() ==> (#[trigger] acts@[i] matches Action::Error(t) && t@
                    == "Failed to draw: "@ + error_msgs(orig)[i]),
        decreases results@.len(),
    {
        let ghost pre = results@;
        let head = results.remove(0);
        proof {
            assert(results@ =~= pre.skip(1));
        }
        match head {
            Ok(v) => {
                views.push(v);
                proof {
                    assert(ok_views(orig) =~= views@ + ok_views(results@));
                }
            },
            Err(m) => {
                let ghost k = acts@.len() as int;
                let message = String::from_str("Failed to draw: ").concat(m.as_str());
                acts.push(Action::Error(message));
                proof {
                    let emo = error_msgs(orig);
                    assert(error_msgs(pre) == seq![m@] + error_msgs(results@));
                    assert(error_msgs(pre) == emo.skip(k));
                    assert(emo.skip(k)[0] == emo[k]);
                    assert(emo[k] == m@);
                    assert forall|i: int|
                        0 <= i < error_msgs(results@).len() implies error_msgs(results@)[i]
                        == emo.skip(k + 1)[i] by {
                        assert(error_msgs(results@)[i] == (seq![m@] + error_msgs(results@))[i
                            + 1]);
                        assert(emo.skip(k)[i + 1] == emo[k + 1 + i]);
                        assert(emo.skip(k + 1)[i] == emo[k + 1 + i]);
                    };
                    assert(error_msgs(results@) =~= emo.skip(k + 1));
                }
            },
        }
    }
    proof {
        assert(ok_views(results@) =~= Seq::<PanelView>::empty());
        assert(ok_views(orig) =~= views@);
    }
    (views, acts)
}

/// When every draw succeeded there is nothing to report and no view is
/// missing.
pub proof fn lemma_all_ok(rs: Seq<Result<PanelView, String>>)
    requires
        forall|j: int| 0 <= j < rs.len() ==> rs[j] is Ok,
    ensures
        error_msgs(rs).len() == 0,
        ok_views(rs).len() == rs.len(),
    decreases rs.len(),
{
    if rs.len() > 0 {
        lemma_all_ok(rs.skip(1));
    }
}

/// One failed draw among otherwise successful ones yields exactly one
/// `Error` action, and every sibling's view is still produced.
pub proof fn lemma_draw_failure_isolated(
    rs: Seq<Result<PanelView, String>>,
    acts: Seq<Action>,
    i: int,
)
    requires
        0 <= i < rs.len(),
        rs[i] is Err,
        forall|j: int| 0 <= j < rs.len() && j != i ==> rs[j] is Ok,
        errors_reported(rs, acts),
    ensures
        acts.len() == 1,
        ok_views(rs).len() == rs.len() - 1,
    decreases rs.len(),
{
    lemma_single_err(rs, i);
}

proof fn lemma_single_err(rs: Seq<Result<PanelView, String>>, i: int)
    requires
        0 <= i < rs.len(),
        rs[i] is Err,
        forall|j: int| 0 <= j < rs.len() && j != i ==> rs[j] is Ok,
    ensures
        error_msgs(rs).len() == 1,
        ok_views(rs).len() == rs.len() - 1,
    decreases rs.len(),
{
    if i == 0 {
        lemma_all_ok(rs.skip(1));
    } else {
        assert(rs[0] is Ok);
        lemma_single_err(rs.skip(1), i - 1);
    }
}

} // verus!
