//! The application loop: the central state machine of the dispatch
//! pipeline.
//!
//! One iteration takes the next raw event, turns it into actions (consulting
//! the keybinding configuration before the built-in mapping), drains the
//! action queue in arrival order, applies the actions that affect the global
//! run state, forwards every action to every component's update hook, and
//! reports the backend work of the iteration — clearing, resizing, drawing —
//! as a list of effects for the caller to perform. The loop ends when an
//! iteration reports that the terminal `Quit` state was reached.

use vstd::prelude::*;
use crate::action::{clone_action, opt_actions, Action};
use crate::components::counter::Counter;
use crate::components::home::Home;
use crate::components::{draw_errors_to_actions, lemma_all_ok, Panel, PanelView};
use crate::event::{Event, KeyEvent};
use crate::event_handler::{builtin_key_action, builtin_key_transition, EventHandler};
use crate::layout::{split3_rects, split_vertical, Rect};
use crate::state::StateModel;

verus! {

/// The input mode the keybinding configuration is consulted for.
#[derive(Clone, Copy, Debug, PartialEq, Eq, Hash, Structural)]
pub enum Mode {
    Home,
}

impl Default for Mode {
    fn default() -> (r: Self)
        ensures
            r == Mode::Home,
    {
        Mode::Home
    }
}

/// One configured binding: a key sequence and the action it triggers.
pub struct KeyBinding {
    pub mode: Mode,
    pub keys: Vec<KeyEvent>,
    pub action: Action,
}

/// The keybinding configuration the loop consults before falling back to
/// the built-in mapping. Single-key and multi-key (chorded) sequences.
pub struct Config {
    pub keybindings: Vec<KeyBinding>,
}

/// The first binding for `mode` whose key sequence is exactly `keys`.
pub open spec fn lookup_binding(bs: Seq<KeyBinding>, mode: Mode, keys: Seq<KeyEvent>) -> Option<
    Action,
>
    decreases bs.len(),
{
    if bs.len() == 0 {
        None::<Action>
    } else if bs[0].mode == mode && bs[0].keys@ == keys {
        Some(bs[0].action)
    } else {
        lookup_binding(bs.skip(1), mode, keys)
    }
}

/// Compares two key sequences.
fn key_seq_eq(a: &Vec<KeyEvent>, b: &Vec<KeyEvent>) -> (r: bool)
    ensures
        r == (a@ == b@),
{
    if a.len() != b.len() {
        return false;
    }
    let mut i: usize = 0;
    while i < a.len()
        invariant
            0 <= i <= a@.len(),
            a@.len() == b@.len(),
            forall|j: int| 0 <= j < i ==> a@[j] == b@[j],
        decreases a@.len() - i,
    {
        if !(a[i] == b[i]) {
            return false;
        }
        i += 1;
    }
    proof {
        assert(a@ =~= b@);
    }
    true
}

impl Config {
    /// An empty configuration: every key falls through to the built-in
    /// mapping.
    pub fn new() -> (r: Self)
        ensures
            r.keybindings@ == Seq::<KeyBinding>::empty(),
    {
        let r = Config { keybindings: Vec::new() };
        proof {
            assert(r.keybindings@ =~= Seq::<KeyBinding>::empty());
        }
        r
    }

    /// Looks up the action bound to a key sequence in a mode.
    pub fn lookup(&self, mode: Mode, keys: &Vec<KeyEvent>) -> (r: Option<Action>)
        ensures
            r == lookup_binding(self.keybindings@, mode, keys@),
    {
        proof {
            assert(self.keybindings@.skip(0) =~= self.keybindings@);
        }
        let mut i: usize = 0;
        while i < self.keybindings.len()
            invariant
                0 <= i <= self.keybindings@.len(),
                lookup_binding(self.keybindings@, mode, keys@) == lookup_binding(
                    self.keybindings@.skip(i as int),
                    mode,
                    keys@,
                ),
            decreases self.keybindings@.len() - i,
        {
            let b = &self.keybindings[i];
            proof {
                assert(self.keybindings@.skip(i as int)[0] == self.keybindings@[i as int]);
            }
            if b.mode == mode && key_seq_eq(&b.keys, keys) {
                return Some(clone_action(&b.action));
            }
            proof {
                assert(self.keybindings@.skip(i as int).skip(1) =~= self.keybindings@.skip(
                    i as int + 1,
                ));
            }
            i += 1;
        }
        None
    }
}

/// A component paired with its assigned screen region. `slot` is the index
/// of its region in the three regions of the vertical split; the middle
/// region is left to a caller-owned performance panel outside the library.
pub struct PanelWithRect {
    pub panel: Panel,
    pub rect: Rect,
    pub slot: usize,
}

/// The same components, re-assigned the regions of the split of `size`.
pub open spec fn resize_panels_spec(ps: Seq<PanelWithRect>, size: Rect) -> Seq<PanelWithRect> {
    ps.map_values(
        |p: PanelWithRect|
            PanelWithRect { panel: p.panel, rect: split3_rects(size)[p.slot as int], slot: p.slot },
    )
}

/// One drawn component: its content and where it goes.
pub struct PanelDraw {
    pub view: PanelView,
    pub rect: Rect,
}

/// Backend work an iteration asks the caller to perform, in order.
pub enum Effect {
    /// Clear the terminal.
    ClearScreen,
    /// Resize the backend buffer.
    ResizeBackend(u16, u16),
    /// Draw the given contents into their regions.
    Draw(Vec<PanelDraw>),
    /// Release the terminal for an OS-level suspend.
    SuspendBackend,
    /// Re-acquire the terminal after a suspend.
    EnterBackend,
}

/// `plan` draws exactly the given components: one entry per component, in
/// registration order, each the component's content for state `m` in the
/// component's region.
pub open spec fn plan_ok(plan: Seq<PanelDraw>, panels: Seq<PanelWithRect>, m: StateModel) -> bool {
    &&& plan.len() == panels.len()
    &&& forall|i: int|
        0 <= i < plan.len() ==> (#[trigger] plan[i]).rect == panels[i].rect
            && panels[i].panel.draw_spec(plan[i].view, m)
}

/// The loop-global state an action can affect.
pub ghost struct LoopState {
    pub quit: bool,
    pub susp: bool,
    pub chord: Seq<KeyEvent>,
    pub panels: Seq<PanelWithRect>,
}

/// Abstract description of one backend effect.
pub ghost enum EffectKind {
    Clear,
    ResizeTo(u16, u16),
    DrawPass(Seq<PanelWithRect>),
    SuspendB,
    EnterB,
}

/// What one action does to the loop-global state, and the backend work it
/// demands: `Quit`/`Suspend`/`Resume` set the run flags, `Tick` clears the
/// chord buffer, `ClearScreen` clears, `Resize` re-assigns the component
/// regions and then draws, `Render` draws; everything else only reaches
/// the components' update hooks.
pub open spec fn drain_step(s: LoopState, a: Action) -> (LoopState, Seq<EffectKind>) {
    match a {
        Action::Tick => (
            LoopState { quit: s.quit, susp: s.susp, chord: Seq::<KeyEvent>::empty(), panels: s.panels },
            Seq::<EffectKind>::empty(),
        ),
        Action::Quit => (
            LoopState { quit: true, susp: s.susp, chord: s.chord, panels: s.panels },
            Seq::<EffectKind>::empty(),
        ),
        Action::Suspend => (
            LoopState { quit: s.quit, susp: true, chord: s.chord, panels: s.panels },
            Seq::<EffectKind>::empty(),
        ),
        Action::Resume => (
            LoopState { quit: s.quit, susp: false, chord: s.chord, panels: s.panels },
            Seq::<EffectKind>::empty(),
        ),
        Action::ClearScreen => (s, seq![EffectKind::Clear]),
        Action::Resize(w, h) => (
            LoopState {
                quit: s.quit,
                susp: s.susp,
                chord: s.chord,
                panels: resize_panels_spec(s.panels, Rect { x: 0, y: 0, width: w, height: h }),
            },
            seq![
                EffectKind::ResizeTo(w, h),
                EffectKind::DrawPass(
                    resize_panels_spec(s.panels, Rect { x: 0, y: 0, width: w, height: h }),
                ),
            ],
        ),
        Action::Render => (s, seq![EffectKind::DrawPass(s.panels)]),
        _ => (s, Seq::<EffectKind>::empty()),
    }
}

/// Drains a queue in arrival order, composing the steps.
pub open spec fn drain_all(s: LoopState, q: Seq<Action>) -> (LoopState, Seq<EffectKind>)
    decreases q.len(),
{
    if q.len() == 0 {
        (s, Seq::<EffectKind>::empty())
    } else {
        let first = drain_step(s, q[0]);
        let rest = drain_all(first.0, q.skip(1));
        (rest.0, first.1 + rest.1)
    }
}

/// `e` performs `k`, drawing from state `m` where `k` is a draw pass.
pub open spec fn effect_matches(e: Effect, k: EffectKind, m: StateModel) -> bool {
    match k {
        EffectKind::Clear => e == Effect::ClearScreen,
        EffectKind::ResizeTo(w, h) => e == Effect::ResizeBackend(w, h),
        EffectKind::DrawPass(ps) => (e matches Effect::Draw(plan) && plan_ok(plan@, ps, m)),
        EffectKind::SuspendB => e == Effect::SuspendBackend,
        EffectKind::EnterB => e == Effect::EnterBackend,
    }
}

pub open spec fn effects_match(effs: Seq<Effect>, ks: Seq<EffectKind>, m: StateModel) -> bool {
    &&& effs.len() == ks.len()
    &&& forall|i: int| 0 <= i < effs.len() ==> effect_matches(#[trigger] effs[i], ks[i], m)
}

proof fn lemma_effects_match_push(
    effs: Seq<Effect>,
    ks: Seq<EffectKind>,
    e: Effect,
    k: EffectKind,
    m: StateModel,
)
    requires
        effects_match(effs, ks, m),
        effect_matches(e, k, m),
    ensures
        effects_match(effs.push(e), ks.push(k), m),
{
    assert forall|i: int| 0 <= i < effs.push(e).len() implies effect_matches(
        #[trigger] effs.push(e)[i],
        ks.push(k)[i],
        m,
    ) by {
        if i < effs.len() {
            assert(effs.push(e)[i] == effs[i]);
            assert(ks.push(k)[i] == ks[i]);
        } else {
            assert(effs.push(e)[i] == e);
            assert(ks.push(k)[i] == k);
        }
    }
}

/// What a key press does, with the configuration consulted first: a
/// matching single-key binding wins; otherwise the key joins the chord
/// buffer and a matching chord binding wins; otherwise the built-in
/// mapping decides and may mutate the shared state. Yields the optional
/// action, the new chord buffer, and the new shared state.
pub open spec fn key_outcome(
    bs: Seq<KeyBinding>,
    mode: Mode,
    chord: Seq<KeyEvent>,
    m: StateModel,
    key: KeyEvent,
) -> (Option<Action>, Seq<KeyEvent>, StateModel) {
    match lookup_binding(bs, mode, seq![key]) {
        Some(a) => (Some(a), chord, m),
        None => {
            let chord2 = chord.push(key);
            match lookup_binding(bs, mode, chord2) {
                Some(a) => (Some(a), chord2, m),
                None => (builtin_key_action(key), chord2, builtin_key_transition(m, key)),
            }
        },
    }
}

/// The action one raw event feeds into the queue, if any.
pub open spec fn app_event_action(
    bs: Seq<KeyBinding>,
    mode: Mode,
    chord: Seq<KeyEvent>,
    m: StateModel,
    event: Event,
) -> Option<Action> {
    match event {
        Event::Quit => Some(Action::Quit),
        Event::Tick => Some(Action::Tick),
        Event::Render => Some(Action::Render),
        Event::Resize(w, h) => Some(Action::Resize(w, h)),
        Event::Key(k) => key_outcome(bs, mode, chord, m, k).0,
        _ => None,
    }
}

/// The chord buffer after one raw event.
pub open spec fn app_event_chord(
    bs: Seq<KeyBinding>,
    mode: Mode,
    chord: Seq<KeyEvent>,
    m: StateModel,
    event: Event,
) -> Seq<KeyEvent> {
    match event {
        Event::Key(k) => key_outcome(bs, mode, chord, m, k).1,
        _ => chord,
    }
}

/// The shared state after one raw event.
pub open spec fn app_event_state(
    bs: Seq<KeyBinding>,
    mode: Mode,
    chord: Seq<KeyEvent>,
    m: StateModel,
    event: Event,
) -> StateModel {
    match event {
        Event::Key(k) => key_outcome(bs, mode, chord, m, k).2,
        _ => m,
    }
}

/// Every component's region slot is one of the three split regions.
pub open spec fn app_wf(app: App) -> bool {
    forall|i: int| 0 <= i < app.panels@.len() ==> (#[trigger] app.panels@[i]).slot < 3
}

/// The orchestrator: owns the configuration, the event handler (and
/// through it the shared state), the components with their regions, the
/// run flags, the chord buffer, and the action queue.
pub struct App {
    pub config: Config,
    pub handler: EventHandler,
    pub panels: Vec<PanelWithRect>,
    pub should_quit: bool,
    pub should_suspend: bool,
    pub mode: Mode,
    pub last_tick_key_events: Vec<KeyEvent>,
    pub actions: Vec<Action>,
}

pub open spec fn loop_state_of(app: App) -> LoopState {
    LoopState {
        quit: app.should_quit,
        susp: app.should_suspend,
        chord: app.last_tick_key_events@,
        panels: app.panels@,
    }
}

/// One whole iteration of the loop on `app` when `event` arrives: the
/// loop-global state after the drain and the backend work demanded.
pub open spec fn step_drain(app: App, event: Event) -> (LoopState, Seq<EffectKind>) {
    drain_all(
        LoopState {
            quit: app.should_quit,
            susp: app.should_suspend,
            chord: app_event_chord(
                app.config.keybindings@,
                app.mode,
                app.last_tick_key_events@,
                app.handler.state@,
                event,
            ),
            panels: app.panels@,
        },
        app.actions@ + opt_actions(
            app_event_action(
                app.config.keybindings@,
                app.mode,
                app.last_tick_key_events@,
                app.handler.state@,
                event,
            ),
        ),
    )
}

impl App {
    /// Builds the components and assigns each its region from the 10/40/50
    /// vertical split of the terminal size: the welcome panel on top, the
    /// counter panel at the bottom; the middle region is reserved for a
    /// caller-owned performance panel.
    pub fn generate_components_layout(size: Rect) -> (r: Vec<PanelWithRect>)
        requires
            size.y as int + size.height as int <= 65535,
        ensures
            r@.len() == 2,
            r@[0].panel == Panel::Home(Home {  }),
            r@[0].rect == split3_rects(size)[0],
            r@[0].slot == 0,
            r@[1].panel == Panel::Counter(Counter {  }),
            r@[1].rect == split3_rects(size)[2],
            r@[1].slot == 2,
    {
        let chunks = split_vertical(size);
        let mut r: Vec<PanelWithRect> = Vec::new();
        r.push(PanelWithRect { panel: Panel::Home(Home::new()), rect: chunks[0], slot: 0 });
        r.push(
            PanelWithRect { panel: Panel::Counter(Counter::new()), rect: chunks[2], slot: 2 },
        );
        r
    }

    /// A fresh application: initial shared state, empty configuration,
    /// empty queue, components laid out for the given terminal size.
    pub fn new(size: Rect) -> (r: App)
        requires
            size.y as int + size.height as int <= 65535,
        ensures
            app_wf(r),
            r.handler.state@.count == 0,
            r.handler.state@.amount == seq!['1'],
            !r.should_quit,
            !r.should_suspend,
            r.mode == Mode::Home,
            r.last_tick_key_events@ == Seq::<KeyEvent>::empty(),
            r.actions@ == Seq::<Action>::empty(),
            r.config.keybindings@ == Seq::<KeyBinding>::empty(),
            r.panels@.len() == 2,
            r.panels@[0].panel == Panel::Home(Home {  }),
            r.panels@[0].rect == split3_rects(size)[0],
            r.panels@[0].slot == 0,
            r.panels@[1].panel == Panel::Counter(Counter {  }),
            r.panels@[1].rect == split3_rects(size)[2],
            r.panels@[1].slot == 2,
    {
        let r = App {
            config: Config::new(),
            handler: EventHandler::new(crate::state::AppState::new()),
            panels: Self::generate_components_layout(size),
            should_quit: false,
            should_suspend: false,
            mode: Mode::Home,
            last_tick_key_events: Vec::new(),
            actions: Vec::new(),
        };
        proof {
            assert(r.last_tick_key_events@ =~= Seq::<KeyEvent>::empty());
            assert(r.actions@ =~= Seq::<Action>::empty());
        }
        r
    }

    /// Handles one key press: the configuration first, then the chord
    /// buffer, then the built-in mapping; the resulting action, if any,
    /// joins the queue.
    pub fn handle_key_event(&mut self, key: KeyEvent)
        ensures
            final(self).actions@ == old(self).actions@ + opt_actions(
                key_outcome(
                    old(self).config.keybindings@,
                    old(self).mode,
                    old(self).last_tick_key_events@,
                    old(self).handler.state@,
                    key,
                ).0,
            ),
            final(self).last_tick_key_events@ == key_outcome(
                old(self).config.keybindings@,
                old(self).mode,
                old(self).last_tick_key_events@,
                old(self).handler.state@,
                key,
            ).1,
            final(self).handler.state@ == key_outcome(
                old(self).config.keybindings@,
                old(self).mode,
                old(self).last_tick_key_events@,
                old(self).handler.state@,
                key,
            ).2,
            final(self).config == old(self).config,
            final(self).panels == old(self).panels,
            final(self).mode == old(self).mode,
            final(self).should_quit == old(self).should_quit,
            final(self).should_suspend == old(self).should_suspend,
    {
        let mut single: Vec<KeyEvent> = Vec::new();
        single.push(key);
        proof {
            assert(single@ =~= seq![key]);
        }
        match self.config.lookup(self.mode, &single) {
            Some(action) => {
                self.actions.push(action);
            },
            None => {
                self.last_tick_key_events.push(key);
                match self.config.lookup(self.mode, &self.last_tick_key_events) {
                    Some(action) => {
                        self.actions.push(action);
                    },
                    None => {
                        match self.handler.handle_key_event(key) {
                            Some(action) => {
                                self.actions.push(action);
                            },
                            None => {},
                        }
                    },
                }
            },
        }
    }

    /// Feeds one raw event into the pipeline: the global events enqueue
    /// their action, key presses go through `handle_key_event`, and the
    /// raw event is offered to every component's event hook.
    pub fn handle_events(&mut self, event: Event)
        ensures
            final(self).actions@ == old(self).actions@ + opt_actions(
                app_event_action(
                    old(self).config.keybindings@,
                    old(self).mode,
                    old(self).last_tick_key_events@,
                    old(self).handler.state@,
                    event,
                ),
            ),
            final(self).last_tick_key_events@ == app_event_chord(
                old(self).config.keybindings@,
                old(self).mode,
                old(self).last_tick_key_events@,
                old(self).handler.state@,
                event,
            ),
            final(self).handler.state@ == app_event_state(
                old(self).config.keybindings@,
                old(self).mode,
                old(self).last_tick_key_events@,
                old(self).handler.state@,
                event,
            ),
            final(self).config == old(self).config,
            final(self).panels == old(self).panels,
            final(self).mode == old(self).mode,
            final(self).should_quit == old(self).should_quit,
            final(self).should_suspend == old(self).should_suspend,
    {
        match &event {
            Event::Quit => {
                self.actions.push(Action::Quit);
            },
            Event::Tick => {
                self.actions.push(Action::Tick);
            },
            Event::Render => {
                self.actions.push(Action::Render);
            },
            Event::Resize(w, h) => {
                self.actions.push(Action::Resize(*w, *h));
            },
            Event::Key(key) => {
                self.handle_key_event(*key);
            },
            _ => {},
        }
        // offer the raw event to every component's event hook
        let ghost mid = *self;
        let mut i: usize = 0;
        while i < self.panels.len()
            invariant
                *self == mid,
            decreases self.panels@.len() - i,
        {
            let r = self.panels[i].panel.handle_event(&event);
            match r {
                Some(a) => {
                    self.actions.push(a);
                },
                None => {},
            }
            i += 1;
        }
    }

    /// Re-assigns every component the region of its slot in the split of
    /// the new size.
    fn resize_panel_regions(&mut self, width: u16, height: u16)
        requires
            app_wf(*old(self)),
        ensures
            final(self).panels@ == resize_panels_spec(
                old(self).panels@,
                Rect { x: 0, y: 0, width, height },
            ),
            app_wf(*final(self)),
            final(self).config == old(self).config,
            final(self).handler == old(self).handler,
            final(self).mode == old(self).mode,
            final(self).should_quit == old(self).should_quit,
            final(self).should_suspend == old(self).should_suspend,
            final(self).last_tick_key_events == old(self).last_tick_key_events,
            final(self).actions == old(self).actions,
    {
        let area = Rect { x: 0, y: 0, width, height };
        let chunks = split_vertical(area);
        let ghost orig = self.panels@;
        let mut renamed: Vec<PanelWithRect> = Vec::new();
        while self.panels.len() > 0
            invariant
                app_wf(*old(self)),
                chunks@ == split3_rects(area),
                chunks@.len() == 3,
                orig == old(self).panels@,
                renamed@.len() + self.panels@.len() == orig.len(),
                self.panels@ == orig.skip(renamed@.len() as int),
                renamed@ == resize_panels_spec(orig, area).take(renamed@.len() as int),
                self.config == old(self).config,
                self.handler == old(self).handler,
                self.mode == old(self).mode,
                self.should_quit == old(self).should_quit,
                self.should_suspend == old(self).should_suspend,
                self.last_tick_key_events == old(self).last_tick_key_events,
                self.actions == old(self).actions,
            decreases self.panels@.len(),
        {
            let ghost k = renamed@.len() as int;
            let p = self.panels.remove(0);
            proof {
                assert(orig.skip(k)[0] == orig[k]);
                assert(self.panels@ =~= orig.skip(k + 1));
                assert(orig[k].slot < 3);
            }
            let slot = p.slot;
            renamed.push(PanelWithRect { panel: p.panel, rect: chunks[slot], slot });
            proof {
                assert(renamed@ =~= resize_panels_spec(orig, area).take(k).push(
                    resize_panels_spec(orig, area)[k],
                ));
                assert(resize_panels_spec(orig, area).take(k).push(
                    resize_panels_spec(orig, area)[k],
                ) =~= resize_panels_spec(orig, area).take(k + 1));
            }
        }
        self.panels = renamed;
        proof {
            assert(final(self).panels@ =~= resize_panels_spec(orig, area));
        }
    }

    /// Draws every component from the current shared state. Failures are
    /// converted to `Error` actions for the queue (these components never
    /// fail); the draws that succeed are never discarded.
    fn render(&self) -> (r: (Vec<PanelDraw>, Vec<Action>))
        ensures
            plan_ok(r.0@, self.panels@, self.handler.state@),
            r.1@.len() == 0,
    {
        let mut results: Vec<Result<PanelView, String>> = Vec::new();
        let mut i: usize = 0;
        while i < self.panels.len()
            invariant
                0 <= i <= self.panels@.len(),
                results@.len() == i,
                forall|j: int|
                    0 <= j < i ==> (#[trigger] results@[j]) is Ok && self.panels@[j].panel.draw_spec(
                        results@[j]->Ok_0,
                        self.handler.state@,
                    ),
            decreases self.panels@.len() - i,
        {
            let dr = self.panels[i].panel.draw(&self.handler.state);
            results.push(dr);
            i += 1;
        }
        let ghost rs = results@;
        proof {
            lemma_all_ok(rs);
        }
        let (views, errs) = draw_errors_to_actions(results);
        proof {
            lemma_ok_views_all_ok(rs);
        }
        let mut plan: Vec<PanelDraw> = Vec::new();
        let mut views = views;
        let mut j: usize = 0;
        while views.len() > 0
            invariant
                j == plan@.len(),
                j + views@.len() == rs.len(),
                rs.len() <= usize::MAX,
                rs.len() == self.panels@.len(),
                views@ == all_ok_views(rs).skip(j as int),
                forall|t: int|
                    0 <= t < rs.len() ==> rs[t] is Ok && self.panels@[t].panel.draw_spec(
                        rs[t]->Ok_0,
                        self.handler.state@,
                    ),
                forall|t: int| 0 <= t < rs.len() ==> all_ok_views(rs)[t] == rs[t]->Ok_0,
                forall|t: int|
                    0 <= t < j ==> (#[trigger] plan@[t]).rect == self.panels@[t].rect
                        && self.panels@[t].panel.draw_spec(plan@[t].view, self.handler.state@),
            decreases views@.len(),
        {
            let v = views.remove(0);
            proof {
                assert(all_ok_views(rs).skip(j as int)[0]
                    == all_ok_views(rs)[j as int]);
            }
            let rect = self.panels[j].rect;
            plan.push(PanelDraw { view: v, rect });
            proof {
                assert(views@ =~= all_ok_views(rs).skip(j as int + 1));
            }
            j += 1;
        }
        (plan, errs)
    }

    /// Drains the action queue in arrival order: applies each action's
    /// global effect, forwards it to every component's update hook, and
    /// returns the backend work of the drain, in order.
    pub fn handle_actions(&mut self) -> (effects: Vec<Effect>)
        requires
            app_wf(*old(self)),
        ensures
            app_wf(*final(self)),
            final(self).actions@ == Seq::<Action>::empty(),
            loop_state_of(*final(self)) == drain_all(
                loop_state_of(*old(self)),
                old(self).actions@,
            ).0,
            effects_match(
                effects@,
                drain_all(loop_state_of(*old(self)), old(self).actions@).1,
                old(self).handler.state@,
            ),
            final(self).handler == old(self).handler,
            final(self).config == old(self).config,
            final(self).mode == old(self).mode,
    {
        let mut effects: Vec<Effect> = Vec::new();
        let ghost s0 = loop_state_of(*old(self));
        let ghost q0 = old(self).actions@;
        let ghost h0 = old(self).handler;
        let ghost c0 = old(self).config;
        let ghost m0 = old(self).mode;
        let ghost mut kinds: Seq<EffectKind> = Seq::<EffectKind>::empty();
        proof {
            assert(effects@ =~= Seq::<Effect>::empty());
            assert(kinds + drain_all(loop_state_of(*self), self.actions@).1 =~= drain_all(
                s0,
                q0,
            ).1);
        }
        while self.actions.len() > 0
            invariant
                app_wf(*self),
                self.handler == h0,
                self.config == c0,
                self.mode == m0,
                drain_all(s0, q0).0 == drain_all(loop_state_of(*self), self.actions@).0,
                drain_all(s0, q0).1 == kinds + drain_all(loop_state_of(*self), self.actions@).1,
                effects_match(effects@, kinds, h0.state@),
            decreases self.actions@.len(),
        {
            let ghost s_cur = loop_state_of(*self);
            let ghost q_cur = self.actions@;
            let action = self.actions.remove(0);
            proof {
                assert(q_cur[0] == action);
                assert(self.actions@ =~= q_cur.skip(1));
            }
            let ghost effs_pre = effects@;
            match &action {
                Action::Tick => {
                    self.last_tick_key_events = Vec::new();
                    proof {
                        assert(self.last_tick_key_events@ =~= Seq::<KeyEvent>::empty());
                    }
                },
                Action::Quit => {
                    self.should_quit = true;
                },
                Action::Suspend => {
                    self.should_suspend = true;
                },
                Action::Resume => {
                    self.should_suspend = false;
                },
                Action::ClearScreen => {
                    effects.push(Effect::ClearScreen);
                },
                Action::Resize(w, h) => {
                    self.resize_panel_regions(*w, *h);
                    effects.push(Effect::ResizeBackend(*w, *h));
                    let (plan, errs) = self.render();
                    effects.push(Effect::Draw(plan));
                    let mut errs = errs;
                    let ghost snap = *self;
                    while errs.len() > 0
                        invariant
                            errs@.len() == 0,
                            *self == snap,
                        decreases errs@.len(),
                    {
                        let e = errs.remove(0);
                        self.actions.push(e);
                    }
                },
                Action::Render => {
                    let (plan, errs) = self.render();
                    effects.push(Effect::Draw(plan));
                    let mut errs = errs;
                    let ghost snap = *self;
                    while errs.len() > 0
                        invariant
                            errs@.len() == 0,
                            *self == snap,
                        decreases errs@.len(),
                    {
                        let e = errs.remove(0);
                        self.actions.push(e);
                    }
                },
                _ => {},
            }
            proof {
                let d = drain_step(s_cur, action);
                assert(loop_state_of(*self) == d.0);
                assert(drain_all(s_cur, q_cur).0 == drain_all(d.0, q_cur.skip(1)).0);
                assert(drain_all(s_cur, q_cur).1 == d.1 + drain_all(d.0, q_cur.skip(1)).1);
                if d.1.len() == 0 {
                    assert(effects@ == effs_pre);
                    assert(kinds + d.1 =~= kinds);
                } else if d.1.len() == 1 {
                    lemma_effects_match_push(effs_pre, kinds, effects@[effs_pre.len() as int], d.1[0], h0.state@);
                    assert(effects@ =~= effs_pre.push(effects@[effs_pre.len() as int]));
                    assert(kinds.push(d.1[0]) =~= kinds + d.1);
                } else {
                    assert(d.1.len() == 2);
                    let e0 = effects@[effs_pre.len() as int];
                    let e1 = effects@[effs_pre.len() as int + 1];
                    lemma_effects_match_push(effs_pre, kinds, e0, d.1[0], h0.state@);
                    lemma_effects_match_push(effs_pre.push(e0), kinds.push(d.1[0]), e1, d.1[1], h0.state@);
                    assert(effects@ =~= effs_pre.push(e0).push(e1));
                    assert(kinds.push(d.1[0]).push(d.1[1]) =~= kinds + d.1);
                }
                kinds = kinds + d.1;
                assert(kinds + drain_all(loop_state_of(*self), self.actions@).1 =~= drain_all(
                    s0,
                    q0,
                ).1);
            }
            // forward the action to every component's update hook
            let ghost mid = *self;
            let ghost effs_mid = effects@;
            let mut i: usize = 0;
            while i < self.panels.len()
                invariant
                    *self == mid,
                decreases self.panels@.len() - i,
            {
                let r = self.panels[i].panel.update(&action);
                match r {
                    Some(a) => {
                        self.actions.push(a);
                    },
                    None => {},
                }
                i += 1;
            }
        }
        proof {
            assert(drain_all(loop_state_of(*self), self.actions@).0 == loop_state_of(*self));
            assert(drain_all(loop_state_of(*self), self.actions@).1 =~= Seq::<EffectKind>::empty());
            assert(kinds =~= drain_all(s0, q0).1);
            assert(self.actions@ =~= Seq::<Action>::empty());
        }
        effects
    }

    /// One iteration of the loop: feed the event in, drain the queue, and
    /// decide how to go on. Returns the backend work of the iteration and
    /// whether the loop is done (`Quit` was reached). After a `Suspend`
    /// the backend is released and re-acquired, and `Resume` and
    /// `ClearScreen` are queued for the next iteration.
    pub fn step(&mut self, event: Event) -> (r: (Vec<Effect>, bool))
        requires
            app_wf(*old(self)),
        ensures
            app_wf(*final(self)),
            final(self).handler.state@ == app_event_state(
                old(self).config.keybindings@,
                old(self).mode,
                old(self).last_tick_key_events@,
                old(self).handler.state@,
                event,
            ),
            loop_state_of(*final(self)) == step_drain(*old(self), event).0,
            r.1 == (!step_drain(*old(self), event).0.susp && step_drain(*old(self), event).0.quit),
            step_drain(*old(self), event).0.susp ==> final(self).actions@ == seq![
                Action::Resume,
                Action::ClearScreen,
            ] && effects_match(
                r.0@,
                step_drain(*old(self), event).1 + seq![EffectKind::SuspendB, EffectKind::EnterB],
                app_event_state(
                    old(self).config.keybindings@,
                    old(self).mode,
                    old(self).last_tick_key_events@,
                    old(self).handler.state@,
                    event,
                ),
            ),
            !step_drain(*old(self), event).0.susp ==> final(self).actions@ == Seq::<
                Action,
            >::empty() && effects_match(
                r.0@,
                step_drain(*old(self), event).1,
                app_event_state(
                    old(self).config.keybindings@,
                    old(self).mode,
                    old(self).last_tick_key_events@,
                    old(self).handler.state@,
                    event,
                ),
            ),
            final(self).config == old(self).config,
            final(self).mode == old(self).mode,
    {
        self.handle_events(event);
        proof {
            assert(drain_all(loop_state_of(*self), self.actions@) == step_drain(
                *old(self),
                event,
            )) by {
                assert(loop_state_of(*self) == (LoopState {
                    quit: old(self).should_quit,
                    susp: old(self).should_suspend,
                    chord: app_event_chord(
                        old(self).config.keybindings@,
                        old(self).mode,
                        old(self).last_tick_key_events@,
                        old(self).handler.state@,
                        event,
                    ),
                    panels: old(self).panels@,
                }));
            }
        }
        let mut effects = self.handle_actions();
        let mut done = false;
        if self.should_suspend {
            let ghost effs_pre = effects@;
            let ghost kinds_pre = step_drain(*old(self), event).1;
            effects.push(Effect::SuspendBackend);
            self.actions.push(Action::Resume);
            self.actions.push(Action::ClearScreen);
            effects.push(Effect::EnterBackend);
            proof {
                let m1 = app_event_state(
                    old(self).config.keybindings@,
                    old(self).mode,
                    old(self).last_tick_key_events@,
                    old(self).handler.state@,
                    event,
                );
                lemma_effects_match_push(effs_pre, kinds_pre, Effect::SuspendBackend, EffectKind::SuspendB, m1);
                lemma_effects_match_push(
                    effs_pre.push(Effect::SuspendBackend),
                    kinds_pre.push(EffectKind::SuspendB),
                    Effect::EnterBackend,
                    EffectKind::EnterB,
                    m1,
                );
                assert(effects@ =~= effs_pre.push(Effect::SuspendBackend).push(
                    Effect::EnterBackend,
                ));
                assert(kinds_pre.push(EffectKind::SuspendB).push(EffectKind::EnterB) =~= kinds_pre
                    + seq![EffectKind::SuspendB, EffectKind::EnterB]);
                assert(self.actions@ =~= seq![Action::Resume, Action::ClearScreen]);
            }
        } else if self.should_quit {
            done = true;
        }
        (effects, done)
    }
}

/// From any state with nothing pending in the queue and no binding
/// configured, pressing `q` with no modifiers quits within the same
/// iteration: the drain reaches the terminal `Quit` state and the
/// iteration demands no draw pass.
pub proof fn lemma_quit_on_q(app: App, mods: crate::event::KeyModifiers)
    requires
        app.actions@ == Seq::<Action>::empty(),
        app.config.keybindings@ == Seq::<KeyBinding>::empty(),
        !app.should_suspend,
        mods.is_empty_spec(),
    ensures
        ({
            let d = step_drain(
                app,
                Event::Key(KeyEvent { code: crate::event::KeyCode::Char('q'), modifiers: mods }),
            );
            d.0.quit && !d.0.susp && forall|i: int| 0 <= i < d.1.len() ==> !(d.1[i] is DrawPass)
        }),
{
    let key = KeyEvent { code: crate::event::KeyCode::Char('q'), modifiers: mods };
    let bs = app.config.keybindings@;
    let m = app.handler.state@;
    assert(lookup_binding(bs, app.mode, seq![key]) is None);
    let chord2 = app.last_tick_key_events@.push(key);
    assert(lookup_binding(bs, app.mode, chord2) is None);
    assert(builtin_key_action(key) == Some(Action::Quit));
    assert(key_outcome(bs, app.mode, app.last_tick_key_events@, m, key).0 == Some(Action::Quit));
    let event = Event::Key(key);
    let q1 = app.actions@ + opt_actions(Some(Action::Quit));
    assert(q1 =~= seq![Action::Quit]);
    let s1 = LoopState {
        quit: app.should_quit,
        susp: app.should_suspend,
        chord: chord2,
        panels: app.panels@,
    };
    assert(step_drain(app, event) == drain_all(s1, q1));
    assert(q1[0] == Action::Quit);
    assert(q1.skip(1) =~= Seq::<Action>::empty());
    let s2 = drain_step(s1, Action::Quit).0;
    assert(s2.quit && !s2.susp);
    assert(drain_all(s2, q1.skip(1)) == (s2, Seq::<EffectKind>::empty()));
    assert(drain_all(s1, q1).1 =~= Seq::<EffectKind>::empty());
}

/// A resize event, with nothing else pending, demands exactly a backend
/// resize followed by exactly one draw pass, and that pass draws into the
/// regions of the split of the new size.
pub proof fn lemma_resize_renders_once(app: App, w: u16, h: u16)
    requires
        app.actions@ == Seq::<Action>::empty(),
    ensures
        ({
            let d = step_drain(app, Event::Resize(w, h));
            let resized = resize_panels_spec(app.panels@, Rect { x: 0, y: 0, width: w, height: h });
            d.0.panels == resized && d.1 =~= seq![
                EffectKind::ResizeTo(w, h),
                EffectKind::DrawPass(resized),
            ]
        }),
{
    let event = Event::Resize(w, h);
    let q1 = app.actions@ + opt_actions(Some(Action::Resize(w, h)));
    assert(q1 =~= seq![Action::Resize(w, h)]);
    let s1 = LoopState {
        quit: app.should_quit,
        susp: app.should_suspend,
        chord: app.last_tick_key_events@,
        panels: app.panels@,
    };
    assert(step_drain(app, event) == drain_all(s1, q1));
    assert(q1[0] == Action::Resize(w, h));
    assert(q1.skip(1) =~= Seq::<Action>::empty());
    let d1 = drain_step(s1, Action::Resize(w, h));
    assert(drain_all(d1.0, q1.skip(1)) == (d1.0, Seq::<EffectKind>::empty()));
    assert(drain_all(s1, q1).1 =~= d1.1);
}

/// The successful views of an all-successful result sequence, one per
/// entry.
pub open spec fn all_ok_views(rs: Seq<Result<PanelView, String>>) -> Seq<
    PanelView,
> {
    Seq::new(rs.len(), |i: int| rs[i]->Ok_0)
}

proof fn lemma_ok_views_all_ok(rs: Seq<Result<PanelView, String>>)
    requires
        forall|j: int| 0 <= j < rs.len() ==> rs[j] is Ok,
    ensures
        crate::components::ok_views(rs) == all_ok_views(rs),
    decreases rs.len(),
{
    if rs.len() > 0 {
        lemma_ok_views_all_ok(rs.skip(1));
        assert(crate::components::ok_views(rs) =~= all_ok_views(rs)) by {
            assert(crate::components::ok_views(rs) == seq![rs[0]->Ok_0]
                + crate::components::ok_views(rs.skip(1)));
            assert(forall|i: int|
                0 <= i < rs.skip(1).len() ==> all_ok_views(rs.skip(1))[i] == rs[
                    i + 1
                ]->Ok_0);
        }
    } else {
        assert(crate::components::ok_views(rs) =~= all_ok_views(rs));
    }
}

} // verus!
