use counter_tui::action::Action;
use counter_tui::app::{App, Config, Effect, KeyBinding, Mode};
use counter_tui::components::{draw_errors_to_actions, Panel, PanelView};
use counter_tui::components::counter::Counter;
use counter_tui::components::home::Home;
use counter_tui::event::{Event, KeyCode, KeyEvent, KeyModifiers};
use counter_tui::layout::{split_vertical, Rect};

fn key_event(code: KeyCode) -> Event {
    Event::Key(KeyEvent { code, modifiers: KeyModifiers::none() })
}

fn term() -> Rect {
    Rect { x: 0, y: 0, width: 80, height: 24 }
}

fn draw_count(effects: &[Effect]) -> usize {
    effects.iter().filter(|e| matches!(e, Effect::Draw(_))).count()
}

#[test]
fn layout_split_is_10_40_50() {
    let chunks = split_vertical(term());
    assert_eq!(chunks.len(), 3);
    // 10% of 24 rounds down to 2, 40% to 9, the rest is 13.
    assert_eq!((chunks[0].y, chunks[0].height), (0, 2));
    assert_eq!((chunks[1].y, chunks[1].height), (2, 9));
    assert_eq!((chunks[2].y, chunks[2].height), (11, 13));
    assert!(chunks.iter().all(|c| c.x == 0 && c.width == 80));
}

#[test]
fn new_app_panels_and_regions() {
    let app = App::new(term());
    assert_eq!(app.panels.len(), 2);
    assert!(matches!(app.panels[0].panel, Panel::Home(_)));
    assert!(matches!(app.panels[1].panel, Panel::Counter(_)));
    let chunks = split_vertical(term());
    assert_eq!(app.panels[0].rect, chunks[0]);
    assert_eq!(app.panels[1].rect, chunks[2]);
}

#[test]
fn quit_key_quits_within_one_iteration() {
    let mut app = App::new(term());
    let (effects, done) = app.step(key_event(KeyCode::Char('q')));
    assert!(done);
    assert!(app.should_quit);
    // no further render pass is processed in the iteration
    assert_eq!(draw_count(&effects), 0);
    assert!(app.actions.is_empty());
}

#[test]
fn resize_resizes_backend_and_renders_once() {
    let mut app = App::new(term());
    let (effects, done) = app.step(Event::Resize(100, 40));
    assert!(!done);
    assert_eq!(effects.len(), 2);
    assert!(matches!(effects[0], Effect::ResizeBackend(100, 40)));
    let plan = match &effects[1] {
        Effect::Draw(plan) => plan,
        _ => panic!("expected a draw pass"),
    };
    // regions reflect the 10/40/50 split of the new size
    let chunks = split_vertical(Rect { x: 0, y: 0, width: 100, height: 40 });
    assert_eq!((chunks[0].height, chunks[1].height, chunks[2].height), (4, 16, 20));
    assert_eq!(plan.len(), 2);
    assert_eq!(plan[0].rect, chunks[0]);
    assert_eq!(plan[1].rect, chunks[2]);
    assert_eq!(app.panels[0].rect, chunks[0]);
    assert_eq!(app.panels[1].rect, chunks[2]);
}

#[test]
fn render_event_draws_current_state() {
    let mut app = App::new(term());
    app.step(key_event(KeyCode::Up));
    app.step(key_event(KeyCode::Right));
    let (effects, _) = app.step(Event::Render);
    assert_eq!(draw_count(&effects), 1);
    let plan = match &effects[effects.len() - 1] {
        Effect::Draw(plan) => plan,
        _ => panic!("expected a draw pass"),
    };
    // the welcome panel first, the counter panel second
    assert_eq!(plan[0].view.lines[1], "Current counter: 2");
    assert_eq!(plan[0].view.lines[2], "Current increment amount: 2");
    assert_eq!(plan[1].view.lines[0], "Count: 2");
    assert_eq!(plan[1].view.lines[1], "2");
}

#[test]
fn tick_clears_chord_buffer() {
    let mut app = App::new(term());
    app.step(key_event(KeyCode::Char('x')));
    assert_eq!(app.last_tick_key_events.len(), 1);
    app.step(Event::Tick);
    assert!(app.last_tick_key_events.is_empty());
}

#[test]
fn configured_binding_wins_and_suspend_resumes() {
    let mut app = App::new(term());
    app.config = Config {
        keybindings: vec![KeyBinding {
            mode: Mode::Home,
            keys: vec![KeyEvent { code: KeyCode::Char('s'), modifiers: KeyModifiers::none() }],
            action: Action::Suspend,
        }],
    };
    let (effects, done) = app.step(key_event(KeyCode::Char('s')));
    assert!(!done);
    assert!(app.should_suspend);
    assert!(matches!(effects[effects.len() - 2], Effect::SuspendBackend));
    assert!(matches!(effects[effects.len() - 1], Effect::EnterBackend));
    // the forced follow-up actions wait in the queue
    assert_eq!(app.actions, vec![Action::Resume, Action::ClearScreen]);
    let (effects, done) = app.step(Event::Mouse);
    assert!(!done);
    assert!(!app.should_suspend);
    assert!(matches!(effects[0], Effect::ClearScreen));
}

#[test]
fn one_draw_failure_yields_one_error_action() {
    let state = counter_tui::state::AppState::new();
    let home = Home::new().draw(&state).unwrap();
    let counter = Counter::new().draw(&state).unwrap();
    let results: Vec<Result<PanelView, String>> =
        vec![Ok(home), Err("boom".to_string()), Ok(counter)];
    let (views, actions) = draw_errors_to_actions(results);
    // exactly one error action, and both healthy panels still drew
    assert_eq!(actions.len(), 1);
    assert_eq!(actions[0], Action::Error("Failed to draw: boom".to_string()));
    assert_eq!(views.len(), 2);
    assert_eq!(views[0].lines[0], "Welcome to Ratatui Domic");
    assert_eq!(views[1].lines[0], "Count: 0");
}

#[test]
fn home_and_counter_views() {
    let mut state = counter_tui::state::AppState::new();
    state.set_count(7);
    state.set_amount("3".to_string());
    let home = Home::new().draw(&state).unwrap();
    assert_eq!(
        home.lines,
        vec![
            "Welcome to Ratatui Domic".to_string(),
            "Current counter: 7".to_string(),
            "Current increment amount: 3".to_string(),
        ]
    );
    let counter = Counter::new().draw(&state).unwrap();
    assert_eq!(
        counter.lines,
        vec![
            "Count: 7".to_string(),
            "3".to_string(),
            "Increment by 3".to_string(),
            "Decrement by 3".to_string(),
        ]
    );
}
