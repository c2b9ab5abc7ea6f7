use counter_tui::action::Action;
use counter_tui::event::{Event, KeyCode, KeyEvent, KeyModifiers};
use counter_tui::event_handler::EventHandler;
use counter_tui::state::AppState;

fn key(code: KeyCode) -> KeyEvent {
    KeyEvent { code, modifiers: KeyModifiers::none() }
}

fn ctrl(code: KeyCode) -> KeyEvent {
    KeyEvent { code, modifiers: KeyModifiers::control_only() }
}

fn handler() -> EventHandler {
    EventHandler::new(AppState::new())
}

#[test]
fn quit_and_help_bindings() {
    let mut h = handler();
    assert_eq!(h.handle_key_event(key(KeyCode::Char('q'))), Some(Action::Quit));
    assert_eq!(h.handle_key_event(key(KeyCode::Char('h'))), Some(Action::Help));
    assert_eq!(h.handle_key_event(key(KeyCode::Esc)), Some(Action::Quit));
}

#[test]
fn control_bindings() {
    let mut h = handler();
    assert_eq!(h.handle_key_event(ctrl(KeyCode::Char('c'))), Some(Action::Quit));
    assert_eq!(h.handle_key_event(ctrl(KeyCode::Char('r'))), Some(Action::Refresh));
    // `q` with Control held is not a binding: the unmodified `q` binding
    // requires an empty modifier set, and Control+`q` is not Control+`c`
    // or Control+`r`.
    assert_eq!(h.handle_key_event(ctrl(KeyCode::Char('q'))), None);
}

#[test]
fn unbound_keys_map_to_nothing() {
    let mut h = handler();
    assert_eq!(h.handle_key_event(key(KeyCode::Char('x'))), None);
    assert_eq!(h.handle_key_event(key(KeyCode::Other)), None);
    assert_eq!(h.handle_key_event(ctrl(KeyCode::Other)), None);
    assert_eq!(h.state.get_count(), 0);
    assert_eq!(h.state.get_amount(), "1");
}

#[test]
fn arrow_keys_mutate_state_and_render() {
    let mut h = handler();
    assert_eq!(h.handle_key_event(key(KeyCode::Right)), Some(Action::Render));
    assert_eq!(h.state.get_count(), 1);
    assert_eq!(h.handle_key_event(key(KeyCode::Left)), Some(Action::Render));
    assert_eq!(h.state.get_count(), 0);
    assert_eq!(h.handle_key_event(key(KeyCode::Up)), Some(Action::Render));
    assert_eq!(h.state.get_amount(), "2");
    assert_eq!(h.handle_key_event(key(KeyCode::Down)), Some(Action::Render));
    assert_eq!(h.state.get_amount(), "1");
}

#[test]
fn control_arrow_behaves_like_plain_arrow() {
    // The arrow keys are matched before the modifiers are looked at.
    let mut h = handler();
    assert_eq!(h.handle_key_event(ctrl(KeyCode::Left)), Some(Action::Render));
    assert_eq!(h.state.get_count(), -1);
    assert_eq!(h.handle_key_event(ctrl(KeyCode::Up)), Some(Action::Render));
    assert_eq!(h.state.get_amount(), "2");
}

#[test]
fn events_map_to_actions() {
    let mut h = handler();
    assert_eq!(h.handle(Event::Tick), Some(Action::Tick));
    assert_eq!(h.handle(Event::Render), Some(Action::Render));
    assert_eq!(h.handle(Event::Resize(80, 24)), Some(Action::Resize(80, 24)));
    assert_eq!(h.handle(Event::Mouse), None);
    assert_eq!(h.handle(Event::Quit), None);
    assert_eq!(h.handle(Event::FocusGained), None);
    assert_eq!(h.handle(Event::Paste("text".to_string())), None);
    assert_eq!(h.handle(Event::Key(key(KeyCode::Char('q')))), Some(Action::Quit));
}

#[test]
fn counter_scenario() {
    // Start at {count: 0, amount: "1"}; Up twice makes the amount "3";
    // Right adds 3; Left takes it back; Down four times floors at "1".
    let mut h = handler();
    h.handle_key_event(key(KeyCode::Up));
    h.handle_key_event(key(KeyCode::Up));
    assert_eq!(h.state.get_amount(), "3");
    h.handle_key_event(key(KeyCode::Right));
    assert_eq!(h.state.get_count(), 3);
    h.handle_key_event(key(KeyCode::Left));
    assert_eq!(h.state.get_count(), 0);
    h.handle_key_event(key(KeyCode::Down));
    assert_eq!(h.state.get_amount(), "2");
    h.handle_key_event(key(KeyCode::Down));
    assert_eq!(h.state.get_amount(), "1");
    h.handle_key_event(key(KeyCode::Down));
    assert_eq!(h.state.get_amount(), "1");
    h.handle_key_event(key(KeyCode::Down));
    assert_eq!(h.state.get_amount(), "1");
}
