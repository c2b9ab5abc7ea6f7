use counter_tui::state::AppState;

#[test]
fn initial_state() {
    let state = AppState::new();
    assert_eq!(state.get_count(), 0);
    assert_eq!(state.get_amount(), "1");
}

#[test]
fn count_saturates_at_max() {
    let mut state = AppState::new();
    state.set_count(i32::MAX);
    state.set_amount("5".to_string());
    state.increment_count();
    assert_eq!(state.get_count(), i32::MAX);
    state.increment_count();
    assert_eq!(state.get_count(), i32::MAX);
}

#[test]
fn count_saturates_at_min() {
    let mut state = AppState::new();
    state.set_count(i32::MIN);
    state.set_amount("2147483647".to_string());
    state.decrement_count();
    assert_eq!(state.get_count(), i32::MIN);
    state.decrement_count();
    assert_eq!(state.get_count(), i32::MIN);
}

#[test]
fn decrement_amount_idempotent_at_floor() {
    let mut state = AppState::new();
    assert_eq!(state.get_amount(), "1");
    state.decrement_amount();
    assert_eq!(state.get_amount(), "1");
    state.decrement_amount();
    state.decrement_amount();
    assert_eq!(state.get_amount(), "1");
}

#[test]
fn amount_round_trip() {
    let mut state = AppState::new();
    for x in ["0042", "-7", "1", "2147483647", "99999999999999999999"] {
        state.set_amount(x.to_string());
        assert_eq!(state.get_amount(), x);
    }
}

#[test]
fn increment_uses_current_amount() {
    let mut state = AppState::new();
    state.set_amount("5".to_string());
    state.increment_count();
    assert_eq!(state.get_count(), 5);
    state.set_amount("3".to_string());
    state.increment_count();
    assert_eq!(state.get_count(), 8);
}

#[test]
fn plus_prefixed_amount_parses() {
    let mut state = AppState::new();
    state.set_amount("+5".to_string());
    assert_eq!(state.get_amount(), "+5");
    state.increment_count();
    assert_eq!(state.get_count(), 5);
    state.decrement_count();
    assert_eq!(state.get_count(), 0);
    state.increment_amount();
    assert_eq!(state.get_amount(), "6");
    state.set_amount("+5".to_string());
    state.decrement_amount();
    assert_eq!(state.get_amount(), "4");
}

#[test]
fn unparsable_amount_counts_as_one() {
    let mut state = AppState::new();
    state.set_amount("not a number".to_string());
    state.increment_count();
    assert_eq!(state.get_count(), 1);
    state.decrement_count();
    assert_eq!(state.get_count(), 0);
}

#[test]
fn increment_amount_restringifies() {
    let mut state = AppState::new();
    state.increment_amount();
    assert_eq!(state.get_amount(), "2");
    state.set_amount("9".to_string());
    state.increment_amount();
    assert_eq!(state.get_amount(), "10");
}
