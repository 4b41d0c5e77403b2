use pty_sessions::error::AppError;
use pty_sessions::registry::{get_control, remove_control, PtyState, SessionControl};

fn control(handle: u32) -> SessionControl<u32> {
    SessionControl { handle, stop_requested: false }
}

#[test]
fn new_registry_knows_no_session() {
    let state: PtyState<u32> = PtyState::new();
    assert!(!state.is_poisoned());
    assert_eq!(get_control(&state, "a"), Err(AppError::SessionNotFound));
}

#[test]
fn default_registry_is_empty() {
    let state: PtyState<u32> = PtyState::default();
    assert!(!state.is_poisoned());
    assert_eq!(get_control(&state, ""), Err(AppError::SessionNotFound));
}

#[test]
fn insert_then_get() {
    let mut state = PtyState::new();
    assert_eq!(state.insert("a".to_string(), control(1)), Ok(()));
    assert_eq!(state.insert("b".to_string(), control(2)), Ok(()));
    assert_eq!(get_control(&state, "a"), Ok(&control(1)));
    assert_eq!(get_control(&state, "b"), Ok(&control(2)));
    assert_eq!(get_control(&state, "c"), Err(AppError::SessionNotFound));
}

#[test]
fn insert_replaces_prior_entry() {
    let mut state = PtyState::new();
    state.insert("a".to_string(), control(1)).unwrap();
    state.insert("a".to_string(), control(9)).unwrap();
    assert_eq!(get_control(&state, "a"), Ok(&control(9)));
    assert_eq!(remove_control(&mut state, "a"), Ok(Some(control(9))));
    assert_eq!(get_control(&state, "a"), Err(AppError::SessionNotFound));
}

#[test]
fn ids_are_compared_exactly() {
    let mut state = PtyState::new();
    state.insert("run".to_string(), control(1)).unwrap();
    assert_eq!(get_control(&state, "Run"), Err(AppError::SessionNotFound));
    assert_eq!(get_control(&state, "run "), Err(AppError::SessionNotFound));
    assert_eq!(get_control(&state, ""), Err(AppError::SessionNotFound));
}

#[test]
fn empty_id_is_an_id() {
    let mut state = PtyState::new();
    state.insert(String::new(), control(5)).unwrap();
    assert_eq!(get_control(&state, ""), Ok(&control(5)));
}

#[test]
fn remove_hands_back_the_control() {
    let mut state = PtyState::new();
    state.insert("a".to_string(), control(1)).unwrap();
    state.insert("b".to_string(), control(2)).unwrap();
    state.insert("c".to_string(), control(3)).unwrap();
    assert_eq!(remove_control(&mut state, "b"), Ok(Some(control(2))));
    assert_eq!(get_control(&state, "a"), Ok(&control(1)));
    assert_eq!(get_control(&state, "b"), Err(AppError::SessionNotFound));
    assert_eq!(get_control(&state, "c"), Ok(&control(3)));
}

#[test]
fn remove_is_idempotent() {
    let mut state = PtyState::new();
    state.insert("a".to_string(), control(1)).unwrap();
    assert_eq!(remove_control(&mut state, "a"), Ok(Some(control(1))));
    assert_eq!(remove_control(&mut state, "a"), Ok(None));
    assert_eq!(remove_control(&mut state, "never"), Ok(None));
}

#[test]
fn poisoned_registry_refuses_everything() {
    let mut state = PtyState::new();
    state.insert("a".to_string(), control(1)).unwrap();
    state.mark_poisoned();
    assert!(state.is_poisoned());
    assert_eq!(get_control(&state, "a"), Err(AppError::StatePoisoned));
    assert_eq!(get_control(&state, "zzz"), Err(AppError::StatePoisoned));
    assert_eq!(remove_control(&mut state, "a"), Err(AppError::StatePoisoned));
    assert_eq!(state.insert("b".to_string(), control(2)), Err(AppError::StatePoisoned));
}
