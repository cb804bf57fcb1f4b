use tyrnak_engine::lifecycle::{AppLifecycle, AppState};

#[test]
fn starts_in_init() {
    let lifecycle = AppLifecycle::new();
    assert_eq!(lifecycle.state(), AppState::Init);
    assert!(!lifecycle.is_running());
    assert!(!lifecycle.should_quit());
}

#[test]
fn init_to_running() {
    let mut lifecycle = AppLifecycle::new();
    lifecycle.start();
    assert_eq!(lifecycle.state(), AppState::Running);
    assert!(lifecycle.is_running());
}

#[test]
fn running_to_paused() {
    let mut lifecycle = AppLifecycle::new();
    lifecycle.start();
    lifecycle.pause();
    assert_eq!(lifecycle.state(), AppState::Paused);
    assert!(!lifecycle.is_running());
}

#[test]
fn paused_to_running() {
    let mut lifecycle = AppLifecycle::new();
    lifecycle.start();
    lifecycle.pause();
    lifecycle.resume();
    assert_eq!(lifecycle.state(), AppState::Running);
    assert!(lifecycle.is_running());
}

#[test]
fn shutdown_from_any_state() {
    // From Init
    let mut lifecycle = AppLifecycle::new();
    lifecycle.shutdown();
    assert_eq!(lifecycle.state(), AppState::ShuttingDown);
    assert!(lifecycle.should_quit());

    // From Running
    let mut lifecycle = AppLifecycle::new();
    lifecycle.start();
    lifecycle.shutdown();
    assert_eq!(lifecycle.state(), AppState::ShuttingDown);

    // From Paused
    let mut lifecycle = AppLifecycle::new();
    lifecycle.start();
    lifecycle.pause();
    lifecycle.shutdown();
    assert_eq!(lifecycle.state(), AppState::ShuttingDown);
}

#[test]
fn start_from_running_is_noop() {
    let mut lifecycle = AppLifecycle::new();
    lifecycle.start();
    lifecycle.start(); // should be a no-op
    assert_eq!(lifecycle.state(), AppState::Running);
}

#[test]
fn pause_from_init_is_noop() {
    let mut lifecycle = AppLifecycle::new();
    lifecycle.pause(); // should be a no-op
    assert_eq!(lifecycle.state(), AppState::Init);
}

#[test]
fn resume_from_running_is_noop() {
    let mut lifecycle = AppLifecycle::new();
    lifecycle.start();
    lifecycle.resume(); // should be a no-op
    assert_eq!(lifecycle.state(), AppState::Running);
}

#[test]
fn shutdown_twice_is_noop() {
    let mut lifecycle = AppLifecycle::new();
    lifecycle.shutdown();
    lifecycle.shutdown(); // should be a no-op
    assert_eq!(lifecycle.state(), AppState::ShuttingDown);
}

#[test]
fn start_from_paused_is_noop() {
    let mut lifecycle = AppLifecycle::new();
    lifecycle.start();
    lifecycle.pause();
    lifecycle.start(); // should be a no-op, only Init -> Running
    assert_eq!(lifecycle.state(), AppState::Paused);
}

#[test]
fn shutdown_is_final_for_every_request() {
    let mut lifecycle = AppLifecycle::default();
    lifecycle.shutdown();
    lifecycle.start();
    lifecycle.pause();
    lifecycle.resume();
    assert_eq!(lifecycle.state(), AppState::ShuttingDown);
    assert!(lifecycle.should_quit());
    assert!(!lifecycle.is_running());
}

#[test]
fn resume_from_init_is_noop() {
    let mut lifecycle = AppLifecycle::new();
    lifecycle.resume();
    assert_eq!(lifecycle.state(), AppState::Init);
}

#[test]
fn pause_then_resume_round_trip() {
    let mut lifecycle = AppLifecycle::new();
    lifecycle.start();
    lifecycle.pause();
    lifecycle.pause();
    assert_eq!(lifecycle.state(), AppState::Paused);
    lifecycle.resume();
    lifecycle.resume();
    assert_eq!(lifecycle.state(), AppState::Running);
}
