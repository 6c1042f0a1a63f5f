use screen_tune::startup::{MockStartup, StartupBackend};

#[test]
fn mock_startup_toggles() {
    let mut backend = MockStartup::default();
    assert!(!backend.is_enabled());
    backend.set_enabled(true).unwrap();
    assert!(backend.is_enabled());
    backend.set_enabled(false).unwrap();
    assert!(!backend.is_enabled());
}
