use screen_tune::common::DisplayParams;
use screen_tune::ui::session::Session;

fn ids(v: &[&str]) -> Vec<String> {
    v.iter().map(|s| s.to_string()).collect()
}

fn dim() -> DisplayParams {
    DisplayParams { brightness_bits: 40.0f32.to_bits(), ..DisplayParams::default() }
}

fn warm() -> DisplayParams {
    DisplayParams { temperature_k: 4000, ..DisplayParams::default() }
}

#[test]
fn new_session_remembers_nothing() {
    let s = Session::new();
    assert!(s.entries().is_empty());
    assert_eq!(s.last_profile_id(), None);
    assert_eq!(s.current_profile(), None);
    assert_eq!(s.params_for("mock-0"), None);
}

#[test]
fn saved_session_keeps_last_entry_per_monitor() {
    let saved = vec![("a".to_string(), dim()), ("b".to_string(), warm()), ("a".to_string(), warm())];
    let s = Session::from_saved(&saved, Some("night".to_string()));
    assert_eq!(s.entries().len(), 2);
    assert_eq!(s.params_for("a"), Some(warm()));
    assert_eq!(s.params_for("b"), Some(warm()));
    assert_eq!(s.last_profile_id(), Some("night".to_string()));
    assert_eq!(s.current_profile(), None);
}

#[test]
fn profile_applied_to_every_monitor() {
    let mut s = Session::new();
    s.remember("old", dim());
    s.profile_applied(&ids(&["a", "b"]), warm(), "night", true);
    assert_eq!(s.params_for("a"), Some(warm()));
    assert_eq!(s.params_for("b"), Some(warm()));
    assert_eq!(s.params_for("old"), Some(dim()));
    assert_eq!(s.last_profile_id(), Some("night".to_string()));
    assert_eq!(s.current_profile(), Some("night".to_string()));
}

#[test]
fn automatic_switch_keeps_last_profile() {
    let mut s = Session::from_saved(&[], Some("office".to_string()));
    s.profile_applied(&ids(&["a"]), dim(), "cs2", false);
    assert_eq!(s.last_profile_id(), Some("office".to_string()));
    assert_eq!(s.current_profile(), Some("cs2".to_string()));
}

#[test]
fn manual_adjustment_leaves_profile() {
    let mut s = Session::new();
    s.profile_applied(&ids(&["a", "b"]), warm(), "night", true);
    s.monitor_adjusted("a", dim());
    assert_eq!(s.params_for("a"), Some(dim()));
    assert_eq!(s.params_for("b"), Some(warm()));
    assert_eq!(s.last_profile_id(), None);
    assert_eq!(s.current_profile(), None);
}

#[test]
fn defaults_restored_forget_everything() {
    let mut s = Session::new();
    s.monitor_adjusted("a", dim());
    s.defaults_restored();
    assert!(s.entries().is_empty());
    assert_eq!(s.last_profile_id(), Some("default".to_string()));
    assert_eq!(s.current_profile(), Some("default".to_string()));
}

#[test]
fn restored_monitor_is_forgotten() {
    let mut s = Session::new();
    s.profile_applied(&ids(&["a", "b"]), warm(), "night", true);
    s.monitor_restored("a");
    assert_eq!(s.params_for("a"), None);
    assert_eq!(s.params_for("b"), Some(warm()));
    assert_eq!(s.current_profile(), Some("night".to_string()));
    assert_eq!(s.last_profile_id(), Some("night".to_string()));
}

#[test]
fn sync_to_all_leaves_profile() {
    let mut s = Session::new();
    s.profile_applied(&ids(&["a"]), warm(), "night", true);
    s.all_synced(&ids(&["a", "b"]), dim());
    assert_eq!(s.params_for("a"), Some(dim()));
    assert_eq!(s.params_for("b"), Some(dim()));
    assert_eq!(s.last_profile_id(), None);
    assert_eq!(s.current_profile(), None);
    let copy = s.clone();
    assert_eq!(copy.params_for("b"), Some(dim()));
    assert_eq!(copy.entries().len(), 2);
}
