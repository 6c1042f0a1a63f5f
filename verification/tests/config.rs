use screen_tune::config::{default_game_rules, default_hotkeys, GameRule, HotkeyAction, HotkeyBinding, Language, Profile, ThemePref};
use screen_tune::common::{DisplayParams, MonitorInfo};

#[test]
fn rule_matches_case_insensitively() {
    let rule = GameRule::new("rust", "Rust.exe", "rust");
    assert!(rule.matches("rust.exe"));
    assert!(rule.matches("RUST.EXE"));
    assert!(!rule.matches("rust2.exe"));
    assert!(!rule.matches("cs2.exe"));
}

#[test]
fn disabled_rule_never_matches() {
    let mut rule = GameRule::new("cs2", "cs2.exe", "cs2");
    rule.enabled = false;
    assert!(!rule.matches("cs2.exe"));
}

#[test]
fn default_hotkeys_bind_ctrl_alt_digits() {
    let hk = default_hotkeys();
    assert_eq!(hk.len(), 4);
    assert_eq!(hk[0], HotkeyBinding::new("restore_default", "Ctrl+Alt+1", HotkeyAction::RestoreDefault));
    assert_eq!(hk[1].spec, "Ctrl+Alt+2");
    assert_eq!(hk[1].action, HotkeyAction::ApplyProfile { profile_id: "rust".to_string() });
    assert_eq!(hk[2].id, "profile:cs2");
    assert_eq!(hk[3].action, HotkeyAction::ApplyProfile { profile_id: "pubg".to_string() });
}

#[test]
fn default_rules_cover_three_games() {
    let rules = default_game_rules();
    assert_eq!(rules.len(), 3);
    assert_eq!(rules[2].exe_name, "PUBG.exe");
    assert!(rules[2].matches("pubg.exe"));
    assert!(rules.iter().all(|r| r.enabled));
}

#[test]
fn action_description_keys() {
    assert_eq!(HotkeyAction::RestoreDefault.description_key(), "hotkey.action.restore_default");
    assert_eq!(
        HotkeyAction::ApplyProfile { profile_id: "x".to_string() }.description_key(),
        "hotkey.action.apply_profile"
    );
    assert_eq!(HotkeyAction::ShowWindow.description_key(), "hotkey.action.show_window");
}

#[test]
fn defaults_of_language_theme_and_params() {
    assert_eq!(Language::default(), Language::Zh);
    assert_eq!(ThemePref::default(), ThemePref::Dark);
    let p = DisplayParams::default();
    assert_eq!(f32::from_bits(p.gamma_bits), 100.0);
    assert_eq!(f32::from_bits(p.brightness_bits), 100.0);
    assert_eq!(f32::from_bits(p.contrast_bits), 100.0);
    assert_eq!(f32::from_bits(p.saturation_bits), 100.0);
    assert_eq!(p.temperature_k, 6500);
}

#[test]
fn new_profile_and_monitor_fields() {
    let p = Profile::new("a", "A", DisplayParams::default());
    assert_eq!(p.description, "");
    assert_eq!(p.hotkey, None);
    assert!(!p.builtin);
    let m = MonitorInfo::new("mock-0", "Mock Monitor 1", true, true, 1920, 1080);
    assert_eq!(m.id, "mock-0");
    assert_eq!(m.width, 1920);
    assert!(m.is_primary && m.supports_ddc);
}

#[test]
fn temperature_clamps_into_range() {
    assert_eq!(screen_tune::common::clamp_temperature(1), 2500);
    assert_eq!(screen_tune::common::clamp_temperature(20000), 10000);
    assert_eq!(screen_tune::common::clamp_temperature(5800), 5800);
}
