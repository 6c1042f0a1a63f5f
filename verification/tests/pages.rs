use screen_tune::common::MonitorInfo;
use screen_tune::ui::pages::{monitor_label, reselect_monitor};
use screen_tune::profile::builtin_profiles;
use screen_tune::ui::pages::ProfilePageState;
use screen_tune::config::{GameRule, HotkeyAction, Language};
use screen_tune::ui::pages::{action_label, current_profile_label, key_press, KeyPress};
use screen_tune::ui::Tr;
use screen_tune::ui::pages::{brightness_label, main_key_name, recorded_hotkey, HotkeyEditState, MonitorsPageState, SettingsPageState};

#[test]
fn key_names_for_hotkeys() {
    assert_eq!(main_key_name("A"), Some("A".to_string()));
    assert_eq!(main_key_name("Num7"), Some("7".to_string()));
    assert_eq!(main_key_name("F12"), Some("F12".to_string()));
    assert_eq!(main_key_name("F24"), Some("F24".to_string()));
    assert_eq!(main_key_name("F25"), None);
    assert_eq!(main_key_name("F0"), None);
    assert_eq!(main_key_name("ArrowUp"), None);
    assert_eq!(main_key_name("Escape"), None);
    assert_eq!(main_key_name("F"), Some("F".to_string()));
}

#[test]
fn recorded_hotkey_needs_a_modifier() {
    assert_eq!(recorded_hotkey(false, false, false, "A"), None);
    assert_eq!(recorded_hotkey(true, true, false, "1"), Some("Ctrl+Alt+1".to_string()));
    assert_eq!(recorded_hotkey(false, false, true, "F5"), Some("Shift+F5".to_string()));
    let e = HotkeyEditState { index: 2 };
    assert_eq!(e.index, 2);
}

#[test]
fn brightness_labels() {
    assert_eq!(brightness_label(Some((80, 100))), "80 / 100");
    assert_eq!(brightness_label(Some((5, 0))), "—");
    assert_eq!(brightness_label(None), "—");
}

#[test]
fn brightness_cache() {
    let mut s = MonitorsPageState::default();
    assert_eq!(s.lookup("mock-0"), None);
    s.remember("mock-0", Some((80, 100)));
    s.remember("mock-1", None);
    s.remember("mock-0", Some((70, 100)));
    assert_eq!(s.lookup("mock-0"), Some(Some((70, 100))));
    assert_eq!(s.lookup("mock-1"), Some(None));
    s.clear();
    assert_eq!(s.lookup("mock-0"), None);
}

#[test]
fn rule_editor() {
    let mut s = SettingsPageState::default();
    s.load_rules(&[GameRule::new("rule:rust", "rust.exe", "rust")]);
    assert!(s.rules_loaded);
    s.load_rules(&[]);
    assert_eq!(s.rules.len(), 1);
    s.add_rule(Some("cs2"));
    assert_eq!(s.rules[1].id, "rule:custom-2");
    assert_eq!(s.rules[1].exe_name, "");
    assert_eq!(s.rules[1].profile_id, "cs2");
    s.add_rule(None);
    assert_eq!(s.rules[2].profile_id, "");
    s.remove_rule(0);
    assert_eq!(s.rules.len(), 2);
    assert_eq!(s.rules[0].id, "rule:custom-2");
    // rules custom-2, custom-3 remain: the next free number above 2 is 4
    s.add_rule(None);
    assert_eq!(s.rules[2].id, "rule:custom-4");
    let ids: Vec<&str> = s.rules.iter().map(|r| r.id.as_str()).collect();
    assert_eq!(ids, vec!["rule:custom-2", "rule:custom-3", "rule:custom-4"]);
}

#[test]
fn monitor_selection_and_labels() {
    let monitors = vec![
        MonitorInfo::new("mock-0", "Mock Monitor 1", true, true, 1920, 1080),
        MonitorInfo::new("mock-1", "Mock Monitor 2", false, false, 2560, 1080),
    ];
    assert_eq!(reselect_monitor(&monitors, "mock-1"), None);
    assert_eq!(reselect_monitor(&monitors, "gone"), Some("mock-0".to_string()));
    assert_eq!(reselect_monitor(&[], "mock-0"), Some(String::new()));
    assert_eq!(monitor_label(&monitors[0]), "Mock Monitor 1 ★");
    assert_eq!(monitor_label(&monitors[1]), "Mock Monitor 2");
}

#[test]
fn profile_page_selection_and_drafts() {
    let profiles = builtin_profiles();
    let mut s = ProfilePageState::default();
    s.ensure_selection(&profiles);
    assert_eq!(s.selected_id, "default");
    assert_eq!(s.edit_buf.as_ref().unwrap().id, "default");
    s.select(&profiles[2]);
    s.ensure_selection(&profiles);
    assert_eq!(s.selected_id, "cs2");
    let d1 = s.new_draft();
    let d2 = s.new_draft();
    assert_eq!(d1.id, "custom-1");
    assert_eq!(d2.id, "custom-2");
    assert_eq!(d2.name, "新方案");
    s.replace_later(d2);
    s.settle();
    assert_eq!(s.selected_id, "custom-2");
    s.clear_later();
    s.settle();
    assert_eq!(s.selected_id, "");
    assert!(s.edit_buf.is_none());
}

#[test]
fn action_labels() {
    let en = Tr::new(Language::En);
    let zh = Tr::new(Language::Zh);
    assert_eq!(action_label(&en, &HotkeyAction::RestoreDefault, None), "Restore defaults");
    assert_eq!(action_label(&zh, &HotkeyAction::ShowWindow, None), "显示主窗口");
    let apply = HotkeyAction::ApplyProfile { profile_id: "night".to_string() };
    assert_eq!(action_label(&en, &apply, Some("Night reading")), "Apply profile: Night reading");
    assert_eq!(action_label(&en, &apply, None), "Apply profile: night");
}

#[test]
fn current_profile_labels() {
    let en = Tr::new(Language::En);
    let zh = Tr::new(Language::Zh);
    assert_eq!(current_profile_label(&en, None, None), "Custom");
    assert_eq!(current_profile_label(&zh, None, Some("x")), "自定义");
    assert_eq!(current_profile_label(&en, Some("night"), Some("Night")), "Current profile: Night");
    assert_eq!(current_profile_label(&en, Some("gone"), None), "Current profile: gone");
}

#[test]
fn key_presses_while_recording() {
    assert_eq!(key_press("Escape", true, false, false), KeyPress::Cancel);
    assert_eq!(key_press("ControlLeft", true, false, false), KeyPress::Skip);
    assert_eq!(key_press("ArrowUp", true, false, false), KeyPress::Skip);
    assert_eq!(key_press("A", false, false, false), KeyPress::Skip);
    assert_eq!(key_press("Num3", true, true, false), KeyPress::Record("Ctrl+Alt+3".to_string()));
    assert_eq!(key_press("F5", false, false, true), KeyPress::Record("Shift+F5".to_string()));
}

#[test]
fn recorded_text_reads_back_unchanged() {
    for (name, ctrl, alt, shift, text) in [
        ("F5", true, false, true, "Ctrl+Shift+F5"),
        ("Num7", false, true, false, "Alt+7"),
        ("Q", true, true, true, "Ctrl+Alt+Shift+Q"),
    ] {
        let KeyPress::Record(t) = key_press(name, ctrl, alt, shift) else { panic!("not recorded: {name}") };
        assert_eq!(t, text);
        let parsed = screen_tune::hotkey::HotkeySpec::parse(&t).unwrap();
        assert_eq!(parsed.format(), t);
    }
}
