use std::collections::HashMap;

use screen_tune::config::HotkeyAction;
use screen_tune::hotkey::{HotkeyBinding, HotkeyPlatform, HotkeyRegistry, HotkeySpec, KeyCode, Modifier, RegisterOutcome, Registration};

#[test]
fn parse_format_roundtrip() {
    for spec in [
        "Ctrl+Alt+1",
        "ctrl-alt-1",
        "Shift+Win+F5",
        "Alt+2",
        "Ctrl+Shift+F12",
    ] {
        let parsed = HotkeySpec::parse(spec).unwrap();
        let formatted = parsed.format();
        let reparsed = HotkeySpec::parse(&formatted).unwrap();
        assert_eq!(parsed, reparsed, "往返解析不一致: {spec} → {formatted}");
    }
}

#[test]
fn canonical_format() {
    assert_eq!(
        HotkeySpec::parse("1+alt+ctrl").unwrap().format(),
        "Ctrl+Alt+1"
    );
    assert_eq!(
        HotkeySpec::parse("F12+shift").unwrap().format(),
        "Shift+F12"
    );
}

#[test]
fn invalid_specs_rejected() {
    for bad in [
        "",
        "Ctrl+",
        "+",
        "Ctrl+Alt+Nothing",
        "Foo+Bar",
        "Ctrl+Ctrl+1",
    ] {
        assert!(HotkeySpec::parse(bad).is_err(), "应拒绝: {bad:?}");
    }
}

#[test]
fn parse_gives_modifiers_and_key() {
    let s = HotkeySpec::parse(" alt , Shift , f5 ").unwrap();
    assert_eq!(s.modifiers, vec![Modifier::Alt, Modifier::Shift]);
    assert_eq!(s.code, KeyCode::F5);
    assert_eq!(HotkeySpec::parse("Ctrl+Ctrl+1").unwrap_err().message(), "重复的修饰键: Ctrl");
    assert_eq!(HotkeySpec::parse("Ctrl+Alt").unwrap_err().message(), "缺少主键");
    assert_eq!(HotkeySpec::parse("").unwrap_err().message(), "不支持的主键: ");
    assert_eq!(HotkeySpec::parse("Ctrl+").unwrap_err().message(), "不支持的主键: ");
    assert_eq!(HotkeySpec::parse("Ctrl+Alt+Nothing").unwrap_err().message(), "不支持的主键: NOTHING");
    assert_eq!(HotkeySpec::parse("Foo+Bar").unwrap_err().message(), "存在多个主键: Bar");
}

/// A platform that accepts every hotkey except those listed as taken.
struct FakePlatform {
    taken: Vec<String>,
    next: u32,
    released: usize,
}

impl HotkeyPlatform for FakePlatform {
    fn unregister_all(&mut self) {
        self.released += 1;
    }

    fn register(&mut self, spec: &HotkeySpec) -> Result<u32, String> {
        let text = spec.format();
        if self.taken.contains(&text) {
            Err("HotKey already registered".to_string())
        } else {
            self.next += 1;
            Ok(self.next)
        }
    }
}

fn binding(id: &str, spec: &str, action: HotkeyAction) -> HotkeyBinding {
    HotkeyBinding { id: id.to_string(), spec: spec.to_string(), action }
}

#[test]
fn rebuild_reports_conflicts_and_dispatches() {
    let mut platform = FakePlatform { taken: vec!["Ctrl+Alt+3".to_string()], next: 100, released: 0 };
    let mut reg = HotkeyRegistry::new();
    let out: RegisterOutcome = reg.rebuild(
        &mut platform,
        vec![
            binding("restore_default", "Ctrl+Alt+1", HotkeyAction::RestoreDefault),
            binding("bad", "Ctrl+Alt", HotkeyAction::ShowWindow),
            binding("profile:cs2", "Ctrl+Alt+3", HotkeyAction::ApplyProfile { profile_id: "cs2".into() }),
            binding("show", "Alt+F1", HotkeyAction::ShowWindow),
        ],
    );
    assert_eq!(platform.released, 1);
    assert_eq!(out.ok, vec!["restore_default".to_string(), "show".to_string()]);
    assert_eq!(
        out.conflicts,
        vec![
            ("bad".to_string(), "解析失败: 缺少主键".to_string()),
            ("profile:cs2".to_string(), "已被占用: HotKey already registered".to_string()),
        ]
    );
    assert_eq!(reg.action_for(101), Some(HotkeyAction::RestoreDefault));
    assert_eq!(reg.action_for(102), Some(HotkeyAction::ShowWindow));
    assert_eq!(reg.action_for(7), None);

    // A second round replaces the first.
    let out2 = reg.rebuild(&mut platform, vec![binding("only", "Win+A", HotkeyAction::ShowWindow)]);
    assert_eq!(platform.released, 2);
    assert_eq!(out2.ok, vec!["only".to_string()]);
    assert!(out2.conflicts.is_empty());
    assert_eq!(reg.action_for(101), None);
    assert_eq!(reg.action_for(103), Some(HotkeyAction::ShowWindow));
}

#[test]
fn record_adds_one_entry() {
    let mut reg = HotkeyRegistry::new();
    let mut out = RegisterOutcome::default();
    reg.record(&mut out, "x", Registration::Refused("busy".to_string()));
    reg.record(&mut out, "y", Registration::Registered(9));
    assert_eq!(out.conflicts, vec![("x".to_string(), "已被占用: busy".to_string())]);
    assert_eq!(out.ok, vec!["y".to_string()]);
    let _unused: HashMap<u32, String> = HashMap::new();
    assert_eq!(reg.action_for(9), None);
}
