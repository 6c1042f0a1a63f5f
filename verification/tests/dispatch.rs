use screen_tune::config::Language;
use screen_tune::ui::dispatch::event_toast;
use screen_tune::ui::Tr;
use screen_tune::config::HotkeyAction;
use screen_tune::detector::DetectorEvent;
use screen_tune::hotkey::HotkeyBinding;
use screen_tune::tray::TrayCommand;
use screen_tune::ui::dispatch::{plan_game_event, plan_hotkey, plan_tray, startup_switched, unsupported_conflicts, AppEvent, CoreAction};

#[test]
fn hotkeys_and_tray_entries_plan_actions() {
    let (a, ev) = plan_hotkey(&HotkeyAction::RestoreDefault);
    assert_eq!(a, CoreAction::RestoreDefault);
    assert_eq!(ev, vec![AppEvent::ProfileApplied { profile_id: None }]);

    let (a, ev) = plan_hotkey(&HotkeyAction::ApplyProfile { profile_id: "cs2".into() });
    assert_eq!(a, CoreAction::ApplyProfile { profile_id: "cs2".into(), persist: true });
    assert_eq!(ev, vec![AppEvent::ProfileApplied { profile_id: Some("cs2".into()) }]);

    assert_eq!(plan_hotkey(&HotkeyAction::ShowWindow), (CoreAction::Nothing, vec![AppEvent::ShowWindow]));
    assert_eq!(plan_tray(&TrayCommand::ToggleStartup), (CoreAction::ToggleStartup, vec![]));
    assert_eq!(plan_tray(&TrayCommand::Quit), (CoreAction::Nothing, vec![AppEvent::Quit]));
    assert_eq!(
        plan_tray(&TrayCommand::ApplyProfile("pubg".into())),
        (
            CoreAction::ApplyProfile { profile_id: "pubg".into(), persist: true },
            vec![AppEvent::ProfileApplied { profile_id: Some("pubg".into()) }]
        )
    );
}

#[test]
fn game_events_plan_actions() {
    let (a, e) = plan_game_event(&DetectorEvent::Entered { rule_id: "r".into(), profile_id: "rust".into() }, true);
    assert_eq!(a, CoreAction::ApplyProfile { profile_id: "rust".into(), persist: false });
    assert_eq!(e, Some(AppEvent::GameProfileApplied("rust".into())));
    let (a, e) = plan_game_event(&DetectorEvent::Exited { rule_id: "r".into() }, true);
    assert_eq!(a, CoreAction::RestoreDefault);
    assert_eq!(e, Some(AppEvent::GameProfileExited));
    let (a, e) = plan_game_event(&DetectorEvent::Entered { rule_id: "r".into(), profile_id: "rust".into() }, false);
    assert_eq!(a, CoreAction::Nothing);
    assert_eq!(e, None);
}

#[test]
fn startup_switch_outcomes() {
    assert_eq!(startup_switched(false, &Ok(())), (true, AppEvent::StartupChanged(true)));
    assert_eq!(
        startup_switched(true, &Err("denied".into())),
        (true, AppEvent::Toast("开机自启设置失败: denied".into()))
    );
}

#[test]
fn unsupported_platform_refuses_every_binding() {
    let b = vec![HotkeyBinding { id: "a".into(), spec: "Ctrl+1".into(), action: HotkeyAction::ShowWindow }];
    assert_eq!(unsupported_conflicts(&b), vec![("a".to_string(), "平台不支持".to_string())]);
}

#[test]
fn toasts_for_events() {
    let zh = Tr::new(Language::Zh);
    let en = Tr::new(Language::En);
    assert_eq!(
        event_toast(&AppEvent::ProfileApplied { profile_id: Some("default".into()) }, &zh, None),
        Some("已恢复默认参数".to_string())
    );
    assert_eq!(event_toast(&AppEvent::ProfileApplied { profile_id: Some("rust".into()) }, &zh, None), None);
    assert_eq!(
        event_toast(&AppEvent::ProfileApplied { profile_id: None }, &en, None),
        Some("Defaults restored".to_string())
    );
    assert_eq!(
        event_toast(&AppEvent::GameProfileApplied("rust".into()), &en, Some("Rust")),
        Some("Game profile applied:  Rust".to_string())
    );
    assert_eq!(
        event_toast(&AppEvent::GameProfileApplied("gone".into()), &zh, None),
        Some("游戏方案已应用： gone".to_string())
    );
    assert_eq!(event_toast(&AppEvent::GameProfileExited, &en, None), Some("Game exited, defaults restored".to_string()));
    assert_eq!(event_toast(&AppEvent::Toast("hi".into()), &en, None), Some("hi".to_string()));
    assert_eq!(event_toast(&AppEvent::Quit, &en, None), None);
}
