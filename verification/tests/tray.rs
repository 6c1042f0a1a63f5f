use screen_tune::common::DisplayParams;
use screen_tune::config::Profile;
use screen_tune::tray::{command_for_menu_id, menu_entries, MenuEntry, TrayCommand};

#[test]
fn menu_ids_map_to_commands() {
    assert_eq!(command_for_menu_id("open"), Some(TrayCommand::ShowWindow));
    assert_eq!(command_for_menu_id("restore"), Some(TrayCommand::RestoreDefault));
    assert_eq!(command_for_menu_id("startup"), Some(TrayCommand::ToggleStartup));
    assert_eq!(command_for_menu_id("quit"), Some(TrayCommand::Quit));
    assert_eq!(command_for_menu_id("profile:rust"), Some(TrayCommand::ApplyProfile("rust".into())));
    assert_eq!(command_for_menu_id("profile:"), Some(TrayCommand::ApplyProfile(String::new())));
    assert_eq!(command_for_menu_id("other"), None);
    assert_eq!(command_for_menu_id("profil"), None);
}

#[test]
fn menu_lists_profiles_between_fixed_entries() {
    let profiles = vec![Profile::new("rust", "Rust", DisplayParams::default())];
    let menu = menu_entries(&profiles, true);
    assert_eq!(menu.len(), 9);
    match &menu[3] {
        MenuEntry::Item { id, text } => {
            assert_eq!(id, "profile:rust");
            assert_eq!(text, "应用方案：Rust");
            assert_eq!(command_for_menu_id(id), Some(TrayCommand::ApplyProfile("rust".into())));
        }
        _ => panic!("profile entry expected"),
    }
    match &menu[5] {
        MenuEntry::Check { id, checked, .. } => {
            assert_eq!(id, "startup");
            assert!(*checked);
        }
        _ => panic!("check entry expected"),
    }
    assert!(matches!(menu[2], MenuEntry::Separator));
    assert!(matches!(&menu[6], MenuEntry::Inactive { text } if text == "检查更新（敬请期待）"));
    assert!(matches!(&menu[8], MenuEntry::Item { id, .. } if id == "quit"));
}
