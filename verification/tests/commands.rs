use focusretro::commands::{get_available_layouts, settings_url, CloseAction};
use focusretro::platform::{GameWindow, PermissionStatus};
use focusretro::state::{AppState, Preferences};

#[test]
fn available_layouts_in_menu_order() {
    assert_eq!(
        get_available_layouts(),
        vec!["maximize", "split-h", "split-v", "grid-2x2", "grid-3x2", "grid-4x2"]
    );
}

#[test]
fn settings_urls_for_permission_sections() {
    assert_eq!(
        settings_url("accessibility"),
        Some("x-apple.systempreferences:com.apple.preference.security?Privacy_Accessibility")
    );
    assert_eq!(
        settings_url("screen_recording"),
        Some("x-apple.systempreferences:com.apple.preference.security?Privacy_ScreenCapture")
    );
    assert_eq!(
        settings_url("input_monitoring"),
        Some("x-apple.systempreferences:com.apple.preference.security?Privacy_ListenEvent")
    );
    assert_eq!(settings_url("camera"), None);
}

#[test]
fn initial_state_reflects_state() {
    let mut state = AppState::from_prefs(Preferences::with_language("fr".into()));
    state.update_accounts(vec![GameWindow {
        character_name: "Alice".into(),
        window_id: 4,
        pid: 1,
        title: "Alice - Dofus Retro v1".into(),
    }]);
    let perms = PermissionStatus { accessibility: true, screen_recording: false, input_monitoring: true };
    let init = state.initial_state(perms, true, "classic".into());
    assert_eq!(init.accounts.len(), 1);
    assert_eq!(init.accounts[0].character_name, "Alice");
    assert!(init.accounts[0].is_principal);
    assert_eq!(init.language, "fr");
    assert_eq!(init.hotkeys.len(), 4);
    assert_eq!(init.theme, "system");
    assert!(init.pm_enabled && !init.show_debug);
    assert!(init.permissions.accessibility && !init.permissions.screen_recording);
    assert!(init.taskbar_ungroup);
    assert_eq!(init.icon_style, "classic");
    let h = state.listener_health();
    assert!(!h.healthy);
    assert_eq!(h.restart_count, 0);
    assert_eq!(h.mode, "unknown");
}

#[test]
fn close_action_follows_preferences() {
    let mut state = AppState::from_prefs(Preferences::with_language("en".into()));
    state.set_close_behavior_prompted(false);
    assert_eq!(state.close_requested(), CloseAction::AskUser);
    state.set_close_behavior_prompted(true);
    state.set_close_to_tray(true);
    assert_eq!(state.close_requested(), CloseAction::HideToTray);
    assert_eq!(state.chosen_close(), CloseAction::HideToTray);
    state.set_close_to_tray(false);
    assert_eq!(state.close_requested(), CloseAction::Quit);
    assert_eq!(state.chosen_close(), CloseAction::Quit);
}
