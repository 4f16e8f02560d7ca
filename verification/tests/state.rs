use focusretro::platform::GameWindow;
use focusretro::state::{
    language_from_locale, AccountProfile, AppState, HotkeyBinding, Preferences, StoredMessage,
    TraceEntry, TraySnapshot,
};

fn make_state() -> AppState {
    AppState::from_prefs(Preferences::default())
}

fn make_window(name: &str, id: u64) -> GameWindow {
    GameWindow {
        character_name: name.into(),
        window_id: id,
        pid: 0,
        title: format!("{} - Dofus Retro v1.0", name),
    }
}

fn profile(name: &str, is_skipped: bool) -> AccountProfile {
    AccountProfile {
        character_name: name.to_string(),
        color: None,
        icon_path: None,
        is_principal: false,
        is_skipped,
    }
}

fn make_state_with_accounts(names: &[(&str, bool)]) -> AppState {
    let mut state = make_state();
    for (name, is_skipped) in names {
        state.profiles.push(profile(name, *is_skipped));
        let id = state.profiles.len() as u64;
        state.accounts.push(GameWindow {
            character_name: name.to_string(),
            window_id: id,
            pid: 1,
            title: format!("{} - Dofus Retro v1.0", name),
        });
    }
    state
}

#[test]
fn set_skipped_marks_profile() {
    let mut state = make_state();
    state.profiles.push(profile("Craette", false));
    assert!(!state.is_account_skipped("Craette"));
    state.set_skipped("Craette", true);
    assert!(state.is_account_skipped("Craette"));
    state.set_skipped("Craette", false);
    assert!(!state.is_account_skipped("Craette"));
}

#[test]
fn is_account_skipped_returns_false_for_unknown() {
    let state = make_state();
    assert!(!state.is_account_skipped("Unknown"));
}

#[test]
fn cycle_next_skips_skipped_accounts() {
    let mut state = make_state_with_accounts(&[("A", false), ("B", true), ("C", false)]);
    state.current_index = 0;
    let next = state.cycle_next().unwrap();
    assert_eq!(next.character_name, "C");
    let next2 = state.cycle_next().unwrap();
    assert_eq!(next2.character_name, "A");
}

#[test]
fn cycle_prev_skips_skipped_accounts() {
    let mut state = make_state_with_accounts(&[("A", false), ("B", true), ("C", false)]);
    state.current_index = 2;
    let prev = state.cycle_prev().unwrap();
    assert_eq!(prev.character_name, "A");
}

#[test]
fn cycle_next_all_skipped_falls_back() {
    let mut state = make_state_with_accounts(&[("A", true), ("B", true)]);
    state.current_index = 0;
    let result = state.cycle_next();
    assert!(result.is_some());
}

#[test]
fn cycle_prev_all_skipped_falls_back() {
    let mut state = make_state_with_accounts(&[("A", true), ("B", true)]);
    state.current_index = 0;
    let result = state.cycle_prev();
    assert!(result.is_some());
}

#[test]
fn has_account_case_insensitive() {
    let mut state = make_state();
    state.update_accounts(vec![make_window("Craette", 1)]);
    assert!(state.has_account("Craette"));
    assert!(state.has_account("CRAETTE"));
    assert!(state.has_account("craette"));
}

#[test]
fn has_account_unknown_returns_false() {
    let mut state = make_state();
    state.update_accounts(vec![make_window("Craette", 1)]);
    assert!(!state.has_account("Unknownchar"));
}

#[test]
fn message_cap_drains_oldest_when_exceeded() {
    let mut state = make_state();
    for i in 0..501u64 {
        state.add_message(StoredMessage {
            receiver: "R".into(),
            sender: "S".into(),
            message: format!("msg {}", i),
            timestamp: i,
        });
    }
    let messages = state.get_messages();
    assert_eq!(messages.len(), 401);
    assert_eq!(messages[0].message, "msg 100");
}

#[test]
fn update_accounts_preserves_profile_order() {
    let mut state = make_state();
    state.update_accounts(vec![make_window("Alice", 1), make_window("Bob", 2)]);
    state.update_accounts(vec![make_window("Bob", 2), make_window("Alice", 1)]);
    let accounts = state.accounts.clone();
    assert_eq!(accounts[0].character_name, "Alice");
    assert_eq!(accounts[1].character_name, "Bob");
}

#[test]
fn update_accounts_adds_new_window() {
    let mut state = make_state();
    state.update_accounts(vec![make_window("Alice", 1), make_window("Bob", 2)]);
    state.update_accounts(vec![
        make_window("Alice", 1),
        make_window("Bob", 2),
        make_window("Carol", 3),
    ]);
    let accounts = state.accounts.clone();
    assert_eq!(accounts.len(), 3);
    assert_eq!(accounts[2].character_name, "Carol");
}

#[test]
fn update_accounts_closed_window_removed_from_accounts_but_profile_kept() {
    let mut state = make_state();
    state.update_accounts(vec![make_window("Alice", 1), make_window("Bob", 2)]);
    state.update_accounts(vec![make_window("Alice", 1)]);
    let accounts = state.accounts.clone();
    assert_eq!(accounts.len(), 1);
    assert_eq!(accounts[0].character_name, "Alice");
    let profiles = state.profiles.clone();
    assert!(profiles.iter().any(|p| p.character_name == "Bob"));
}

#[test]
fn reorder_account_skips_skipped_in_position_mapping() {
    let mut state = make_state_with_accounts(&[("A", false), ("B", true), ("C", false)]);
    let result = state.reorder_account("A", 1);
    assert!(result);
    let names: Vec<String> = state.profiles.iter().map(|p| p.character_name.clone()).collect();
    let pos = |n: &str| names.iter().position(|x| x == n);
    assert!(pos("C") < pos("A"));
}

// ---------------------------------------------------------------------------
// Further scenarios
// ---------------------------------------------------------------------------

#[test]
fn update_accounts_reports_new_profiles_and_makes_first_principal() {
    let mut state = make_state();
    assert!(state.update_accounts(vec![make_window("Alice", 1), make_window("Bob", 2)]));
    assert!(state.profiles[0].is_principal);
    assert!(!state.profiles[1].is_principal);
    // The same windows again add nothing.
    assert!(!state.update_accounts(vec![make_window("Bob", 2), make_window("Alice", 1)]));
    assert_eq!(state.profiles.len(), 2);
}

#[test]
fn update_accounts_bumps_taskbar_version_only_on_change() {
    let mut state = make_state();
    assert_eq!(state.taskbar_order_version, 0);
    state.update_accounts(vec![make_window("Alice", 1)]);
    assert_eq!(state.taskbar_order_version, 1);
    state.update_accounts(vec![make_window("Alice", 1)]);
    assert_eq!(state.taskbar_order_version, 1);
    state.update_accounts(vec![make_window("Alice", 1), make_window("Bob", 2)]);
    assert_eq!(state.taskbar_order_version, 2);
}

#[test]
fn trace_cap_keeps_latest_hundred() {
    let mut state = make_state();
    for i in 0..150u64 {
        state.add_trace(TraceEntry {
            event_type: "turn".into(),
            character_name: format!("c{}", i),
            t_notification_ms: i,
            t_focus_done_ms: i + 1,
        });
    }
    let traces = state.get_traces();
    assert_eq!(traces.len(), 100);
    assert_eq!(traces[0].character_name, "c50");
    assert_eq!(traces[99].character_name, "c149");
    state.clear_traces();
    assert!(state.get_traces().is_empty());
}

#[test]
fn message_cap_not_reached_keeps_all() {
    let mut state = make_state();
    for i in 0..500u64 {
        state.add_message(StoredMessage {
            receiver: "R".into(),
            sender: "S".into(),
            message: format!("m{}", i),
            timestamp: i,
        });
    }
    assert_eq!(state.get_messages().len(), 500);
    state.clear_messages();
    assert!(state.get_messages().is_empty());
}

#[test]
fn set_hotkey_then_lookup_gives_new_key() {
    let mut state = make_state();
    state.set_hotkey("next", "KeyN".to_string(), false, true, false, false);
    let hk = state.get_hotkeys();
    let b = hk.iter().find(|b| b.action == "next").unwrap();
    assert_eq!(b.key, "KeyN");
    assert!(b.alt && !b.cmd && !b.shift && !b.ctrl);
    // An unknown action gets a binding of its own, appended.
    let before = state.get_hotkeys().len();
    state.set_hotkey("custom", "KeyQ".to_string(), false, false, false, false);
    let after = state.get_hotkeys();
    assert_eq!(after.len(), before + 1);
    assert_eq!(after[before].action, "custom");
    assert_eq!(after[before].key, "KeyQ");
}

#[test]
fn reset_hotkeys_restores_defaults() {
    let mut state = make_state();
    state.set_hotkey("prev", "KeyP".to_string(), true, false, false, false);
    state.reset_hotkeys();
    let hk = state.get_hotkeys();
    let keys: Vec<(String, String)> = hk.iter().map(|b| (b.action.clone(), b.key.clone())).collect();
    assert_eq!(
        keys,
        vec![
            ("prev".to_string(), "F1".to_string()),
            ("next".to_string(), "F2".to_string()),
            ("principal".to_string(), "F3".to_string()),
            ("radial".to_string(), "".to_string()),
        ]
    );
}

#[test]
fn from_prefs_merges_missing_default_bindings() {
    let mut prefs = Preferences::with_language("en".to_string());
    prefs.hotkeys = vec![HotkeyBinding {
        action: "next".into(),
        key: "F9".into(),
        cmd: false,
        alt: false,
        shift: false,
        ctrl: false,
    }];
    let state = AppState::from_prefs(prefs);
    let hk = state.get_hotkeys();
    let actions: Vec<&str> = hk.iter().map(|b| b.action.as_str()).collect();
    assert_eq!(actions, vec!["next", "prev", "principal", "radial"]);
    assert_eq!(hk[0].key, "F9");
}

#[test]
fn set_principal_is_exclusive() {
    let mut state = make_state();
    state.update_accounts(vec![make_window("Alice", 1), make_window("Bob", 2)]);
    state.set_principal("bob");
    assert!(!state.profiles[0].is_principal);
    assert!(state.profiles[1].is_principal);
    assert_eq!(state.get_principal().unwrap().character_name, "Bob");
}

#[test]
fn get_principal_falls_back_to_first_account() {
    let mut state = make_state_with_accounts(&[("A", false), ("B", false)]);
    assert_eq!(state.get_principal().unwrap().character_name, "A");
    state.accounts.clear();
    assert!(state.get_principal().is_none());
}

#[test]
fn cycle_on_no_accounts_returns_none() {
    let mut state = make_state();
    assert!(state.cycle_next().is_none());
    assert!(state.cycle_prev().is_none());
}

#[test]
fn cycle_all_skipped_moves_one_step() {
    let mut state = make_state_with_accounts(&[("A", true), ("B", true), ("C", true)]);
    state.current_index = 0;
    assert_eq!(state.cycle_next().unwrap().character_name, "B");
    state.current_index = 0;
    assert_eq!(state.cycle_prev().unwrap().character_name, "C");
}

#[test]
fn reorder_unknown_name_changes_nothing() {
    let mut state = make_state_with_accounts(&[("A", false), ("B", false)]);
    assert!(!state.reorder_account("Zed", 0));
    assert_eq!(state.profiles[0].character_name, "A");
    assert_eq!(state.taskbar_order_version, 0);
}

#[test]
fn reorder_to_end_moves_last() {
    let mut state = make_state_with_accounts(&[("A", false), ("B", false), ("C", false)]);
    assert!(state.reorder_account("A", 10));
    let names: Vec<&str> = state.profiles.iter().map(|p| p.character_name.as_str()).collect();
    assert_eq!(names, vec!["B", "C", "A"]);
    let acc: Vec<&str> = state.accounts.iter().map(|w| w.character_name.as_str()).collect();
    assert_eq!(acc, vec!["B", "C", "A"]);
    assert_eq!(state.taskbar_order_version, 1);
}

#[test]
fn sync_focus_from_foreground_follows_window() {
    let mut state = make_state_with_accounts(&[("A", false), ("B", false)]);
    state.current_index = 0;
    assert_eq!(state.sync_focus_from_foreground(2), Some("B".to_string()));
    assert_eq!(state.current_index, 1);
    // The same foreground again changes nothing.
    assert_eq!(state.sync_focus_from_foreground(2), None);
    // Window 0 and unknown windows do not move the current account.
    assert_eq!(state.sync_focus_from_foreground(0), None);
    assert_eq!(state.sync_focus_from_foreground(99), None);
    assert_eq!(state.current_index, 1);
    state.radial_open = true;
    assert_eq!(state.sync_focus_from_foreground(1), None);
    assert_eq!(state.current_index, 1);
}

#[test]
fn set_current_by_name_and_current_window() {
    let mut state = make_state_with_accounts(&[("A", false), ("B", false)]);
    state.set_current_by_name("b");
    assert_eq!(state.current_index, 1);
    assert_eq!(state.get_current_window().unwrap().character_name, "B");
    state.set_current_by_name("nobody");
    assert_eq!(state.current_index, 1);
    state.sync_current_from_window_id(1);
    assert_eq!(state.current_index, 0);
}

#[test]
fn account_views_show_profile_settings() {
    let mut state = make_state();
    state.update_accounts(vec![make_window("Alice", 1), make_window("Bob", 2)]);
    state.update_profile("Bob", Some("#ff0000".into()), None);
    state.set_skipped("Alice", true);
    let views = state.get_account_views();
    assert_eq!(views.len(), 2);
    assert!(views[0].is_principal && views[0].is_skipped && views[0].is_current);
    assert_eq!(views[1].color.as_deref(), Some("#ff0000"));
    assert_eq!(views[1].position, 1);
    assert!(!views[1].is_current);
}

#[test]
fn active_then_skipped_and_layout_windows() {
    let mut state = make_state_with_accounts(&[("A", true), ("B", false), ("C", false)]);
    let order: Vec<String> = state
        .active_then_skipped_windows()
        .iter()
        .map(|w| w.character_name.clone())
        .collect();
    assert_eq!(order, vec!["B", "C", "A"]);
    let live = vec![make_window("C", 30), make_window("A", 10)];
    let tiles = state.layout_windows(&live);
    assert_eq!(tiles.len(), 1);
    assert_eq!(tiles[0].window_id, 30);
    state.set_skipped("A", false);
    assert_eq!(state.layout_windows(&live).len(), 2);
}

#[test]
fn snapshot_prefs_round_trips_settings() {
    let mut state = make_state();
    state.set_autoswitch(false);
    state.set_theme("dark".into());
    state.set_language("es".into());
    state.update_accounts(vec![make_window("Alice", 1)]);
    let prefs = state.snapshot_prefs();
    assert!(!prefs.autoswitch_enabled);
    assert_eq!(prefs.theme, "dark");
    assert_eq!(prefs.language, "es");
    assert_eq!(prefs.profiles.len(), 1);
    let again = AppState::from_prefs(prefs);
    assert!(!again.is_autoswitch_enabled());
    assert_eq!(again.get_theme(), "dark");
    assert_eq!(again.get_profiles().len(), 1);
}

#[test]
fn listener_health_counts_restarts() {
    let mut state = make_state();
    state.set_notif_mode("poll".into());
    state.set_listener_healthy(true);
    state.increment_listener_restart_count();
    state.increment_listener_restart_count();
    let (healthy, restarts, mode) = state.get_listener_health_snapshot();
    assert!(healthy);
    assert_eq!(restarts, 2);
    assert_eq!(mode, "poll");
    state.listener_restart_count = u32::MAX;
    state.increment_listener_restart_count();
    assert_eq!(state.listener_restart_count, u32::MAX);
}

#[test]
fn tray_snapshot_changed_only_on_difference() {
    let mut state = make_state();
    let s = TraySnapshot { is_active: true, count: 2, lang: "en".into() };
    assert!(state.tray_snapshot_changed(s.clone()));
    assert!(!state.tray_snapshot_changed(s.clone()));
    assert!(state.tray_snapshot_changed(TraySnapshot { is_active: false, count: 2, lang: "en".into() }));
}

#[test]
fn language_from_locale_picks_supported() {
    assert_eq!(language_from_locale("fr-FR"), "fr");
    assert_eq!(language_from_locale("ES_es"), "es");
    assert_eq!(language_from_locale("de-DE"), "en");
    assert_eq!(language_from_locale("f"), "en");
    assert_eq!(language_from_locale(""), "en");
}

#[test]
fn default_preferences_values() {
    let p = Preferences::with_language("fr".into());
    assert!(p.autoswitch_enabled && p.group_invite_enabled && p.trade_enabled && p.pm_enabled);
    assert!(!p.auto_accept_enabled && !p.show_debug);
    assert_eq!(p.theme, "system");
    assert!(p.close_to_tray && !p.close_behavior_prompted && p.taskbar_ungroup_enabled);
    assert_eq!(p.hotkeys.len(), 4);
    assert!(p.update_check_consent.is_none());
}

#[test]
fn cycle_prev_undoes_cycle_next() {
    let mut state = make_state_with_accounts(&[("A", false), ("B", true), ("C", true), ("D", false)]);
    state.current_index = 3;
    assert_eq!(state.cycle_next().unwrap().character_name, "A");
    assert_eq!(state.cycle_prev().unwrap().character_name, "D");
    assert_eq!(state.current_index, 3);
}

#[test]
fn taskbar_reorder_due_once_per_change() {
    let mut state = make_state();
    // Nothing applied yet.
    assert!(state.take_taskbar_reorder());
    assert!(!state.take_taskbar_reorder());
    state.update_accounts(vec![make_window("Alice", 1)]);
    assert!(state.take_taskbar_reorder());
    assert!(!state.take_taskbar_reorder());
}

#[test]
fn can_cycle_prev_only_fails_past_the_end_with_all_skipped() {
    let mut state = AppState::from_prefs(Preferences::with_language("en".into()));
    assert!(state.can_cycle_prev());
    state.accounts.push(GameWindow {
        character_name: "A".into(),
        window_id: 1,
        pid: 1,
        title: "A - Dofus Retro v1".into(),
    });
    state.profiles.push(AccountProfile {
        character_name: "A".into(),
        color: None,
        icon_path: None,
        is_principal: true,
        is_skipped: true,
    });
    state.current_index = 1;
    assert!(state.can_cycle_prev());
    state.current_index = 3;
    assert!(!state.can_cycle_prev());
    state.profiles[0].is_skipped = false;
    assert!(state.can_cycle_prev());
    assert_eq!(state.cycle_prev().unwrap().character_name, "A");
}

#[test]
fn saved_bindings_come_back_completed_once() {
    let mut prefs = Preferences::default();
    prefs.hotkeys = vec![HotkeyBinding {
        action: "next".into(),
        key: "KeyN".into(),
        cmd: false,
        alt: true,
        shift: false,
        ctrl: false,
    }];
    let first = AppState::from_prefs(prefs);
    let keys: Vec<(String, String)> = first.get_hotkeys().into_iter().map(|h| (h.action, h.key)).collect();
    assert_eq!(
        keys,
        vec![
            ("next".to_string(), "KeyN".to_string()),
            ("prev".to_string(), "F1".to_string()),
            ("principal".to_string(), "F3".to_string()),
            ("radial".to_string(), "".to_string()),
        ]
    );
    let second = AppState::from_prefs(first.snapshot_prefs());
    let again: Vec<(String, String, bool)> =
        second.get_hotkeys().into_iter().map(|h| (h.action, h.key, h.alt)).collect();
    let before: Vec<(String, String, bool)> =
        first.get_hotkeys().into_iter().map(|h| (h.action, h.key, h.alt)).collect();
    assert_eq!(again, before);
}
