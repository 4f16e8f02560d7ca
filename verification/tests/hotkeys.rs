use focusretro::hotkeys::{
    command_for, win_button_actions, win_key_actions, js_code_to_mac_keycode, js_code_to_scan, js_code_to_vk, mac_hotkey_target, mac_key_down, mac_key_needs_foreground,
    mac_radial_release, matches_binding, matches_keyboard_binding, matches_mouse_binding,
    press_radial, win_radial_release_button, win_radial_release_key, HotkeyCommand, KeyPress,
    FLAG_ALT, FLAG_CMD, FLAG_CTRL, FLAG_SHIFT,
};
use focusretro::platform::GameWindow;
use focusretro::state::{AccountProfile, AppState, HotkeyBinding, Preferences};

fn binding(key: &str, cmd: bool, alt: bool, shift: bool, ctrl: bool) -> HotkeyBinding {
    HotkeyBinding { action: "test".into(), key: key.into(), cmd, alt, shift, ctrl }
}

// macOS virtual key codes
const KC_F1: u16 = 0x7A;
const KC_F2: u16 = 0x78;
const KC_F3: u16 = 0x63;

#[test]
fn exact_match_no_modifiers() {
    assert!(matches_binding(KC_F1, 0, &binding("F1", false, false, false, false)));
}

#[test]
fn wrong_key_returns_false() {
    assert!(!matches_binding(KC_F2, 0, &binding("F1", false, false, false, false)));
}

#[test]
fn unknown_key_string_returns_false() {
    assert!(!matches_binding(KC_F1, 0, &binding("Banana", false, false, false, false)));
}

#[test]
fn modifier_mismatch_cmd_returns_false() {
    assert!(!matches_binding(KC_F1, FLAG_CMD, &binding("F1", false, false, false, false)));
}

#[test]
fn modifier_match_cmd_returns_true() {
    assert!(matches_binding(KC_F1, FLAG_CMD, &binding("F1", true, false, false, false)));
}

#[test]
fn modifier_match_alt_returns_true() {
    assert!(matches_binding(KC_F2, FLAG_ALT, &binding("F2", false, true, false, false)));
}

#[test]
fn modifier_match_shift_returns_true() {
    assert!(matches_binding(KC_F3, FLAG_SHIFT, &binding("F3", false, false, true, false)));
}

#[test]
fn modifier_match_ctrl_returns_true() {
    assert!(matches_binding(KC_F1, FLAG_CTRL, &binding("F1", false, false, false, true)));
}

#[test]
fn multiple_modifiers_must_all_match() {
    let flags = FLAG_CMD | FLAG_SHIFT;
    assert!(matches_binding(KC_F1, flags, &binding("F1", true, false, true, false)));
    assert!(!matches_binding(KC_F1, flags, &binding("F1", true, false, false, false)));
}

// Windows virtual key codes
const VK_F1: u16 = 0x70;
const VK_F2: u16 = 0x71;
const VK_F3: u16 = 0x72;

#[test]
fn hotkeys_exact_match_no_modifiers() {
    assert!(matches_keyboard_binding(
        VK_F1, 0, false, false, false, false,
        &binding("F1", false, false, false, false)
    ));
}

#[test]
fn hotkeys_wrong_key_returns_false() {
    assert!(!matches_keyboard_binding(
        VK_F2, 0, false, false, false, false,
        &binding("F1", false, false, false, false)
    ));
}

#[test]
fn hotkeys_unknown_key_string_returns_false() {
    assert!(!matches_keyboard_binding(
        VK_F1, 0, false, false, false, false,
        &binding("Banana", false, false, false, false)
    ));
}

#[test]
fn modifier_mismatch_shift_returns_false() {
    assert!(!matches_keyboard_binding(
        VK_F1, 0, true, false, false, false,
        &binding("F1", false, false, false, false)
    ));
}

#[test]
fn hotkeys_modifier_match_shift_returns_true() {
    assert!(matches_keyboard_binding(
        VK_F1, 0, true, false, false, false,
        &binding("F1", false, false, true, false)
    ));
}

#[test]
fn hotkeys_modifier_match_ctrl_returns_true() {
    assert!(matches_keyboard_binding(
        VK_F2, 0, false, true, false, false,
        &binding("F2", false, false, false, true)
    ));
}

#[test]
fn hotkeys_modifier_match_alt_returns_true() {
    assert!(matches_keyboard_binding(
        VK_F3, 0, false, false, true, false,
        &binding("F3", false, true, false, false)
    ));
}

#[test]
fn modifier_mismatch_ctrl_returns_false() {
    assert!(!matches_keyboard_binding(
        VK_F1, 0, false, true, false, false,
        &binding("F1", false, false, false, false)
    ));
}

#[test]
fn modifier_mismatch_alt_returns_false() {
    assert!(!matches_keyboard_binding(
        VK_F1, 0, false, false, true, false,
        &binding("F1", false, false, false, false)
    ));
}

#[test]
fn hotkeys_multiple_modifiers_must_all_match() {
    assert!(matches_keyboard_binding(
        VK_F1, 0, true, true, false, false,
        &binding("F1", false, false, true, true)
    ));
    assert!(!matches_keyboard_binding(
        VK_F1, 0, true, false, false, false,
        &binding("F1", false, false, true, true)
    ));
}

const VK_NUMPAD0: u16 = 0x60;
const VK_NUMPAD_ADD: u16 = 0x6B;
const VK_NUMPAD_DECIMAL: u16 = 0x6E;

#[test]
fn numpad0_maps_correctly() {
    assert_eq!(js_code_to_vk("Numpad0"), Some(VK_NUMPAD0));
}

#[test]
fn numpad_add_maps_correctly() {
    assert_eq!(js_code_to_vk("NumpadAdd"), Some(VK_NUMPAD_ADD));
}

#[test]
fn numpad_decimal_maps_correctly() {
    assert_eq!(js_code_to_vk("NumpadDecimal"), Some(VK_NUMPAD_DECIMAL));
}

#[test]
fn numpad0_binding_matches() {
    assert!(matches_keyboard_binding(
        VK_NUMPAD0, 0, false, false, false, false,
        &binding("Numpad0", false, false, false, false)
    ));
}

const SCAN_KEY_Z: u32 = 0x2C;
const SCAN_KEY_W: u32 = 0x11;
const VK_W: u16 = 0x57;
const VK_Z: u16 = 0x5A;

#[test]
fn letter_key_matches_by_scan_code_not_vk() {
    assert!(matches_keyboard_binding(
        VK_W, SCAN_KEY_Z, false, false, false, false,
        &binding("KeyZ", false, false, false, false)
    ));
}

#[test]
fn letter_key_wrong_scan_no_match() {
    assert!(!matches_keyboard_binding(
        VK_Z, SCAN_KEY_W, false, false, false, false,
        &binding("KeyZ", false, false, false, false)
    ));
}

#[test]
fn mouse_exact_match() {
    assert!(matches_mouse_binding(
        "Mouse4", false, false, false, false,
        &binding("Mouse4", false, false, false, false)
    ));
}

#[test]
fn mouse_wrong_button_returns_false() {
    assert!(!matches_mouse_binding(
        "Mouse5", false, false, false, false,
        &binding("Mouse4", false, false, false, false)
    ));
}

#[test]
fn mouse_modifier_mismatch_returns_false() {
    assert!(!matches_mouse_binding(
        "Mouse4", true, false, false, false,
        &binding("Mouse4", false, false, false, false)
    ));
}

// ---------------------------------------------------------------------------
// Further scenarios
// ---------------------------------------------------------------------------

#[test]
fn mac_keycodes_for_letters_digits_and_function_keys() {
    assert_eq!(js_code_to_mac_keycode("KeyA"), Some(0x00));
    assert_eq!(js_code_to_mac_keycode("F1"), Some(0x7A));
    assert_eq!(js_code_to_mac_keycode("F12"), Some(0x6F));
    assert_eq!(js_code_to_mac_keycode("Digit0"), Some(0x1D));
    assert_eq!(js_code_to_mac_keycode("Space"), Some(0x31));
    assert_eq!(js_code_to_mac_keycode("Enter"), None);
}

#[test]
fn win_codes_for_letters_digits_and_function_keys() {
    assert_eq!(js_code_to_scan("KeyQ"), Some(0x10));
    assert_eq!(js_code_to_scan("KeyM"), Some(0x32));
    assert_eq!(js_code_to_scan("F1"), None);
    assert_eq!(js_code_to_vk("F12"), Some(0x7B));
    assert_eq!(js_code_to_vk("Digit5"), Some(0x35));
    assert_eq!(js_code_to_vk("Banana"), None);
}

#[test]
fn mac_hotkey_target_picks_first_action_binding() {
    let hk = vec![
        HotkeyBinding { action: "other".into(), key: "F1".into(), cmd: false, alt: false, shift: false, ctrl: false },
        HotkeyBinding { action: "prev".into(), key: "F1".into(), cmd: false, alt: false, shift: false, ctrl: false },
        HotkeyBinding { action: "next".into(), key: "F1".into(), cmd: false, alt: false, shift: false, ctrl: false },
    ];
    assert_eq!(mac_hotkey_target(&hk, KC_F1, 0), Some(1));
    assert_eq!(mac_hotkey_target(&hk, KC_F2, 0), None);
    assert_eq!(mac_hotkey_target(&hk, KC_F1, FLAG_CMD), None);
}

fn state_with_radial_on(key: &str) -> AppState {
    let mut state = AppState::from_prefs(Preferences::with_language("en".into()));
    state.set_hotkey("radial", key.to_string(), false, false, false, false);
    state
}

#[test]
fn mac_key_down_decides_action() {
    let mut state = state_with_radial_on("F4");
    assert_eq!(mac_key_down(&mut state, KC_F1, 0, 0), KeyPress::Command(HotkeyCommand::Prev));
    assert_eq!(mac_key_down(&mut state, KC_F2, 0, 0), KeyPress::Command(HotkeyCommand::Next));
    assert_eq!(mac_key_down(&mut state, KC_F3, 0, 0), KeyPress::Command(HotkeyCommand::Principal));
    assert_eq!(mac_key_down(&mut state, KC_F1, FLAG_SHIFT, 0), KeyPress::Ignore);
    assert!(!state.radial_open);
    assert_eq!(mac_key_down(&mut state, 0x76, 0, 0), KeyPress::ShowRadial);
    assert!(state.radial_open);
    // Key repeat while open.
    assert_eq!(mac_key_down(&mut state, 0x76, 0, 0), KeyPress::Ignore);
    assert!(state.radial_open);
}

#[test]
fn radial_release_closes_on_matching_key() {
    let mut state = state_with_radial_on("F4");
    assert_eq!(mac_radial_release(&mut state, 0x76), 0);
    assert!(press_radial(&mut state));
    assert!(!press_radial(&mut state));
    assert_eq!(mac_radial_release(&mut state, KC_F1), 0);
    assert!(state.radial_open);
    assert_eq!(mac_radial_release(&mut state, 0x76), 1);
    assert!(!state.radial_open);

    let mut state = state_with_radial_on("KeyZ");
    press_radial(&mut state);
    assert_eq!(win_radial_release_key(&mut state, 0x5A, 0x11), 0);
    assert_eq!(win_radial_release_key(&mut state, 0x57, 0x2C), 1);
    assert!(!state.radial_open);

    let mut state = state_with_radial_on("Mouse4");
    press_radial(&mut state);
    assert_eq!(win_radial_release_button(&mut state, "Mouse5"), 0);
    assert!(state.radial_open);
    assert_eq!(win_radial_release_button(&mut state, "Mouse4"), 1);
    assert!(!state.radial_open);
}

#[test]
fn unbound_radial_key_never_closes() {
    let mut state = AppState::from_prefs(Preferences::with_language("en".into()));
    state.radial_open = true;
    assert_eq!(mac_radial_release(&mut state, 0x00), 0);
    assert!(state.radial_open);
}

#[test]
fn hotkey_focus_follows_foreground_then_cycles() {
    let mut state = AppState::from_prefs(Preferences::with_language("en".into()));
    for (i, n) in ["A", "B", "C"].iter().enumerate() {
        state.profiles.push(AccountProfile {
            character_name: n.to_string(),
            color: None,
            icon_path: None,
            is_principal: i == 2,
            is_skipped: false,
        });
        state.accounts.push(GameWindow {
            character_name: n.to_string(),
            window_id: 10 + i as u64,
            pid: 1,
            title: format!("{} - Dofus Retro v1", n),
        });
    }
    let w = state.hotkey_focus(HotkeyCommand::Next, 11).unwrap();
    assert_eq!(w.character_name, "C");
    let w = state.hotkey_focus(HotkeyCommand::Prev, 0).unwrap();
    assert_eq!(w.character_name, "B");
    let w = state.hotkey_focus(HotkeyCommand::Principal, 10).unwrap();
    assert_eq!(w.character_name, "C");
    assert_eq!(state.current_index, 0);
}

#[test]
fn command_for_names_the_three_moves() {
    assert_eq!(command_for("next"), Some(HotkeyCommand::Next));
    assert_eq!(command_for("prev"), Some(HotkeyCommand::Prev));
    assert_eq!(command_for("principal"), Some(HotkeyCommand::Principal));
    assert_eq!(command_for("radial"), None);
    assert_eq!(command_for("Next"), None);
}

#[test]
fn can_hotkey_focus_guards_backward_move() {
    let mut state = AppState::from_prefs(Preferences::with_language("en".into()));
    assert!(state.can_hotkey_focus(HotkeyCommand::Prev, 0));
    state.accounts.push(GameWindow {
        character_name: "A".into(),
        window_id: 10,
        pid: 1,
        title: "A - Dofus Retro v1".into(),
    });
    state.profiles.push(AccountProfile {
        character_name: "A".into(),
        color: None,
        icon_path: None,
        is_principal: true,
        is_skipped: true,
    });
    state.current_index = 7;
    assert!(!state.can_hotkey_focus(HotkeyCommand::Prev, 0));
    assert!(state.can_hotkey_focus(HotkeyCommand::Next, 0));
    // The foreground window moves the position back in range first.
    assert!(state.can_hotkey_focus(HotkeyCommand::Prev, 10));
}

#[test]
fn windows_press_lists_matching_actions_in_order() {
    let hk = vec![
        binding("F1", false, false, false, false),
        HotkeyBinding { action: "next".into(), key: "KeyQ".into(), cmd: false, alt: false, shift: true, ctrl: false },
        HotkeyBinding { action: "radial".into(), key: "F1".into(), cmd: false, alt: false, shift: false, ctrl: false },
        HotkeyBinding { action: "principal".into(), key: "Mouse4".into(), cmd: false, alt: false, shift: false, ctrl: false },
    ];
    // F1 is virtual-key 0x70.
    assert_eq!(win_key_actions(&hk, 0x70, 0x3B, false, false, false, false), vec!["test".to_string(), "radial".to_string()]);
    assert_eq!(win_key_actions(&hk, 0x70, 0x3B, true, false, false, false), Vec::<String>::new());
    // KeyQ matches by scan code 0x10 whatever the layout's virtual key.
    assert_eq!(win_key_actions(&hk, 0x41, 0x10, true, false, false, false), vec!["next".to_string()]);
    assert_eq!(win_button_actions(&hk, "Mouse4", false, false, false, false), vec!["principal".to_string()]);
    assert_eq!(win_button_actions(&hk, "Mouse5", false, false, false, false), Vec::<String>::new());
}

fn two_accounts_with(hk: Vec<HotkeyBinding>) -> AppState {
    let mut state = AppState::from_prefs(Preferences::with_language("en".into()));
    state.hotkeys = hk;
    for (i, n) in ["A", "B"].iter().enumerate() {
        state.accounts.push(GameWindow {
            character_name: n.to_string(),
            window_id: 20 + i as u64,
            pid: 1,
            title: format!("{} - Dofus Retro v1", n),
        });
    }
    state
}

#[test]
fn mac_key_down_follows_foreground_before_unknown_and_command_bindings() {
    let other = HotkeyBinding { action: "other".into(), key: "F5".into(), cmd: false, alt: false, shift: false, ctrl: false };
    let radial = HotkeyBinding { action: "radial".into(), key: "F5".into(), cmd: false, alt: false, shift: false, ctrl: false };
    let next = HotkeyBinding { action: "next".into(), key: "F5".into(), cmd: false, alt: false, shift: false, ctrl: false };
    let kc_f5 = js_code_to_mac_keycode("F5").unwrap();

    // A matching binding with an unknown action still follows the foreground window.
    let mut state = two_accounts_with(vec![other.clone()]);
    assert!(mac_key_needs_foreground(&state.hotkeys, kc_f5, 0));
    assert_eq!(mac_key_down(&mut state, kc_f5, 0, 21), KeyPress::Ignore);
    assert_eq!(state.current_index, 1);

    // ... also when a radial binding decides after it.
    let mut state = two_accounts_with(vec![other.clone(), radial.clone()]);
    assert_eq!(mac_key_down(&mut state, kc_f5, 0, 21), KeyPress::ShowRadial);
    assert_eq!(state.current_index, 1);
    assert!(state.radial_open);

    // A radial binding that decides first does not ask for the foreground window.
    let mut state = two_accounts_with(vec![radial, other]);
    assert!(!mac_key_needs_foreground(&state.hotkeys, kc_f5, 0));
    assert_eq!(mac_key_down(&mut state, kc_f5, 0, 21), KeyPress::ShowRadial);
    assert_eq!(state.current_index, 0);

    // A command binding follows the foreground window, then the command moves from there.
    let mut state = two_accounts_with(vec![next]);
    assert_eq!(mac_key_down(&mut state, kc_f5, 0, 21), KeyPress::Command(HotkeyCommand::Next));
    assert_eq!(state.current_index, 1);
    assert_eq!(state.hotkey_focus(HotkeyCommand::Next, 0).unwrap().character_name, "A");
}
