//! Global hotkeys: the browser key codes a binding is recorded with, the
//! native key codes (macOS virtual key codes, Windows virtual-key and scan
//! codes) they stand for, and when a key event matches a binding.
use vstd::prelude::*;
use crate::text::{chars_of, starts_with, str_starts_with};
use crate::state::{
    HotkeyBinding, AppState, window_id_index, cycle_next_index, cycle_prev_index, principal_window,
    prev_defined, find_window_id,
};
use crate::platform::GameWindow;
use crate::search::{first_index, opt_int, lemma_first_index_is, lemma_first_index};

verus! {

/// `v` holds exactly the characters of `lit`.
pub fn chars_are(v: &Vec<char>, lit: &str) -> (r: bool)
    ensures
        r == (v@ == lit@),
{
    let w = chars_of(lit);
    if v.len() != w.len() {
        return false;
    }
    let mut i: usize = 0;
    while i < v.len()
        invariant
            v.len() == w.len(),
            w@ == lit@,
            i <= v.len(),
            forall|j: int| 0 <= j < i ==> v@[j] == w@[j],
        decreases v.len() - i,
    {
        if v[i] != w[i] {
            return false;
        }
        i += 1;
    }
    assert(v@ =~= w@);
    true
}

// ---------------------------------------------------------------------------
// macOS
// ---------------------------------------------------------------------------

/// Command modifier flag of a macOS keyboard event.
pub const FLAG_CMD: u64 = 0x00100000;
/// Option modifier flag of a macOS keyboard event.
pub const FLAG_ALT: u64 = 0x00080000;
/// Shift modifier flag of a macOS keyboard event.
pub const FLAG_SHIFT: u64 = 0x00020000;
/// Control modifier flag of a macOS keyboard event.
pub const FLAG_CTRL: u64 = 0x00040000;

/// The macOS virtual key code of a browser key code.
pub open spec fn mac_keycode(code: Seq<char>) -> Option<u16> {
    if code == "KeyA"@ {
        Some(0x00)
    } else if code == "KeyS"@ {
        Some(0x01)
    } else if code == "KeyD"@ {
        Some(0x02)
    } else if code == "KeyF"@ {
        Some(0x03)
    } else if code == "KeyH"@ {
        Some(0x04)
    } else if code == "KeyG"@ {
        Some(0x05)
    } else if code == "KeyZ"@ {
        Some(0x06)
    } else if code == "KeyX"@ {
        Some(0x07)
    } else if code == "KeyC"@ {
        Some(0x08)
    } else if code == "KeyV"@ {
        Some(0x09)
    } else if code == "KeyB"@ {
        Some(0x0B)
    } else if code == "KeyQ"@ {
        Some(0x0C)
    } else if code == "KeyW"@ {
        Some(0x0D)
    } else if code == "KeyE"@ {
        Some(0x0E)
    } else if code == "KeyR"@ {
        Some(0x0F)
    } else if code == "KeyY"@ {
        Some(0x10)
    } else if code == "KeyT"@ {
        Some(0x11)
    } else if code == "KeyU"@ {
        Some(0x20)
    } else if code == "KeyI"@ {
        Some(0x22)
    } else if code == "KeyO"@ {
        Some(0x1F)
    } else if code == "KeyP"@ {
        Some(0x23)
    } else if code == "KeyL"@ {
        Some(0x25)
    } else if code == "KeyJ"@ {
        Some(0x26)
    } else if code == "KeyK"@ {
        Some(0x28)
    } else if code == "KeyN"@ {
        Some(0x2D)
    } else if code == "KeyM"@ {
        Some(0x2E)
    } else if code == "Digit1"@ {
        Some(0x12)
    } else if code == "Digit2"@ {
        Some(0x13)
    } else if code == "Digit3"@ {
        Some(0x14)
    } else if code == "Digit4"@ {
        Some(0x15)
    } else if code == "Digit5"@ {
        Some(0x17)
    } else if code == "Digit6"@ {
        Some(0x16)
    } else if code == "Digit7"@ {
        Some(0x1A)
    } else if code == "Digit8"@ {
        Some(0x1C)
    } else if code == "Digit9"@ {
        Some(0x19)
    } else if code == "Digit0"@ {
        Some(0x1D)
    } else if code == "Space"@ {
        Some(0x31)
    } else if code == "Tab"@ {
        Some(0x30)
    } else if code == "ArrowLeft"@ {
        Some(0x7B)
    } else if code == "ArrowRight"@ {
        Some(0x7C)
    } else if code == "ArrowDown"@ {
        Some(0x7D)
    } else if code == "ArrowUp"@ {
        Some(0x7E)
    } else if code == "F1"@ {
        Some(0x7A)
    } else if code == "F2"@ {
        Some(0x78)
    } else if code == "F3"@ {
        Some(0x63)
    } else if code == "F4"@ {
        Some(0x76)
    } else if code == "F5"@ {
        Some(0x60)
    } else if code == "F6"@ {
        Some(0x61)
    } else if code == "F7"@ {
        Some(0x62)
    } else if code == "F8"@ {
        Some(0x64)
    } else if code == "F9"@ {
        Some(0x65)
    } else if code == "F10"@ {
        Some(0x6D)
    } else if code == "F11"@ {
        Some(0x67)
    } else if code == "F12"@ {
        Some(0x6F)
    } else {
        None
    }
}

/// The macOS virtual key code of a browser key code.
pub fn js_code_to_mac_keycode(code: &str) -> (r: Option<u16>)
    ensures
        r == mac_keycode(code@),
{
    let v = chars_of(code);
    if chars_are(&v, "KeyA") {
        return Some(0x00);
    }
    if chars_are(&v, "KeyS") {
        return Some(0x01);
    }
    if chars_are(&v, "KeyD") {
        return Some(0x02);
    }
    if chars_are(&v, "KeyF") {
        return Some(0x03);
    }
    if chars_are(&v, "KeyH") {
        return Some(0x04);
    }
    if chars_are(&v, "KeyG") {
        return Some(0x05);
    }
    if chars_are(&v, "KeyZ") {
        return Some(0x06);
    }
    if chars_are(&v, "KeyX") {
        return Some(0x07);
    }
    if chars_are(&v, "KeyC") {
        return Some(0x08);
    }
    if chars_are(&v, "KeyV") {
        return Some(0x09);
    }
    if chars_are(&v, "KeyB") {
        return Some(0x0B);
    }
    if chars_are(&v, "KeyQ") {
        return Some(0x0C);
    }
    if chars_are(&v, "KeyW") {
        return Some(0x0D);
    }
    if chars_are(&v, "KeyE") {
        return Some(0x0E);
    }
    if chars_are(&v, "KeyR") {
        return Some(0x0F);
    }
    if chars_are(&v, "KeyY") {
        return Some(0x10);
    }
    if chars_are(&v, "KeyT") {
        return Some(0x11);
    }
    if chars_are(&v, "KeyU") {
        return Some(0x20);
    }
    if chars_are(&v, "KeyI") {
        return Some(0x22);
    }
    if chars_are(&v, "KeyO") {
        return Some(0x1F);
    }
    if chars_are(&v, "KeyP") {
        return Some(0x23);
    }
    if chars_are(&v, "KeyL") {
        return Some(0x25);
    }
    if chars_are(&v, "KeyJ") {
        return Some(0x26);
    }
    if chars_are(&v, "KeyK") {
        return Some(0x28);
    }
    if chars_are(&v, "KeyN") {
        return Some(0x2D);
    }
    if chars_are(&v, "KeyM") {
        return Some(0x2E);
    }
    if chars_are(&v, "Digit1") {
        return Some(0x12);
    }
    if chars_are(&v, "Digit2") {
        return Some(0x13);
    }
    if chars_are(&v, "Digit3") {
        return Some(0x14);
    }
    if chars_are(&v, "Digit4") {
        return Some(0x15);
    }
    if chars_are(&v, "Digit5") {
        return Some(0x17);
    }
    if chars_are(&v, "Digit6") {
        return Some(0x16);
    }
    if chars_are(&v, "Digit7") {
        return Some(0x1A);
    }
    if chars_are(&v, "Digit8") {
        return Some(0x1C);
    }
    if chars_are(&v, "Digit9") {
        return Some(0x19);
    }
    if chars_are(&v, "Digit0") {
        return Some(0x1D);
    }
    if chars_are(&v, "Space") {
        return Some(0x31);
    }
    if chars_are(&v, "Tab") {
        return Some(0x30);
    }
    if chars_are(&v, "ArrowLeft") {
        return Some(0x7B);
    }
    if chars_are(&v, "ArrowRight") {
        return Some(0x7C);
    }
    if chars_are(&v, "ArrowDown") {
        return Some(0x7D);
    }
    if chars_are(&v, "ArrowUp") {
        return Some(0x7E);
    }
    if chars_are(&v, "F1") {
        return Some(0x7A);
    }
    if chars_are(&v, "F2") {
        return Some(0x78);
    }
    if chars_are(&v, "F3") {
        return Some(0x63);
    }
    if chars_are(&v, "F4") {
        return Some(0x76);
    }
    if chars_are(&v, "F5") {
        return Some(0x60);
    }
    if chars_are(&v, "F6") {
        return Some(0x61);
    }
    if chars_are(&v, "F7") {
        return Some(0x62);
    }
    if chars_are(&v, "F8") {
        return Some(0x64);
    }
    if chars_are(&v, "F9") {
        return Some(0x65);
    }
    if chars_are(&v, "F10") {
        return Some(0x6D);
    }
    if chars_are(&v, "F11") {
        return Some(0x67);
    }
    if chars_are(&v, "F12") {
        return Some(0x6F);
    }
    None
}

/// A macOS key event (virtual key code and modifier flags) matches `b`: the
/// key is the binding's and each modifier is down exactly when the binding
/// asks for it.
pub open spec fn mac_matches(keycode: u16, flags: u64, b: HotkeyBinding) -> bool {
    match mac_keycode(b.key@) {
        Some(k) => keycode == k && ((flags & FLAG_CMD) != 0) == b.cmd && ((flags & FLAG_ALT) != 0)
            == b.alt && ((flags & FLAG_SHIFT) != 0) == b.shift && ((flags & FLAG_CTRL) != 0)
            == b.ctrl,
        None => false,
    }
}

/// Whether a macOS key event matches `binding`.
pub fn matches_binding(keycode: u16, flags: u64, binding: &HotkeyBinding) -> (r: bool)
    ensures
        r == mac_matches(keycode, flags, *binding),
{
    let expected = match js_code_to_mac_keycode(binding.key.as_str()) {
        Some(k) => k,
        None => return false,
    };
    if keycode != expected {
        return false;
    }
    let has_cmd = flags & FLAG_CMD != 0;
    let has_alt = flags & FLAG_ALT != 0;
    let has_shift = flags & FLAG_SHIFT != 0;
    let has_ctrl = flags & FLAG_CTRL != 0;
    has_cmd == binding.cmd && has_alt == binding.alt && has_shift == binding.shift && has_ctrl
        == binding.ctrl
}

/// The actions a key press can trigger.
pub open spec fn is_hotkey_action(a: Seq<char>) -> bool {
    a == "radial"@ || a == "next"@ || a == "prev"@ || a == "principal"@
}

pub open spec fn mac_target(hs: Seq<HotkeyBinding>, keycode: u16, flags: u64) -> spec_fn(int) -> bool {
    |i: int| mac_matches(keycode, flags, hs[i]) && is_hotkey_action(hs[i].action@)
}

/// The binding a macOS key press triggers: the first that matches it and
/// names one of the hotkey actions.
pub fn mac_hotkey_target(hotkeys: &Vec<HotkeyBinding>, keycode: u16, flags: u64) -> (r: Option<usize>)
    ensures
        opt_int(r) == first_index(hotkeys@.len() as int, mac_target(hotkeys@, keycode, flags)),
{
    let mut i: usize = 0;
    while i < hotkeys.len()
        invariant
            i <= hotkeys.len(),
            forall|j: int| 0 <= j < i ==> !#[trigger] mac_target(hotkeys@, keycode, flags)(j),
        decreases hotkeys.len() - i,
    {
        let b = &hotkeys[i];
        if matches_binding(keycode, flags, b) {
            let a = chars_of(b.action.as_str());
            if chars_are(&a, "radial") || chars_are(&a, "next") || chars_are(&a, "prev")
                || chars_are(&a, "principal") {
                proof {
                    lemma_first_index_is(hotkeys@.len() as int, mac_target(hotkeys@, keycode, flags), i as int);
                }
                return Some(i);
            }
        }
        i += 1;
    }
    proof {
        lemma_first_index(hotkeys@.len() as int, mac_target(hotkeys@, keycode, flags));
    }
    None
}

// ---------------------------------------------------------------------------
// Windows
// ---------------------------------------------------------------------------

/// The layout-independent scan code of a letter key (`Key*`).
pub open spec fn win_scan(code: Seq<char>) -> Option<u32> {
    if code == "KeyQ"@ {
        Some(0x10)
    } else if code == "KeyW"@ {
        Some(0x11)
    } else if code == "KeyE"@ {
        Some(0x12)
    } else if code == "KeyR"@ {
        Some(0x13)
    } else if code == "KeyT"@ {
        Some(0x14)
    } else if code == "KeyY"@ {
        Some(0x15)
    } else if code == "KeyU"@ {
        Some(0x16)
    } else if code == "KeyI"@ {
        Some(0x17)
    } else if code == "KeyO"@ {
        Some(0x18)
    } else if code == "KeyP"@ {
        Some(0x19)
    } else if code == "KeyA"@ {
        Some(0x1E)
    } else if code == "KeyS"@ {
        Some(0x1F)
    } else if code == "KeyD"@ {
        Some(0x20)
    } else if code == "KeyF"@ {
        Some(0x21)
    } else if code == "KeyG"@ {
        Some(0x22)
    } else if code == "KeyH"@ {
        Some(0x23)
    } else if code == "KeyJ"@ {
        Some(0x24)
    } else if code == "KeyK"@ {
        Some(0x25)
    } else if code == "KeyL"@ {
        Some(0x26)
    } else if code == "KeyZ"@ {
        Some(0x2C)
    } else if code == "KeyX"@ {
        Some(0x2D)
    } else if code == "KeyC"@ {
        Some(0x2E)
    } else if code == "KeyV"@ {
        Some(0x2F)
    } else if code == "KeyB"@ {
        Some(0x30)
    } else if code == "KeyN"@ {
        Some(0x31)
    } else if code == "KeyM"@ {
        Some(0x32)
    } else {
        None
    }
}

/// The scan code of a letter key code.
pub fn js_code_to_scan(code: &str) -> (r: Option<u32>)
    ensures
        r == win_scan(code@),
{
    let v = chars_of(code);
    if chars_are(&v, "KeyQ") {
        return Some(0x10);
    }
    if chars_are(&v, "KeyW") {
        return Some(0x11);
    }
    if chars_are(&v, "KeyE") {
        return Some(0x12);
    }
    if chars_are(&v, "KeyR") {
        return Some(0x13);
    }
    if chars_are(&v, "KeyT") {
        return Some(0x14);
    }
    if chars_are(&v, "KeyY") {
        return Some(0x15);
    }
    if chars_are(&v, "KeyU") {
        return Some(0x16);
    }
    if chars_are(&v, "KeyI") {
        return Some(0x17);
    }
    if chars_are(&v, "KeyO") {
        return Some(0x18);
    }
    if chars_are(&v, "KeyP") {
        return Some(0x19);
    }
    if chars_are(&v, "KeyA") {
        return Some(0x1E);
    }
    if chars_are(&v, "KeyS") {
        return Some(0x1F);
    }
    if chars_are(&v, "KeyD") {
        return Some(0x20);
    }
    if chars_are(&v, "KeyF") {
        return Some(0x21);
    }
    if chars_are(&v, "KeyG") {
        return Some(0x22);
    }
    if chars_are(&v, "KeyH") {
        return Some(0x23);
    }
    if chars_are(&v, "KeyJ") {
        return Some(0x24);
    }
    if chars_are(&v, "KeyK") {
        return Some(0x25);
    }
    if chars_are(&v, "KeyL") {
        return Some(0x26);
    }
    if chars_are(&v, "KeyZ") {
        return Some(0x2C);
    }
    if chars_are(&v, "KeyX") {
        return Some(0x2D);
    }
    if chars_are(&v, "KeyC") {
        return Some(0x2E);
    }
    if chars_are(&v, "KeyV") {
        return Some(0x2F);
    }
    if chars_are(&v, "KeyB") {
        return Some(0x30);
    }
    if chars_are(&v, "KeyN") {
        return Some(0x31);
    }
    if chars_are(&v, "KeyM") {
        return Some(0x32);
    }
    None
}

/// The Windows virtual-key code of a non-letter browser key code.
pub open spec fn win_vk(code: Seq<char>) -> Option<u16> {
    if code == "Digit0"@ {
        Some(0x30)
    } else if code == "Digit1"@ {
        Some(0x31)
    } else if code == "Digit2"@ {
        Some(0x32)
    } else if code == "Digit3"@ {
        Some(0x33)
    } else if code == "Digit4"@ {
        Some(0x34)
    } else if code == "Digit5"@ {
        Some(0x35)
    } else if code == "Digit6"@ {
        Some(0x36)
    } else if code == "Digit7"@ {
        Some(0x37)
    } else if code == "Digit8"@ {
        Some(0x38)
    } else if code == "Digit9"@ {
        Some(0x39)
    } else if code == "F1"@ {
        Some(0x70)
    } else if code == "F2"@ {
        Some(0x71)
    } else if code == "F3"@ {
        Some(0x72)
    } else if code == "F4"@ {
        Some(0x73)
    } else if code == "F5"@ {
        Some(0x74)
    } else if code == "F6"@ {
        Some(0x75)
    } else if code == "F7"@ {
        Some(0x76)
    } else if code == "F8"@ {
        Some(0x77)
    } else if code == "F9"@ {
        Some(0x78)
    } else if code == "F10"@ {
        Some(0x79)
    } else if code == "F11"@ {
        Some(0x7A)
    } else if code == "F12"@ {
        Some(0x7B)
    } else if code == "Space"@ {
        Some(0x20)
    } else if code == "Tab"@ {
        Some(0x09)
    } else if code == "ArrowLeft"@ {
        Some(0x25)
    } else if code == "ArrowUp"@ {
        Some(0x26)
    } else if code == "ArrowRight"@ {
        Some(0x27)
    } else if code == "ArrowDown"@ {
        Some(0x28)
    } else if code == "Numpad0"@ {
        Some(0x60)
    } else if code == "Numpad1"@ {
        Some(0x61)
    } else if code == "Numpad2"@ {
        Some(0x62)
    } else if code == "Numpad3"@ {
        Some(0x63)
    } else if code == "Numpad4"@ {
        Some(0x64)
    } else if code == "Numpad5"@ {
        Some(0x65)
    } else if code == "Numpad6"@ {
        Some(0x66)
    } else if code == "Numpad7"@ {
        Some(0x67)
    } else if code == "Numpad8"@ {
        Some(0x68)
    } else if code == "Numpad9"@ {
        Some(0x69)
    } else if code == "NumpadMultiply"@ {
        Some(0x6A)
    } else if code == "NumpadAdd"@ {
        Some(0x6B)
    } else if code == "NumpadSubtract"@ {
        Some(0x6D)
    } else if code == "NumpadDecimal"@ {
        Some(0x6E)
    } else if code == "NumpadDivide"@ {
        Some(0x6F)
    } else {
        None
    }
}

/// The Windows virtual-key code of a browser key code.
pub fn js_code_to_vk(code: &str) -> (r: Option<u16>)
    ensures
        r == win_vk(code@),
{
    let v = chars_of(code);
    if chars_are(&v, "Digit0") {
        return Some(0x30);
    }
    if chars_are(&v, "Digit1") {
        return Some(0x31);
    }
    if chars_are(&v, "Digit2") {
        return Some(0x32);
    }
    if chars_are(&v, "Digit3") {
        return Some(0x33);
    }
    if chars_are(&v, "Digit4") {
        return Some(0x34);
    }
    if chars_are(&v, "Digit5") {
        return Some(0x35);
    }
    if chars_are(&v, "Digit6") {
        return Some(0x36);
    }
    if chars_are(&v, "Digit7") {
        return Some(0x37);
    }
    if chars_are(&v, "Digit8") {
        return Some(0x38);
    }
    if chars_are(&v, "Digit9") {
        return Some(0x39);
    }
    if chars_are(&v, "F1") {
        return Some(0x70);
    }
    if chars_are(&v, "F2") {
        return Some(0x71);
    }
    if chars_are(&v, "F3") {
        return Some(0x72);
    }
    if chars_are(&v, "F4") {
        return Some(0x73);
    }
    if chars_are(&v, "F5") {
        return Some(0x74);
    }
    if chars_are(&v, "F6") {
        return Some(0x75);
    }
    if chars_are(&v, "F7") {
        return Some(0x76);
    }
    if chars_are(&v, "F8") {
        return Some(0x77);
    }
    if chars_are(&v, "F9") {
        return Some(0x78);
    }
    if chars_are(&v, "F10") {
        return Some(0x79);
    }
    if chars_are(&v, "F11") {
        return Some(0x7A);
    }
    if chars_are(&v, "F12") {
        return Some(0x7B);
    }
    if chars_are(&v, "Space") {
        return Some(0x20);
    }
    if chars_are(&v, "Tab") {
        return Some(0x09);
    }
    if chars_are(&v, "ArrowLeft") {
        return Some(0x25);
    }
    if chars_are(&v, "ArrowUp") {
        return Some(0x26);
    }
    if chars_are(&v, "ArrowRight") {
        return Some(0x27);
    }
    if chars_are(&v, "ArrowDown") {
        return Some(0x28);
    }
    if chars_are(&v, "Numpad0") {
        return Some(0x60);
    }
    if chars_are(&v, "Numpad1") {
        return Some(0x61);
    }
    if chars_are(&v, "Numpad2") {
        return Some(0x62);
    }
    if chars_are(&v, "Numpad3") {
        return Some(0x63);
    }
    if chars_are(&v, "Numpad4") {
        return Some(0x64);
    }
    if chars_are(&v, "Numpad5") {
        return Some(0x65);
    }
    if chars_are(&v, "Numpad6") {
        return Some(0x66);
    }
    if chars_are(&v, "Numpad7") {
        return Some(0x67);
    }
    if chars_are(&v, "Numpad8") {
        return Some(0x68);
    }
    if chars_are(&v, "Numpad9") {
        return Some(0x69);
    }
    if chars_are(&v, "NumpadMultiply") {
        return Some(0x6A);
    }
    if chars_are(&v, "NumpadAdd") {
        return Some(0x6B);
    }
    if chars_are(&v, "NumpadSubtract") {
        return Some(0x6D);
    }
    if chars_are(&v, "NumpadDecimal") {
        return Some(0x6E);
    }
    if chars_are(&v, "NumpadDivide") {
        return Some(0x6F);
    }
    None
}

/// A Windows key event names the key of `b`: letter keys (`Key*`) by their
/// physical scan code, whatever the keyboard layout, other keys by virtual-key code.
pub open spec fn win_key_matches(vk: u16, scan: u32, b: HotkeyBinding) -> bool {
    if starts_with(b.key@, "Key"@) {
        win_scan(b.key@) == Some(scan)
    } else {
        win_vk(b.key@) == Some(vk)
    }
}

/// Whether a Windows key event names the key of `binding`.
pub fn keyboard_key_matches(vk: u16, scan: u32, binding: &HotkeyBinding) -> (r: bool)
    ensures
        r == win_key_matches(vk, scan, *binding),
{
    if str_starts_with(binding.key.as_str(), "Key") {
        js_code_to_scan(binding.key.as_str()) == Some(scan)
    } else {
        js_code_to_vk(binding.key.as_str()) == Some(vk)
    }
}

/// A Windows key event matches `binding`: the key is the binding's and each
/// modifier is down exactly when the binding asks for it.
pub fn matches_keyboard_binding(
    vk: u16,
    scan: u32,
    shift: bool,
    ctrl: bool,
    alt: bool,
    cmd: bool,
    binding: &HotkeyBinding,
) -> (r: bool)
    ensures
        r == (win_key_matches(vk, scan, *binding) && shift == binding.shift && ctrl == binding.ctrl
            && alt == binding.alt && cmd == binding.cmd),
{
    keyboard_key_matches(vk, scan, binding) && shift == binding.shift && ctrl == binding.ctrl && alt
        == binding.alt && cmd == binding.cmd
}

/// A mouse side button (`Mouse4`, `Mouse5`) press matches `binding`: the button
/// is the binding's key and each modifier is down exactly when the binding asks for it.
pub fn matches_mouse_binding(
    button: &str,
    shift: bool,
    ctrl: bool,
    alt: bool,
    cmd: bool,
    binding: &HotkeyBinding,
) -> (r: bool)
    ensures
        r == (binding.key@ == button@ && shift == binding.shift && ctrl == binding.ctrl && alt
            == binding.alt && cmd == binding.cmd),
{
    crate::text::str_eq(binding.key.as_str(), button) && shift == binding.shift && ctrl
        == binding.ctrl && alt == binding.alt && cmd == binding.cmd
}

/// The actions, in binding order, of the bindings in `hs` that `m` accepts.
pub open spec fn actions_matching(hs: Seq<HotkeyBinding>, m: spec_fn(HotkeyBinding) -> bool) -> Seq<Seq<char>>
    decreases hs.len(),
{
    if hs.len() == 0 {
        Seq::empty()
    } else {
        let rest = actions_matching(hs.drop_last(), m);
        if m(hs.last()) {
            rest.push(hs.last().action@)
        } else {
            rest
        }
    }
}

/// The bindings a Windows key event matches.
pub open spec fn key_event(vk: u16, scan: u32, shift: bool, ctrl: bool, alt: bool, cmd: bool) -> spec_fn(
    HotkeyBinding,
) -> bool {
    |b: HotkeyBinding|
        win_key_matches(vk, scan, b) && shift == b.shift && ctrl == b.ctrl && alt == b.alt && cmd == b.cmd
}

/// The bindings a mouse side button press matches.
pub open spec fn button_event(button: Seq<char>, shift: bool, ctrl: bool, alt: bool, cmd: bool) -> spec_fn(
    HotkeyBinding,
) -> bool {
    |b: HotkeyBinding| b.key@ == button && shift == b.shift && ctrl == b.ctrl && alt == b.alt && cmd == b.cmd
}

/// The actions to carry out for a Windows key press, in binding order.
pub fn win_key_actions(
    hotkeys: &[HotkeyBinding],
    vk: u16,
    scan: u32,
    shift: bool,
    ctrl: bool,
    alt: bool,
    cmd: bool,
) -> (r: Vec<String>)
    ensures
        r@.map_values(|a: String| a@) == actions_matching(hotkeys@, key_event(vk, scan, shift, ctrl, alt, cmd)),
{
    let ghost m = key_event(vk, scan, shift, ctrl, alt, cmd);
    let mut r: Vec<String> = Vec::new();
    let mut i: usize = 0;
    while i < hotkeys.len()
        invariant
            i <= hotkeys@.len(),
            m == key_event(vk, scan, shift, ctrl, alt, cmd),
            r@.map_values(|a: String| a@) == actions_matching(hotkeys@.take(i as int), m),
        decreases hotkeys.len() - i,
    {
        assert(hotkeys@.take(i + 1).drop_last() =~= hotkeys@.take(i as int));
        assert(hotkeys@.take(i + 1).last() == hotkeys@[i as int]);
        if matches_keyboard_binding(vk, scan, shift, ctrl, alt, cmd, &hotkeys[i]) {
            let ghost before = r@;
            r.push(hotkeys[i].action.clone());
            assert(r@.map_values(|a: String| a@) =~= before.map_values(|a: String| a@).push(
                hotkeys@[i as int].action@,
            ));
        }
        i += 1;
    }
    assert(hotkeys@.take(hotkeys@.len() as int) =~= hotkeys@);
    r
}

/// The actions to carry out for a mouse side button press, in binding order.
pub fn win_button_actions(
    hotkeys: &[HotkeyBinding],
    button: &str,
    shift: bool,
    ctrl: bool,
    alt: bool,
    cmd: bool,
) -> (r: Vec<String>)
    ensures
        r@.map_values(|a: String| a@) == actions_matching(hotkeys@, button_event(button@, shift, ctrl, alt, cmd)),
{
    let ghost m = button_event(button@, shift, ctrl, alt, cmd);
    let mut r: Vec<String> = Vec::new();
    let mut i: usize = 0;
    while i < hotkeys.len()
        invariant
            i <= hotkeys@.len(),
            m == button_event(button@, shift, ctrl, alt, cmd),
            r@.map_values(|a: String| a@) == actions_matching(hotkeys@.take(i as int), m),
        decreases hotkeys.len() - i,
    {
        assert(hotkeys@.take(i + 1).drop_last() =~= hotkeys@.take(i as int));
        assert(hotkeys@.take(i + 1).last() == hotkeys@[i as int]);
        if matches_mouse_binding(button, shift, ctrl, alt, cmd, &hotkeys[i]) {
            let ghost before = r@;
            r.push(hotkeys[i].action.clone());
            assert(r@.map_values(|a: String| a@) =~= before.map_values(|a: String| a@).push(
                hotkeys@[i as int].action@,
            ));
        }
        i += 1;
    }
    assert(hotkeys@.take(hotkeys@.len() as int) =~= hotkeys@);
    r
}

// ---------------------------------------------------------------------------
// What a key or button press does
// ---------------------------------------------------------------------------

/// The account moves a hotkey asks for.
#[derive(Debug, Clone, Copy, PartialEq, Eq, Structural)]
pub enum HotkeyCommand {
    Next,
    Prev,
    Principal,
}

/// The outcome of a hotkey press.
#[derive(Debug, Clone, Copy, PartialEq, Eq, Structural)]
pub enum KeyPress {
    /// Nothing to do (no binding, or the radial selector is already open).
    Ignore,
    /// The radial selector was opened: show it at the cursor.
    ShowRadial,
    /// Move to another account and focus it.
    Command(HotkeyCommand),
}

/// The move named by a binding's action, if it names one.
pub open spec fn command_of(action: Seq<char>) -> Option<HotkeyCommand> {
    if action == "next"@ {
        Some(HotkeyCommand::Next)
    } else if action == "prev"@ {
        Some(HotkeyCommand::Prev)
    } else if action == "principal"@ {
        Some(HotkeyCommand::Principal)
    } else {
        None
    }
}

/// The move a binding's action names, if it names one.
pub fn command_for(action: &str) -> (r: Option<HotkeyCommand>)
    ensures
        r == command_of(action@),
{
    let a = chars_of(action);
    if chars_are(&a, "next") {
        Some(HotkeyCommand::Next)
    } else if chars_are(&a, "prev") {
        Some(HotkeyCommand::Prev)
    } else if chars_are(&a, "principal") {
        Some(HotkeyCommand::Principal)
    } else {
        None
    }
}

/// Pressing the radial key: the selector opens unless it is already open
/// (a repeated key press).
pub fn press_radial(state: &mut AppState) -> (r: bool)
    ensures
        r == !old(state).radial_open,
        *final(state) == (AppState { radial_open: true, ..*old(state) }),
{
    if state.radial_open {
        return false;
    }
    state.radial_open = true;
    true
}

/// Whether a macOS key press follows the foreground window before it acts:
/// some binding whose action is not the radial one matches the press, and no
/// binding before it decides the press (see `mac_target`).
pub open spec fn mac_syncs(hs: Seq<HotkeyBinding>, keycode: u16, flags: u64) -> bool {
    exists|j: int|
        0 <= j < hs.len() && mac_matches(keycode, flags, #[trigger] hs[j]) && hs[j].action@ != "radial"@
            && match first_index(hs.len() as int, mac_target(hs, keycode, flags)) {
            Some(i) => j <= i,
            None => true,
        }
}

/// Whether a macOS key press needs the foreground window (see `mac_syncs`).
pub fn mac_key_needs_foreground(hotkeys: &Vec<HotkeyBinding>, keycode: u16, flags: u64) -> (r: bool)
    ensures
        r == mac_syncs(hotkeys@, keycode, flags),
{
    let ghost hs = hotkeys@;
    let ghost p = mac_target(hs, keycode, flags);
    let mut i: usize = 0;
    while i < hotkeys.len()
        invariant
            i <= hotkeys.len(),
            hs == hotkeys@,
            p == mac_target(hs, keycode, flags),
            forall|j: int| 0 <= j < i ==> !mac_matches(keycode, flags, #[trigger] hs[j]),
        decreases hotkeys.len() - i,
    {
        if matches_binding(keycode, flags, &hotkeys[i]) {
            let a = chars_of(hotkeys[i].action.as_str());
            proof {
                lemma_first_index(hs.len() as int, p);
            }
            if chars_are(&a, "radial") {
                proof {
                    assert(p(i as int));
                    lemma_first_index_is(hs.len() as int, p, i as int);
                    assert forall|j: int|
                        0 <= j < hs.len() && mac_matches(keycode, flags, #[trigger] hs[j]) && hs[j].action@
                            != "radial"@ implies !(j <= i) by {}
                }
                return false;
            }
            proof {
                match first_index(hs.len() as int, p) {
                    Some(k) => {
                        assert(!mac_matches(keycode, flags, hs[k]) || k >= i);
                    },
                    None => {},
                }
                assert(mac_matches(keycode, flags, hs[i as int]));
            }
            return true;
        }
        i += 1;
    }
    false
}

/// A macOS key press: the first binding that it matches and that names a
/// hotkey action decides; the radial action opens the selector unless it is
/// already open. Before that, when a binding other than the radial one matches
/// first (`mac_syncs`), the current account follows the foreground window
/// `fg_id` (0 when unknown; it is needed only then).
pub fn mac_key_down(state: &mut AppState, keycode: u16, flags: u64, fg_id: u64) -> (r: KeyPress)
    ensures
        ({
            let s1 = if mac_syncs(old(state).hotkeys@, keycode, flags) {
                after_foreground(*old(state), fg_id)
            } else {
                *old(state)
            };
            match first_index(old(state).hotkeys@.len() as int, mac_target(old(state).hotkeys@, keycode, flags)) {
                None => r == KeyPress::Ignore && *final(state) == s1,
                Some(i) => {
                    let a = old(state).hotkeys@[i].action@;
                    if a == "radial"@ {
                        &&& r == (if old(state).radial_open { KeyPress::Ignore } else { KeyPress::ShowRadial })
                        &&& *final(state) == (AppState { radial_open: true, ..s1 })
                    } else {
                        r == KeyPress::Command(command_of(a)->0) && *final(state) == s1
                    }
                },
            }
        }),
{
    if mac_key_needs_foreground(&state.hotkeys, keycode, flags) && fg_id != 0 {
        state.sync_current_from_window_id(fg_id);
    }
    let target = mac_hotkey_target(&state.hotkeys, keycode, flags);
    match target {
        None => KeyPress::Ignore,
        Some(i) => {
            proof {
                lemma_first_index(state.hotkeys@.len() as int, mac_target(state.hotkeys@, keycode, flags));
            }
            let a = chars_of(state.hotkeys[i].action.as_str());
            if chars_are(&a, "radial") {
                if press_radial(state) {
                    KeyPress::ShowRadial
                } else {
                    KeyPress::Ignore
                }
            } else if chars_are(&a, "next") {
                KeyPress::Command(HotkeyCommand::Next)
            } else if chars_are(&a, "prev") {
                KeyPress::Command(HotkeyCommand::Prev)
            } else {
                KeyPress::Command(HotkeyCommand::Principal)
            }
        },
    }
}

/// A binding of the radial action to a key.
pub open spec fn radial_key(b: HotkeyBinding) -> bool {
    b.action@ == "radial"@ && b.key@.len() > 0
}

/// How many of the bindings `hs` satisfy `closes`.
pub open spec fn count_closing(hs: Seq<HotkeyBinding>, closes: spec_fn(HotkeyBinding) -> bool) -> nat
    decreases hs.len(),
{
    if hs.len() == 0 {
        0
    } else {
        count_closing(hs.drop_last(), closes) + if closes(hs.last()) { 1nat } else { 0nat }
    }
}

/// Releasing a key or button while the radial selector is open closes it once
/// for each binding that `closes` holds for (none when it is closed).
pub open spec fn release_count(s: AppState, closes: spec_fn(HotkeyBinding) -> bool) -> nat {
    if s.radial_open {
        count_closing(s.hotkeys@, closes)
    } else {
        0
    }
}

pub open spec fn mac_releases(keycode: u16) -> spec_fn(HotkeyBinding) -> bool {
    |b: HotkeyBinding| radial_key(b) && mac_keycode(b.key@) == Some(keycode)
}

pub open spec fn win_key_releases(vk: u16, scan: u32) -> spec_fn(HotkeyBinding) -> bool {
    |b: HotkeyBinding| radial_key(b) && win_key_matches(vk, scan, b)
}

pub open spec fn win_button_releases(button: Seq<char>) -> spec_fn(HotkeyBinding) -> bool {
    |b: HotkeyBinding| b.action@ == "radial"@ && b.key@ == button
}

/// Whether some binding's action is `radial` and its key is not empty.
fn is_radial_key(b: &HotkeyBinding) -> (r: bool)
    ensures
        r == radial_key(*b),
{
    let a = chars_of(b.action.as_str());
    chars_are(&a, "radial") && chars_of(b.key.as_str()).len() > 0
}

/// A macOS key release: while the radial selector is open, releasing the key
/// of a radial binding closes it. Returns how many radial bindings the release
/// matched (each closes the selector); none leaves the state unchanged.
pub fn mac_radial_release(state: &mut AppState, keycode: u16) -> (r: usize)
    ensures
        r == release_count(*old(state), mac_releases(keycode)),
        *final(state) == (AppState { radial_open: old(state).radial_open && r == 0, ..*old(state) }),
{
    if !state.radial_open {
        return 0;
    }
    let mut count: usize = 0;
    let mut i: usize = 0;
    while i < state.hotkeys.len()
        invariant
            *state == *old(state),
            state.radial_open,
            i <= state.hotkeys.len(),
            count == count_closing(state.hotkeys@.take(i as int), mac_releases(keycode)),
            count <= i,
        decreases state.hotkeys.len() - i,
    {
        assert(state.hotkeys@.take(i + 1).drop_last() =~= state.hotkeys@.take(i as int));
        let b = &state.hotkeys[i];
        if is_radial_key(b) && js_code_to_mac_keycode(b.key.as_str()) == Some(keycode) {
            count += 1;
        }
        i += 1;
    }
    assert(state.hotkeys@.take(state.hotkeys@.len() as int) =~= state.hotkeys@);
    if count > 0 {
        state.radial_open = false;
    }
    count
}

/// A Windows key release: while the radial selector is open, releasing the
/// key of a radial binding closes it. Returns how many radial bindings the
/// release matched (each closes the selector).
pub fn win_radial_release_key(state: &mut AppState, vk: u16, scan: u32) -> (r: usize)
    ensures
        r == release_count(*old(state), win_key_releases(vk, scan)),
        *final(state) == (AppState { radial_open: old(state).radial_open && r == 0, ..*old(state) }),
{
    if !state.radial_open {
        return 0;
    }
    let mut count: usize = 0;
    let mut i: usize = 0;
    while i < state.hotkeys.len()
        invariant
            *state == *old(state),
            state.radial_open,
            i <= state.hotkeys.len(),
            count == count_closing(state.hotkeys@.take(i as int), win_key_releases(vk, scan)),
            count <= i,
        decreases state.hotkeys.len() - i,
    {
        assert(state.hotkeys@.take(i + 1).drop_last() =~= state.hotkeys@.take(i as int));
        let b = &state.hotkeys[i];
        if is_radial_key(b) && keyboard_key_matches(vk, scan, b) {
            count += 1;
        }
        i += 1;
    }
    assert(state.hotkeys@.take(state.hotkeys@.len() as int) =~= state.hotkeys@);
    if count > 0 {
        state.radial_open = false;
    }
    count
}

/// A Windows mouse side-button release: while the radial selector is open,
/// releasing the button of a radial binding closes it. Returns how many radial
/// bindings the release matched (each closes the selector).
pub fn win_radial_release_button(state: &mut AppState, button: &str) -> (r: usize)
    ensures
        r == release_count(*old(state), win_button_releases(button@)),
        *final(state) == (AppState { radial_open: old(state).radial_open && r == 0, ..*old(state) }),
{
    if !state.radial_open {
        return 0;
    }
    let mut count: usize = 0;
    let mut i: usize = 0;
    while i < state.hotkeys.len()
        invariant
            *state == *old(state),
            state.radial_open,
            i <= state.hotkeys.len(),
            count == count_closing(state.hotkeys@.take(i as int), win_button_releases(button@)),
            count <= i,
        decreases state.hotkeys.len() - i,
    {
        assert(state.hotkeys@.take(i + 1).drop_last() =~= state.hotkeys@.take(i as int));
        let b = &state.hotkeys[i];
        let a = chars_of(b.action.as_str());
        if chars_are(&a, "radial") && crate::text::str_eq(b.key.as_str(), button) {
            count += 1;
        }
        i += 1;
    }
    assert(state.hotkeys@.take(state.hotkeys@.len() as int) =~= state.hotkeys@);
    if count > 0 {
        state.radial_open = false;
    }
    count
}

/// The state once the current account follows the foreground window `fg`
/// (window 0 means none is known).
pub open spec fn after_foreground(s: AppState, fg: u64) -> AppState {
    if fg != 0 {
        AppState {
            current_index: match window_id_index(s.accounts@, fg) {
                Some(i) => i as usize,
                None => s.current_index,
            },
            ..s
        }
    } else {
        s
    }
}

impl AppState {
    /// Carries out a hotkey move: the current account first follows the
    /// foreground window `fg_id` (when known), then moves to the next or
    /// previous account, or the principal account is picked. Returns the
    /// window to focus.
    pub fn hotkey_focus(&mut self, cmd: HotkeyCommand, fg_id: u64) -> (r: Option<GameWindow>)
        requires
            cmd == HotkeyCommand::Prev ==> prev_defined(after_foreground(*old(self), fg_id)),
        ensures
            ({
                let s1 = after_foreground(*old(self), fg_id);
                match cmd {
                    HotkeyCommand::Next => if s1.accounts@.len() == 0 {
                        r is None && *final(self) == s1
                    } else {
                        r == Some(s1.accounts@[cycle_next_index(s1)]) && *final(self) == (AppState {
                            current_index: cycle_next_index(s1) as usize,
                            ..s1
                        })
                    },
                    HotkeyCommand::Prev => if s1.accounts@.len() == 0 {
                        r is None && *final(self) == s1
                    } else {
                        r == Some(s1.accounts@[cycle_prev_index(s1)]) && *final(self) == (AppState {
                            current_index: cycle_prev_index(s1) as usize,
                            ..s1
                        })
                    },
                    HotkeyCommand::Principal => r == principal_window(s1.profiles@, s1.accounts@)
                        && *final(self) == s1,
                }
            }),
    {
        if fg_id != 0 {
            self.sync_current_from_window_id(fg_id);
        }
        match cmd {
            HotkeyCommand::Next => self.cycle_next(),
            HotkeyCommand::Prev => self.cycle_prev(),
            HotkeyCommand::Principal => self.get_principal(),
        }
    }

    /// Whether the hotkey move `cmd` is defined after following the
    /// foreground window `fg_id` (see `hotkey_focus`).
    pub fn can_hotkey_focus(&self, cmd: HotkeyCommand, fg_id: u64) -> (r: bool)
        ensures
            r == (cmd == HotkeyCommand::Prev ==> prev_defined(after_foreground(*self, fg_id))),
    {
        match cmd {
            HotkeyCommand::Prev => {
                let idx = if fg_id != 0 {
                    match find_window_id(&self.accounts, fg_id) {
                        Some(i) => i,
                        None => self.current_index,
                    }
                } else {
                    self.current_index
                };
                self.prev_defined_from(idx)
            },
            _ => true,
        }
    }
}

/// The number of browser key codes with a macOS virtual key code.
pub const KVK_KEYS: usize = 54;

/// The browser key codes a binding can name with their macOS virtual key codes
/// (the `kVK_*` constants of Carbon's HIToolbox/Events.h), by constant name.
pub open spec fn kvk_entry(i: int) -> (Seq<char>, u16) {
    if i == 0 {
        ("Digit0"@, 0x1Du16)  // kVK_ANSI_0
    } else if i == 1 {
        ("Digit1"@, 0x12u16)  // kVK_ANSI_1
    } else if i == 2 {
        ("Digit2"@, 0x13u16)  // kVK_ANSI_2
    } else if i == 3 {
        ("Digit3"@, 0x14u16)  // kVK_ANSI_3
    } else if i == 4 {
        ("Digit4"@, 0x15u16)  // kVK_ANSI_4
    } else if i == 5 {
        ("Digit5"@, 0x17u16)  // kVK_ANSI_5
    } else if i == 6 {
        ("Digit6"@, 0x16u16)  // kVK_ANSI_6
    } else if i == 7 {
        ("Digit7"@, 0x1Au16)  // kVK_ANSI_7
    } else if i == 8 {
        ("Digit8"@, 0x1Cu16)  // kVK_ANSI_8
    } else if i == 9 {
        ("Digit9"@, 0x19u16)  // kVK_ANSI_9
    } else if i == 10 {
        ("KeyA"@, 0x00u16)  // kVK_ANSI_A
    } else if i == 11 {
        ("KeyB"@, 0x0Bu16)  // kVK_ANSI_B
    } else if i == 12 {
        ("KeyC"@, 0x08u16)  // kVK_ANSI_C
    } else if i == 13 {
        ("KeyD"@, 0x02u16)  // kVK_ANSI_D
    } else if i == 14 {
        ("KeyE"@, 0x0Eu16)  // kVK_ANSI_E
    } else if i == 15 {
        ("KeyF"@, 0x03u16)  // kVK_ANSI_F
    } else if i == 16 {
        ("KeyG"@, 0x05u16)  // kVK_ANSI_G
    } else if i == 17 {
        ("KeyH"@, 0x04u16)  // kVK_ANSI_H
    } else if i == 18 {
        ("KeyI"@, 0x22u16)  // kVK_ANSI_I
    } else if i == 19 {
        ("KeyJ"@, 0x26u16)  // kVK_ANSI_J
    } else if i == 20 {
        ("KeyK"@, 0x28u16)  // kVK_ANSI_K
    } else if i == 21 {
        ("KeyL"@, 0x25u16)  // kVK_ANSI_L
    } else if i == 22 {
        ("KeyM"@, 0x2Eu16)  // kVK_ANSI_M
    } else if i == 23 {
        ("KeyN"@, 0x2Du16)  // kVK_ANSI_N
    } else if i == 24 {
        ("KeyO"@, 0x1Fu16)  // kVK_ANSI_O
    } else if i == 25 {
        ("KeyP"@, 0x23u16)  // kVK_ANSI_P
    } else if i == 26 {
        ("KeyQ"@, 0x0Cu16)  // kVK_ANSI_Q
    } else if i == 27 {
        ("KeyR"@, 0x0Fu16)  // kVK_ANSI_R
    } else if i == 28 {
        ("KeyS"@, 0x01u16)  // kVK_ANSI_S
    } else if i == 29 {
        ("KeyT"@, 0x11u16)  // kVK_ANSI_T
    } else if i == 30 {
        ("KeyU"@, 0x20u16)  // kVK_ANSI_U
    } else if i == 31 {
        ("KeyV"@, 0x09u16)  // kVK_ANSI_V
    } else if i == 32 {
        ("KeyW"@, 0x0Du16)  // kVK_ANSI_W
    } else if i == 33 {
        ("KeyX"@, 0x07u16)  // kVK_ANSI_X
    } else if i == 34 {
        ("KeyY"@, 0x10u16)  // kVK_ANSI_Y
    } else if i == 35 {
        ("KeyZ"@, 0x06u16)  // kVK_ANSI_Z
    } else if i == 36 {
        ("ArrowDown"@, 0x7Du16)  // kVK_DownArrow
    } else if i == 37 {
        ("F1"@, 0x7Au16)  // kVK_F1
    } else if i == 38 {
        ("F10"@, 0x6Du16)  // kVK_F10
    } else if i == 39 {
        ("F11"@, 0x67u16)  // kVK_F11
    } else if i == 40 {
        ("F12"@, 0x6Fu16)  // kVK_F12
    } else if i == 41 {
        ("F2"@, 0x78u16)  // kVK_F2
    } else if i == 42 {
        ("F3"@, 0x63u16)  // kVK_F3
    } else if i == 43 {
        ("F4"@, 0x76u16)  // kVK_F4
    } else if i == 44 {
        ("F5"@, 0x60u16)  // kVK_F5
    } else if i == 45 {
        ("F6"@, 0x61u16)  // kVK_F6
    } else if i == 46 {
        ("F7"@, 0x62u16)  // kVK_F7
    } else if i == 47 {
        ("F8"@, 0x64u16)  // kVK_F8
    } else if i == 48 {
        ("F9"@, 0x65u16)  // kVK_F9
    } else if i == 49 {
        ("ArrowLeft"@, 0x7Bu16)  // kVK_LeftArrow
    } else if i == 50 {
        ("ArrowRight"@, 0x7Cu16)  // kVK_RightArrow
    } else if i == 51 {
        ("Space"@, 0x31u16)  // kVK_Space
    } else if i == 52 {
        ("Tab"@, 0x30u16)  // kVK_Tab
    } else if i == 53 {
        ("ArrowUp"@, 0x7Eu16)  // kVK_UpArrow
    } else {
        (Seq::empty(), 0u16)
    }
}

/// What the key code table answers for each code it holds.
proof fn lemma_mac_keycode_values()
    ensures
        mac_keycode("KeyA"@) == Some(0x00u16),
        mac_keycode("KeyS"@) == Some(0x01u16),
        mac_keycode("KeyD"@) == Some(0x02u16),
        mac_keycode("KeyF"@) == Some(0x03u16),
        mac_keycode("KeyH"@) == Some(0x04u16),
        mac_keycode("KeyG"@) == Some(0x05u16),
        mac_keycode("KeyZ"@) == Some(0x06u16),
        mac_keycode("KeyX"@) == Some(0x07u16),
        mac_keycode("KeyC"@) == Some(0x08u16),
        mac_keycode("KeyV"@) == Some(0x09u16),
        mac_keycode("KeyB"@) == Some(0x0Bu16),
        mac_keycode("KeyQ"@) == Some(0x0Cu16),
        mac_keycode("KeyW"@) == Some(0x0Du16),
        mac_keycode("KeyE"@) == Some(0x0Eu16),
        mac_keycode("KeyR"@) == Some(0x0Fu16),
        mac_keycode("KeyY"@) == Some(0x10u16),
        mac_keycode("KeyT"@) == Some(0x11u16),
        mac_keycode("KeyU"@) == Some(0x20u16),
        mac_keycode("KeyI"@) == Some(0x22u16),
        mac_keycode("KeyO"@) == Some(0x1Fu16),
        mac_keycode("KeyP"@) == Some(0x23u16),
        mac_keycode("KeyL"@) == Some(0x25u16),
        mac_keycode("KeyJ"@) == Some(0x26u16),
        mac_keycode("KeyK"@) == Some(0x28u16),
        mac_keycode("KeyN"@) == Some(0x2Du16),
        mac_keycode("KeyM"@) == Some(0x2Eu16),
        mac_keycode("Digit1"@) == Some(0x12u16),
        mac_keycode("Digit2"@) == Some(0x13u16),
        mac_keycode("Digit3"@) == Some(0x14u16),
        mac_keycode("Digit4"@) == Some(0x15u16),
        mac_keycode("Digit5"@) == Some(0x17u16),
        mac_keycode("Digit6"@) == Some(0x16u16),
        mac_keycode("Digit7"@) == Some(0x1Au16),
        mac_keycode("Digit8"@) == Some(0x1Cu16),
        mac_keycode("Digit9"@) == Some(0x19u16),
        mac_keycode("Digit0"@) == Some(0x1Du16),
        mac_keycode("Space"@) == Some(0x31u16),
        mac_keycode("Tab"@) == Some(0x30u16),
        mac_keycode("ArrowLeft"@) == Some(0x7Bu16),
        mac_keycode("ArrowRight"@) == Some(0x7Cu16),
        mac_keycode("ArrowDown"@) == Some(0x7Du16),
        mac_keycode("ArrowUp"@) == Some(0x7Eu16),
        mac_keycode("F1"@) == Some(0x7Au16),
        mac_keycode("F2"@) == Some(0x78u16),
        mac_keycode("F3"@) == Some(0x63u16),
        mac_keycode("F4"@) == Some(0x76u16),
        mac_keycode("F5"@) == Some(0x60u16),
        mac_keycode("F6"@) == Some(0x61u16),
        mac_keycode("F7"@) == Some(0x62u16),
        mac_keycode("F8"@) == Some(0x64u16),
        mac_keycode("F9"@) == Some(0x65u16),
        mac_keycode("F10"@) == Some(0x6Du16),
        mac_keycode("F11"@) == Some(0x67u16),
        mac_keycode("F12"@) == Some(0x6Fu16),
{
    reveal_strlit("KeyA");
    assert("KeyA"@.len() == 4);
    reveal_strlit("KeyS");
    assert("KeyS"@.len() == 4);
    reveal_strlit("KeyD");
    assert("KeyD"@.len() == 4);
    reveal_strlit("KeyF");
    assert("KeyF"@.len() == 4);
    reveal_strlit("KeyH");
    assert("KeyH"@.len() == 4);
    reveal_strlit("KeyG");
    assert("KeyG"@.len() == 4);
    reveal_strlit("KeyZ");
    assert("KeyZ"@.len() == 4);
    reveal_strlit("KeyX");
    assert("KeyX"@.len() == 4);
    reveal_strlit("KeyC");
    assert("KeyC"@.len() == 4);
    reveal_strlit("KeyV");
    assert("KeyV"@.len() == 4);
    reveal_strlit("KeyB");
    assert("KeyB"@.len() == 4);
    reveal_strlit("KeyQ");
    assert("KeyQ"@.len() == 4);
    reveal_strlit("KeyW");
    assert("KeyW"@.len() == 4);
    reveal_strlit("KeyE");
    assert("KeyE"@.len() == 4);
    reveal_strlit("KeyR");
    assert("KeyR"@.len() == 4);
    reveal_strlit("KeyY");
    assert("KeyY"@.len() == 4);
    reveal_strlit("KeyT");
    assert("KeyT"@.len() == 4);
    reveal_strlit("KeyU");
    assert("KeyU"@.len() == 4);
    reveal_strlit("KeyI");
    assert("KeyI"@.len() == 4);
    reveal_strlit("KeyO");
    assert("KeyO"@.len() == 4);
    reveal_strlit("KeyP");
    assert("KeyP"@.len() == 4);
    reveal_strlit("KeyL");
    assert("KeyL"@.len() == 4);
    reveal_strlit("KeyJ");
    assert("KeyJ"@.len() == 4);
    reveal_strlit("KeyK");
    assert("KeyK"@.len() == 4);
    reveal_strlit("KeyN");
    assert("KeyN"@.len() == 4);
    reveal_strlit("KeyM");
    assert("KeyM"@.len() == 4);
    reveal_strlit("Digit1");
    assert("Digit1"@.len() == 6);
    reveal_strlit("Digit2");
    assert("Digit2"@.len() == 6);
    reveal_strlit("Digit3");
    assert("Digit3"@.len() == 6);
    reveal_strlit("Digit4");
    assert("Digit4"@.len() == 6);
    reveal_strlit("Digit5");
    assert("Digit5"@.len() == 6);
    reveal_strlit("Digit6");
    assert("Digit6"@.len() == 6);
    reveal_strlit("Digit7");
    assert("Digit7"@.len() == 6);
    reveal_strlit("Digit8");
    assert("Digit8"@.len() == 6);
    reveal_strlit("Digit9");
    assert("Digit9"@.len() == 6);
    reveal_strlit("Digit0");
    assert("Digit0"@.len() == 6);
    reveal_strlit("Space");
    assert("Space"@.len() == 5);
    reveal_strlit("Tab");
    assert("Tab"@.len() == 3);
    reveal_strlit("ArrowLeft");
    assert("ArrowLeft"@.len() == 9);
    reveal_strlit("ArrowRight");
    assert("ArrowRight"@.len() == 10);
    reveal_strlit("ArrowDown");
    assert("ArrowDown"@.len() == 9);
    reveal_strlit("ArrowUp");
    assert("ArrowUp"@.len() == 7);
    reveal_strlit("F1");
    assert("F1"@.len() == 2);
    reveal_strlit("F2");
    assert("F2"@.len() == 2);
    reveal_strlit("F3");
    assert("F3"@.len() == 2);
    reveal_strlit("F4");
    assert("F4"@.len() == 2);
    reveal_strlit("F5");
    assert("F5"@.len() == 2);
    reveal_strlit("F6");
    assert("F6"@.len() == 2);
    reveal_strlit("F7");
    assert("F7"@.len() == 2);
    reveal_strlit("F8");
    assert("F8"@.len() == 2);
    reveal_strlit("F9");
    assert("F9"@.len() == 2);
    reveal_strlit("F10");
    assert("F10"@.len() == 3);
    reveal_strlit("F11");
    assert("F11"@.len() == 3);
    reveal_strlit("F12");
    assert("F12"@.len() == 3);
    assert("KeyA"@[3] == 'A');
    assert("KeyA"@[0] == 'K');
    assert("KeyS"@[3] == 'S');
    assert("KeyS"@[0] == 'K');
    assert("KeyD"@[3] == 'D');
    assert("KeyD"@[0] == 'K');
    assert("KeyF"@[3] == 'F');
    assert("KeyF"@[0] == 'K');
    assert("KeyH"@[3] == 'H');
    assert("KeyH"@[0] == 'K');
    assert("KeyG"@[3] == 'G');
    assert("KeyG"@[0] == 'K');
    assert("KeyZ"@[3] == 'Z');
    assert("KeyZ"@[0] == 'K');
    assert("KeyX"@[3] == 'X');
    assert("KeyX"@[0] == 'K');
    assert("KeyC"@[3] == 'C');
    assert("KeyC"@[0] == 'K');
    assert("KeyV"@[3] == 'V');
    assert("KeyV"@[0] == 'K');
    assert("KeyB"@[3] == 'B');
    assert("KeyB"@[0] == 'K');
    assert("KeyQ"@[3] == 'Q');
    assert("KeyQ"@[0] == 'K');
    assert("KeyW"@[3] == 'W');
    assert("KeyW"@[0] == 'K');
    assert("KeyE"@[3] == 'E');
    assert("KeyE"@[0] == 'K');
    assert("KeyR"@[3] == 'R');
    assert("KeyR"@[0] == 'K');
    assert("KeyY"@[3] == 'Y');
    assert("KeyY"@[0] == 'K');
    assert("KeyT"@[3] == 'T');
    assert("KeyT"@[0] == 'K');
    assert("KeyU"@[3] == 'U');
    assert("KeyU"@[0] == 'K');
    assert("KeyI"@[3] == 'I');
    assert("KeyI"@[0] == 'K');
    assert("KeyO"@[3] == 'O');
    assert("KeyO"@[0] == 'K');
    assert("KeyP"@[3] == 'P');
    assert("KeyP"@[0] == 'K');
    assert("KeyL"@[3] == 'L');
    assert("KeyL"@[0] == 'K');
    assert("KeyJ"@[3] == 'J');
    assert("KeyJ"@[0] == 'K');
    assert("KeyK"@[3] == 'K');
    assert("KeyK"@[0] == 'K');
    assert("KeyN"@[3] == 'N');
    assert("KeyN"@[0] == 'K');
    assert("KeyM"@[3] == 'M');
    assert("KeyM"@[0] == 'K');
    assert("Digit1"@[5] == '1');
    assert("Digit1"@[0] == 'D');
    assert("Digit2"@[5] == '2');
    assert("Digit2"@[0] == 'D');
    assert("Digit3"@[5] == '3');
    assert("Digit3"@[0] == 'D');
    assert("Digit4"@[5] == '4');
    assert("Digit4"@[0] == 'D');
    assert("Digit5"@[5] == '5');
    assert("Digit5"@[0] == 'D');
    assert("Digit6"@[5] == '6');
    assert("Digit6"@[0] == 'D');
    assert("Digit7"@[5] == '7');
    assert("Digit7"@[0] == 'D');
    assert("Digit8"@[5] == '8');
    assert("Digit8"@[0] == 'D');
    assert("Digit9"@[5] == '9');
    assert("Digit9"@[0] == 'D');
    assert("Digit0"@[5] == '0');
    assert("Digit0"@[0] == 'D');
    assert("Space"@[0] == 'S');
    assert("Tab"@[0] == 'T');
    assert("ArrowLeft"@[5] == 'L');
    assert("ArrowLeft"@[0] == 'A');
    assert("ArrowRight"@[5] == 'R');
    assert("ArrowRight"@[0] == 'A');
    assert("ArrowDown"@[5] == 'D');
    assert("ArrowDown"@[0] == 'A');
    assert("ArrowUp"@[5] == 'U');
    assert("ArrowUp"@[0] == 'A');
    assert("F1"@[1] == '1');
    assert("F1"@[0] == 'F');
    assert("F2"@[1] == '2');
    assert("F2"@[0] == 'F');
    assert("F3"@[1] == '3');
    assert("F3"@[0] == 'F');
    assert("F4"@[1] == '4');
    assert("F4"@[0] == 'F');
    assert("F5"@[1] == '5');
    assert("F5"@[0] == 'F');
    assert("F6"@[1] == '6');
    assert("F6"@[0] == 'F');
    assert("F7"@[1] == '7');
    assert("F7"@[0] == 'F');
    assert("F8"@[1] == '8');
    assert("F8"@[0] == 'F');
    assert("F9"@[1] == '9');
    assert("F9"@[0] == 'F');
    assert("F10"@[2] == '0');
    assert("F10"@[0] == 'F');
    assert("F11"@[2] == '1');
    assert("F11"@[0] == 'F');
    assert("F12"@[2] == '2');
    assert("F12"@[0] == 'F');
}

/// Every browser key code in the `kVK_*` table is matched to its macOS
/// virtual key code, and a code outside the table matches no key: the key a
/// user binds is the key whose press fires the binding.
pub proof fn law_mac_keycodes_are_kvk(code: Seq<char>)
    ensures
        forall|i: int| 0 <= i < KVK_KEYS ==> mac_keycode(#[trigger] kvk_entry(i).0) == Some(kvk_entry(i).1),
        (forall|i: int| 0 <= i < KVK_KEYS ==> #[trigger] kvk_entry(i).0 != code) ==> mac_keycode(code) is None,
{
    lemma_mac_keycode_values();
    assert forall|i: int| 0 <= i < KVK_KEYS implies mac_keycode(#[trigger] kvk_entry(i).0) == Some(kvk_entry(i).1) by {
        if i == 0 {} else if i == 1 {} else if i == 2 {} else if i == 3 {} else if i == 4 {} else if i == 5 {} else if i == 6 {} else if i == 7 {} else if i == 8 {} else if i == 9 {} else if i == 10 {} else if i == 11 {} else if i == 12 {} else if i == 13 {} else if i == 14 {} else if i == 15 {} else if i == 16 {} else if i == 17 {} else if i == 18 {} else if i == 19 {} else if i == 20 {} else if i == 21 {} else if i == 22 {} else if i == 23 {} else if i == 24 {} else if i == 25 {} else if i == 26 {} else if i == 27 {} else if i == 28 {} else if i == 29 {} else if i == 30 {} else if i == 31 {} else if i == 32 {} else if i == 33 {} else if i == 34 {} else if i == 35 {} else if i == 36 {} else if i == 37 {} else if i == 38 {} else if i == 39 {} else if i == 40 {} else if i == 41 {} else if i == 42 {} else if i == 43 {} else if i == 44 {} else if i == 45 {} else if i == 46 {} else if i == 47 {} else if i == 48 {} else if i == 49 {} else if i == 50 {} else if i == 51 {} else if i == 52 {} else {}
    }
    if forall|i: int| 0 <= i < KVK_KEYS ==> #[trigger] kvk_entry(i).0 != code {
    assert(kvk_entry(0).0 != code);
    assert(kvk_entry(1).0 != code);
    assert(kvk_entry(2).0 != code);
    assert(kvk_entry(3).0 != code);
    assert(kvk_entry(4).0 != code);
    assert(kvk_entry(5).0 != code);
    assert(kvk_entry(6).0 != code);
    assert(kvk_entry(7).0 != code);
    assert(kvk_entry(8).0 != code);
    assert(kvk_entry(9).0 != code);
    assert(kvk_entry(10).0 != code);
    assert(kvk_entry(11).0 != code);
    assert(kvk_entry(12).0 != code);
    assert(kvk_entry(13).0 != code);
    assert(kvk_entry(14).0 != code);
    assert(kvk_entry(15).0 != code);
    assert(kvk_entry(16).0 != code);
    assert(kvk_entry(17).0 != code);
    assert(kvk_entry(18).0 != code);
    assert(kvk_entry(19).0 != code);
    assert(kvk_entry(20).0 != code);
    assert(kvk_entry(21).0 != code);
    assert(kvk_entry(22).0 != code);
    assert(kvk_entry(23).0 != code);
    assert(kvk_entry(24).0 != code);
    assert(kvk_entry(25).0 != code);
    assert(kvk_entry(26).0 != code);
    assert(kvk_entry(27).0 != code);
    assert(kvk_entry(28).0 != code);
    assert(kvk_entry(29).0 != code);
    assert(kvk_entry(30).0 != code);
    assert(kvk_entry(31).0 != code);
    assert(kvk_entry(32).0 != code);
    assert(kvk_entry(33).0 != code);
    assert(kvk_entry(34).0 != code);
    assert(kvk_entry(35).0 != code);
    assert(kvk_entry(36).0 != code);
    assert(kvk_entry(37).0 != code);
    assert(kvk_entry(38).0 != code);
    assert(kvk_entry(39).0 != code);
    assert(kvk_entry(40).0 != code);
    assert(kvk_entry(41).0 != code);
    assert(kvk_entry(42).0 != code);
    assert(kvk_entry(43).0 != code);
    assert(kvk_entry(44).0 != code);
    assert(kvk_entry(45).0 != code);
    assert(kvk_entry(46).0 != code);
    assert(kvk_entry(47).0 != code);
    assert(kvk_entry(48).0 != code);
    assert(kvk_entry(49).0 != code);
    assert(kvk_entry(50).0 != code);
    assert(kvk_entry(51).0 != code);
    assert(kvk_entry(52).0 != code);
    assert(kvk_entry(53).0 != code);
    }
}

} // verus!
