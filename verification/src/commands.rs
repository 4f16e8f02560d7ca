//! Values the user interface asks for: the initial state, listener health,
//! the tiling layouts on offer and the system-settings pages for permissions.
use vstd::prelude::*;
use vstd::string::StringExecFns;
use crate::text::chars_of;
use crate::hotkeys::chars_are;
use crate::platform::PermissionStatus;
use crate::state::{AppState, AccountView, HotkeyBinding, account_views};

verus! {

/// Everything the user interface shows at start-up.
pub struct InitialState {
    pub accounts: Vec<AccountView>,
    pub permissions: PermissionStatus,
    pub language: String,
    pub hotkeys: Vec<HotkeyBinding>,
    pub show_debug: bool,
    pub pm_enabled: bool,
    pub theme: String,
    pub update_consent: Option<bool>,
    pub taskbar_ungroup: bool,
    pub icon_style: String,
}

/// Whether the notification listener runs, how often it restarted, and its mode.
pub struct ListenerHealthSnapshot {
    pub healthy: bool,
    pub restart_count: u32,
    pub mode: String,
}

impl AppState {
    /// The start-up state for the user interface.
    pub fn initial_state(&self, permissions: PermissionStatus, taskbar_ungroup: bool, icon_style: String) -> (r: InitialState)
        ensures
            r.accounts@ == account_views(*self),
            r.permissions == permissions,
            r.language == self.language,
            r.hotkeys@ == self.hotkeys@,
            r.show_debug == self.show_debug,
            r.pm_enabled == self.pm_enabled,
            r.theme == self.theme,
            r.update_consent == self.update_check_consent,
            r.taskbar_ungroup == taskbar_ungroup,
            r.icon_style == icon_style,
    {
        InitialState {
            accounts: self.get_account_views(),
            permissions,
            language: self.get_language(),
            hotkeys: self.get_hotkeys(),
            show_debug: self.is_show_debug(),
            pm_enabled: self.is_pm_enabled(),
            theme: self.get_theme(),
            update_consent: self.get_update_consent(),
            taskbar_ungroup,
            icon_style,
        }
    }

    /// The listener health for the user interface.
    pub fn listener_health(&self) -> (r: ListenerHealthSnapshot)
        ensures
            r.healthy == self.listener_healthy,
            r.restart_count == self.listener_restart_count,
            r.mode == self.notif_mode,
    {
        let (healthy, restart_count, mode) = self.get_listener_health_snapshot();
        ListenerHealthSnapshot { healthy, restart_count, mode }
    }
}

/// What closing the main window does.
#[derive(Debug, Clone, Copy, PartialEq, Eq, Structural)]
pub enum CloseAction {
    /// Ask the user whether closing hides to the tray or quits.
    AskUser,
    /// Hide the window; the application keeps running in the tray.
    HideToTray,
    /// Save the preferences and quit.
    Quit,
}

impl AppState {
    /// Closing the main window: the user is asked first, until they have
    /// chosen; then it hides to the tray or quits as they chose.
    pub fn close_requested(&self) -> (r: CloseAction)
        ensures
            r == if !self.close_behavior_prompted {
                CloseAction::AskUser
            } else if self.close_to_tray {
                CloseAction::HideToTray
            } else {
                CloseAction::Quit
            },
    {
        if !self.is_close_behavior_prompted() {
            CloseAction::AskUser
        } else {
            self.chosen_close()
        }
    }

    /// Closing the main window as the user chose: hide to the tray or quit.
    pub fn chosen_close(&self) -> (r: CloseAction)
        ensures
            r == if self.close_to_tray { CloseAction::HideToTray } else { CloseAction::Quit },
    {
        if self.is_close_to_tray() {
            CloseAction::HideToTray
        } else {
            CloseAction::Quit
        }
    }
}

/// The window layouts the user can apply.
pub open spec fn layouts() -> Seq<Seq<char>> {
    seq!["maximize"@, "split-h"@, "split-v"@, "grid-2x2"@, "grid-3x2"@, "grid-4x2"@]
}

/// The window layouts the user can apply, in menu order.
pub fn get_available_layouts() -> (r: Vec<String>)
    ensures
        r@.map_values(|s: String| s@) == layouts(),
{
    let mut v: Vec<String> = Vec::new();
    v.push(String::from_str("maximize"));
    v.push(String::from_str("split-h"));
    v.push(String::from_str("split-v"));
    v.push(String::from_str("grid-2x2"));
    v.push(String::from_str("grid-3x2"));
    v.push(String::from_str("grid-4x2"));
    assert(v@.map_values(|s: String| s@) =~= layouts());
    v
}

/// The macOS System Settings page where the permission `section` is granted.
pub open spec fn settings_page(section: Seq<char>) -> Option<Seq<char>> {
    if section == "accessibility"@ {
        Some("x-apple.systempreferences:com.apple.preference.security?Privacy_Accessibility"@)
    } else if section == "screen_recording"@ {
        Some("x-apple.systempreferences:com.apple.preference.security?Privacy_ScreenCapture"@)
    } else if section == "input_monitoring"@ {
        Some("x-apple.systempreferences:com.apple.preference.security?Privacy_ListenEvent"@)
    } else {
        None
    }
}

/// The System Settings address for a permission section, if it is one.
pub fn settings_url(section: &str) -> (r: Option<&'static str>)
    ensures
        match r {
            Some(u) => settings_page(section@) == Some(u@),
            None => settings_page(section@) is None,
        },
{
    let s = chars_of(section);
    if chars_are(&s, "accessibility") {
        Some("x-apple.systempreferences:com.apple.preference.security?Privacy_Accessibility")
    } else if chars_are(&s, "screen_recording") {
        Some("x-apple.systempreferences:com.apple.preference.security?Privacy_ScreenCapture")
    } else if chars_are(&s, "input_monitoring") {
        Some("x-apple.systempreferences:com.apple.preference.security?Privacy_ListenEvent")
    } else {
        None
    }
}

} // verus!
