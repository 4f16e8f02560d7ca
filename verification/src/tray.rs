//! Texts of the tray icon and its menu in English, French and Spanish.
use vstd::prelude::*;
use vstd::string::StringExecFns;
use crate::text::{chars_of, decimal, usize_to_decimal};
use crate::hotkeys::chars_are;
use crate::state::{AppState, TraySnapshot};

verus! {

/// The tray text for `key` in `lang`; English for any other language, empty
/// for an unknown key.
pub open spec fn tray_text(lang: Seq<char>, key: Seq<char>) -> Seq<char> {
    if lang == "fr"@ {
        if key == "autoswitch"@ {
            "Autoswitch"@
        } else if key == "show_window"@ {
            "Afficher la fenêtre"@
        } else if key == "quit"@ {
            "Quitter"@
        } else if key == "tooltip_active"@ {
            "FocusRetro - Actif"@
        } else if key == "tooltip_paused"@ {
            "FocusRetro - En pause"@
        } else {
            ""@
        }
    } else if lang == "es"@ {
        if key == "autoswitch"@ {
            "Autoswitch"@
        } else if key == "show_window"@ {
            "Mostrar ventana"@
        } else if key == "quit"@ {
            "Salir"@
        } else if key == "tooltip_active"@ {
            "FocusRetro - Activo"@
        } else if key == "tooltip_paused"@ {
            "FocusRetro - En pausa"@
        } else {
            ""@
        }
    } else {
        if key == "autoswitch"@ {
            "Autoswitch"@
        } else if key == "show_window"@ {
            "Show Window"@
        } else if key == "quit"@ {
            "Quit"@
        } else if key == "tooltip_active"@ {
            "FocusRetro - Active"@
        } else if key == "tooltip_paused"@ {
            "FocusRetro - Paused"@
        } else {
            ""@
        }
    }
}

/// The tray text for `key` in `lang`.
pub fn tray_t(lang: &str, key: &str) -> (r: &'static str)
    ensures
        r@ == tray_text(lang@, key@),
{
    let l = chars_of(lang);
    let k = chars_of(key);
    if chars_are(&l, "fr") {
        if chars_are(&k, "autoswitch") {
            return "Autoswitch";
        }
        if chars_are(&k, "show_window") {
            return "Afficher la fenêtre";
        }
        if chars_are(&k, "quit") {
            return "Quitter";
        }
        if chars_are(&k, "tooltip_active") {
            return "FocusRetro - Actif";
        }
        if chars_are(&k, "tooltip_paused") {
            return "FocusRetro - En pause";
        }
        return "";
    }
    if chars_are(&l, "es") {
        if chars_are(&k, "autoswitch") {
            return "Autoswitch";
        }
        if chars_are(&k, "show_window") {
            return "Mostrar ventana";
        }
        if chars_are(&k, "quit") {
            return "Salir";
        }
        if chars_are(&k, "tooltip_active") {
            return "FocusRetro - Activo";
        }
        if chars_are(&k, "tooltip_paused") {
            return "FocusRetro - En pausa";
        }
        return "";
    }
    if chars_are(&k, "autoswitch") {
        return "Autoswitch";
    }
    if chars_are(&k, "show_window") {
        return "Show Window";
    }
    if chars_are(&k, "quit") {
        return "Quit";
    }
    if chars_are(&k, "tooltip_active") {
        return "FocusRetro - Active";
    }
    if chars_are(&k, "tooltip_paused") {
        return "FocusRetro - Paused";
    }
    ""
}

/// The account-count line of the tray menu: none, one, or `count` accounts
/// detected, in `lang` (English for any other language).
pub open spec fn accounts_label(lang: Seq<char>, count: nat) -> Seq<char> {
    if lang == "fr"@ {
        if count == 0 {
            "Aucun compte détecté"@
        } else if count == 1 {
            decimal(count) + " compte détecté"@
        } else {
            decimal(count) + " comptes détectés"@
        }
    } else if lang == "es"@ {
        if count == 0 {
            "Ninguna cuenta detectada"@
        } else if count == 1 {
            decimal(count) + " cuenta detectada"@
        } else {
            decimal(count) + " cuentas detectadas"@
        }
    } else {
        if count == 0 {
            "No accounts detected"@
        } else if count == 1 {
            decimal(count) + " account detected"@
        } else {
            decimal(count) + " accounts detected"@
        }
    }
}

fn counted(count: usize, words: &str) -> (r: String)
    ensures
        r@ == decimal(count as nat) + words@,
{
    let mut s = usize_to_decimal(count);
    s.append(words);
    s
}

/// The account-count line of the tray menu.
pub fn tray_accounts_label(lang: &str, count: usize) -> (r: String)
    ensures
        r@ == accounts_label(lang@, count as nat),
{
    let l = chars_of(lang);
    if chars_are(&l, "fr") {
        if count == 0 {
            String::from_str("Aucun compte détecté")
        } else if count == 1 {
            counted(count, " compte détecté")
        } else {
            counted(count, " comptes détectés")
        }
    } else if chars_are(&l, "es") {
        if count == 0 {
            String::from_str("Ninguna cuenta detectada")
        } else if count == 1 {
            counted(count, " cuenta detectada")
        } else {
            counted(count, " cuentas detectadas")
        }
    } else {
        if count == 0 {
            String::from_str("No accounts detected")
        } else if count == 1 {
            counted(count, " account detected")
        } else {
            counted(count, " accounts detected")
        }
    }
}

/// What the tray shows: its tooltip and the labels of its menu.
#[derive(Debug)]
pub struct TrayContents {
    pub tooltip: &'static str,
    pub accounts_label: String,
    pub autoswitch_label: &'static str,
    /// Whether the autoswitch entry is checked.
    pub autoswitch_checked: bool,
    pub show_label: &'static str,
    pub quit_label: &'static str,
}

/// `c` is the tray for interface language `lang`, autoswitch on or off, and
/// `count` open accounts.
pub open spec fn shows(c: TrayContents, lang: Seq<char>, is_active: bool, count: nat) -> bool {
    &&& c.tooltip@ == tray_text(lang, if is_active { "tooltip_active"@ } else { "tooltip_paused"@ })
    &&& c.accounts_label@ == accounts_label(lang, count)
    &&& c.autoswitch_label@ == tray_text(lang, "autoswitch"@)
    &&& c.autoswitch_checked == is_active
    &&& c.show_label@ == tray_text(lang, "show_window"@)
    &&& c.quit_label@ == tray_text(lang, "quit"@)
}

/// The tray for interface language `lang`, autoswitch on or off, and `count`
/// open accounts.
pub fn tray_contents(lang: &str, is_active: bool, count: usize) -> (r: TrayContents)
    ensures
        shows(r, lang@, is_active, count as nat),
{
    let tooltip = if is_active {
        tray_t(lang, "tooltip_active")
    } else {
        tray_t(lang, "tooltip_paused")
    };
    TrayContents {
        tooltip,
        accounts_label: tray_accounts_label(lang, count),
        autoswitch_label: tray_t(lang, "autoswitch"),
        autoswitch_checked: is_active,
        show_label: tray_t(lang, "show_window"),
        quit_label: tray_t(lang, "quit"),
    }
}

impl AppState {
    /// The tray to show now, if it differs from what was last shown (which it
    /// then becomes): it depends on the autoswitch toggle, the number of open
    /// accounts and the interface language.
    pub fn tray_refresh(&mut self) -> (r: Option<TrayContents>)
        ensures
            ({
                let snap = TraySnapshot {
                    is_active: old(self).autoswitch_enabled,
                    count: old(self).accounts@.len() as usize,
                    lang: old(self).language,
                };
                let changed = match old(self).last_tray_snapshot {
                    Some(last) => !(last.is_active == snap.is_active && last.count == snap.count
                        && last.lang@ == snap.lang@),
                    None => true,
                };
                &&& changed ==> (r matches Some(c) && shows(
                    c,
                    old(self).language@,
                    old(self).autoswitch_enabled,
                    old(self).accounts@.len(),
                ))
                &&& !changed ==> r is None
                &&& *final(self) == (AppState {
                    last_tray_snapshot: if changed { Some(snap) } else { old(self).last_tray_snapshot },
                    ..*old(self)
                })
            }),
    {
        let is_active = self.is_autoswitch_enabled();
        let count = self.account_count();
        let lang = self.get_language();
        let snapshot = TraySnapshot { is_active, count, lang: lang.clone() };
        if self.tray_snapshot_changed(snapshot) {
            Some(tray_contents(lang.as_str(), is_active, count))
        } else {
            None
        }
    }
}

} // verus!
