use focusretro::state::{AppState, Preferences, TraySnapshot};
use focusretro::tray::{tray_accounts_label, tray_contents, tray_t};

#[test]
fn tray_t_returns_english_fallback() {
    assert_eq!(tray_t("en", "autoswitch"), "Autoswitch");
    assert_eq!(tray_t("en", "show_window"), "Show Window");
    assert_eq!(tray_t("en", "quit"), "Quit");
    assert_eq!(tray_t("en", "tooltip_active"), "FocusRetro - Active");
    assert_eq!(tray_t("en", "tooltip_paused"), "FocusRetro - Paused");
}

#[test]
fn tray_t_returns_french() {
    assert_eq!(tray_t("fr", "show_window"), "Afficher la fenêtre");
    assert_eq!(tray_t("fr", "quit"), "Quitter");
    assert_eq!(tray_t("fr", "tooltip_active"), "FocusRetro - Actif");
    assert_eq!(tray_t("fr", "tooltip_paused"), "FocusRetro - En pause");
}

#[test]
fn tray_t_returns_spanish() {
    assert_eq!(tray_t("es", "show_window"), "Mostrar ventana");
    assert_eq!(tray_t("es", "quit"), "Salir");
    assert_eq!(tray_t("es", "tooltip_active"), "FocusRetro - Activo");
    assert_eq!(tray_t("es", "tooltip_paused"), "FocusRetro - En pausa");
}

#[test]
fn tray_accounts_label_zero() {
    assert_eq!(tray_accounts_label("en", 0), "No accounts detected");
    assert_eq!(tray_accounts_label("fr", 0), "Aucun compte détecté");
    assert_eq!(tray_accounts_label("es", 0), "Ninguna cuenta detectada");
}

#[test]
fn tray_accounts_label_one() {
    assert_eq!(tray_accounts_label("en", 1), "1 account detected");
    assert_eq!(tray_accounts_label("fr", 1), "1 compte détecté");
    assert_eq!(tray_accounts_label("es", 1), "1 cuenta detectada");
}

#[test]
fn tray_accounts_label_many() {
    assert_eq!(tray_accounts_label("en", 3), "3 accounts detected");
    assert_eq!(tray_accounts_label("fr", 3), "3 comptes détectés");
    assert_eq!(tray_accounts_label("es", 3), "3 cuentas detectadas");
}

#[test]
fn tray_snapshot_eq() {
    let a = TraySnapshot { is_active: true, count: 2, lang: "en".into() };
    let b = TraySnapshot { is_active: true, count: 2, lang: "en".into() };
    let c = TraySnapshot { is_active: false, count: 2, lang: "en".into() };
    assert_eq!(a, b);
    assert_ne!(a, c);
}

// ---------------------------------------------------------------------------
// Further scenarios
// ---------------------------------------------------------------------------

#[test]
fn tray_t_unknown_language_and_key() {
    assert_eq!(tray_t("de", "quit"), "Quit");
    assert_eq!(tray_t("en", "nonsense"), "");
    assert_eq!(tray_t("fr", "autoswitch"), "Autoswitch");
}

#[test]
fn tray_accounts_label_large_count() {
    assert_eq!(tray_accounts_label("en", 12345), "12345 accounts detected");
    assert_eq!(tray_accounts_label("de", 2), "2 accounts detected");
    assert_eq!(tray_accounts_label("es", 10), "10 cuentas detectadas");
}

#[test]
fn tray_snapshot_differs_by_lang_and_count() {
    let a = TraySnapshot { is_active: true, count: 2, lang: "en".into() };
    assert_ne!(a, TraySnapshot { is_active: true, count: 3, lang: "en".into() });
    assert_ne!(a, TraySnapshot { is_active: true, count: 2, lang: "fr".into() });
}

#[test]
fn tray_contents_follow_language_and_toggle() {
    let c = tray_contents("fr", false, 2);
    assert_eq!(c.tooltip, "FocusRetro - En pause");
    assert_eq!(c.accounts_label, "2 comptes détectés");
    assert_eq!(c.autoswitch_label, "Autoswitch");
    assert!(!c.autoswitch_checked);
    assert_eq!(c.show_label, "Afficher la fenêtre");
    assert_eq!(c.quit_label, "Quitter");
}

#[test]
fn tray_refresh_only_on_change() {
    let mut state = AppState::from_prefs(Preferences::with_language("en".into()));
    let c = state.tray_refresh().unwrap();
    assert_eq!(c.tooltip, "FocusRetro - Active");
    assert_eq!(c.accounts_label, "No accounts detected");
    assert!(state.tray_refresh().is_none());
    state.set_autoswitch(false);
    let c = state.tray_refresh().unwrap();
    assert_eq!(c.tooltip, "FocusRetro - Paused");
    assert!(state.tray_refresh().is_none());
}
