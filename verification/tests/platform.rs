use focusretro::platform::{
    check_accessibility_permission, check_input_monitoring_permission,
    check_screen_recording_permission, dofus_windows, foreground_window_id_in,
    get_foreground_window_id, layout_tiles_exec, rgba_to_premultiplied_bgra, MacWindowManager,
    WinWindowManager, WindowInfo,
};

#[test]
fn test_parse_character_name() {
    assert_eq!(
        MacWindowManager::parse_character_name("Craette - Dofus Retro v1.40.0"),
        Some("Craette".to_string())
    );
    assert_eq!(
        MacWindowManager::parse_character_name("My-Char_123 - Dofus Retro v1.39.0"),
        Some("My-Char_123".to_string())
    );
    assert_eq!(MacWindowManager::parse_character_name("Some Random Window"), None);
}

// ---------------------------------------------------------------------------
// Further scenarios
// ---------------------------------------------------------------------------

#[test]
fn parse_character_name_edges() {
    assert_eq!(MacWindowManager::parse_character_name(" - Dofus Retro v1"), None);
    assert_eq!(MacWindowManager::parse_character_name("   - Dofus Retro"), None);
    assert_eq!(
        MacWindowManager::parse_character_name("  Spaced  - Dofus Retro - Dofus Retro"),
        Some("Spaced".to_string())
    );
}

fn info(title: Option<&str>, id: u64, pid: u32) -> WindowInfo {
    WindowInfo { title: title.map(|t| t.to_string()), window_id: id, pid }
}

#[test]
fn dofus_windows_keeps_game_windows_in_order() {
    let list = vec![
        info(Some("Finder"), 1, 10),
        info(Some("Bob - Dofus Retro v1.47"), 2, 20),
        info(None, 3, 30),
        info(Some("Alice - Dofus Retro v1.47"), 4, 40),
    ];
    let ws = dofus_windows(&list);
    assert_eq!(ws.len(), 2);
    assert_eq!(ws[0].character_name, "Bob");
    assert_eq!(ws[0].window_id, 2);
    assert_eq!(ws[0].pid, 20);
    assert_eq!(ws[1].character_name, "Alice");
    assert_eq!(ws[1].title, "Alice - Dofus Retro v1.47");
}

#[test]
fn foreground_window_found_by_pid_and_title() {
    let list = vec![
        info(Some("Other"), 5, 7),
        info(Some("Main"), 6, 7),
        info(Some("Main"), 8, 7),
    ];
    assert_eq!(foreground_window_id_in(&list, 7, "Main"), 6);
    assert_eq!(foreground_window_id_in(&list, 9, "Main"), 0);
    assert_eq!(foreground_window_id_in(&list, 7, "Missing"), 0);
}

#[test]
fn host_without_backend_reports() {
    let _m = MacWindowManager::new();
    let _w = WinWindowManager::new();
    assert_eq!(get_foreground_window_id(), 0);
    assert!(!check_accessibility_permission());
    assert!(check_screen_recording_permission());
    assert!(check_input_monitoring_permission());
}

#[test]
fn layout_split_h_tiles() {
    let tiles = layout_tiles_exec("split-h", 0, 0, 1921, 1080).unwrap();
    assert_eq!(tiles, vec![(-8, 0, 976, 1088), (952, 0, 977, 1088)]);
}

#[test]
fn layout_grid_3x2_tiles() {
    let tiles = layout_tiles_exec("grid-3x2", 10, 20, 1200, 801).unwrap();
    assert_eq!(tiles.len(), 6);
    assert_eq!(tiles[0], (2, 20, 416, 408));
    assert_eq!(tiles[2], (802, 20, 416, 408));
    assert_eq!(tiles[5], (802, 420, 416, 409));
}

#[test]
fn layout_unknown_is_none() {
    assert!(layout_tiles_exec("maximize", 0, 0, 100, 100).is_none());
    assert!(layout_tiles_exec("grid-5x5", 0, 0, 100, 100).is_none());
    assert_eq!(layout_tiles_exec("grid-4x2", 0, 0, 100, 100).unwrap().len(), 8);
    assert_eq!(layout_tiles_exec("grid-2x2", 0, 0, 100, 100).unwrap().len(), 4);
    assert_eq!(layout_tiles_exec("split-v", 0, 0, 100, 101).unwrap()[1], (-8, 50, 116, 59));
}

#[test]
fn premultiplied_bgra_pixels() {
    let rgba = vec![255u8, 128, 0, 255, 200, 100, 50, 128, 10, 20, 30, 0, 1, 2, 3, 4];
    let out = rgba_to_premultiplied_bgra(&rgba, 2);
    assert_eq!(
        out,
        vec![0, 128, 255, 255, 25, 50, 100, 128, 0, 0, 0, 0, 0, 0, 0, 4]
    );
}
