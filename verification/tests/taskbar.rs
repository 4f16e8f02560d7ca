use focusretro::platform::GameWindow;
use focusretro::taskbar::{aumid_for, buttons_to_reorder, stale_handles, windows_needing_id};
use std::collections::HashSet;

fn win(name: &str, id: u64) -> GameWindow {
    GameWindow {
        character_name: name.into(),
        window_id: id,
        pid: 1,
        title: format!("{} - Dofus Retro v1", name),
    }
}

#[test]
fn application_id_per_character() {
    assert_eq!(aumid_for("Craette"), "focusretro.dofus.Craette");
    assert_eq!(aumid_for(""), "focusretro.dofus.");
}

#[test]
fn stale_and_pending_windows() {
    let windows = vec![win("A", 1), win("B", 2), win("C", 3)];
    assert_eq!(stale_handles(&[4, 2, 9], &windows), vec![4, 9]);
    let mut done: HashSet<isize> = HashSet::new();
    done.insert(2);
    let pending: Vec<u64> = windows_needing_id(&windows, &done).iter().map(|w| w.window_id).collect();
    assert_eq!(pending, vec![1, 3]);
}

#[test]
fn reorder_needs_two_ready_buttons() {
    let windows = vec![win("A", 1), win("B", 2), win("C", 3)];
    let mut done: HashSet<isize> = HashSet::new();
    done.insert(3);
    assert!(buttons_to_reorder(&windows, &done).is_none());
    done.insert(1);
    let order: Vec<u64> = buttons_to_reorder(&windows, &done).unwrap().iter().map(|w| w.window_id).collect();
    assert_eq!(order, vec![1, 3]);
}
