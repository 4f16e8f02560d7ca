use focusretro::notifications::{poll_failures, poll_row, take_new_ids, toast_text_segments};
use std::collections::HashSet;

#[test]
fn new_ids_are_reported_once() {
    let mut seen: HashSet<u32> = HashSet::new();
    seen.insert(1);
    let fresh = take_new_ids(&mut seen, &[1, 2, 3, 2, 4]);
    assert_eq!(fresh, vec![2, 3, 4]);
    assert_eq!(seen.len(), 4);
    assert!(take_new_ids(&mut seen, &[4, 3, 1]).is_empty());
}

#[test]
fn toast_texts_without_empty_ones() {
    let texts = vec![String::new(), "Title".to_string(), String::new(), " body ".to_string()];
    let segs = toast_text_segments(&texts).unwrap();
    assert_eq!(segs, vec!["Dofus Retro", "Title  body ", "Title", " body "]);
    assert!(toast_text_segments(&[String::new()]).is_none());
}

#[test]
fn poll_row_moves_past_id() {
    let (last, segs) = poll_row(5, 9, "<text>Bob - Dofus Retro v1</text><text>Bob offers a trade</text>");
    assert_eq!(last, 9);
    let segs = segs.unwrap();
    assert_eq!(segs[2], "Bob - Dofus Retro v1");
    assert_eq!(segs[3], "Bob offers a trade");
    let (last, segs) = poll_row(9, 3, "<toast/>");
    assert_eq!(last, 9);
    assert!(segs.is_none());
}

#[test]
fn reopen_after_three_failures() {
    assert_eq!(poll_failures(0, false), (1, false));
    assert_eq!(poll_failures(1, false), (2, false));
    assert_eq!(poll_failures(2, false), (3, true));
    assert_eq!(poll_failures(3, true), (0, false));
    assert_eq!(poll_failures(u32::MAX, false), (u32::MAX, true));
}
