use focusretro::autoswitch::{
    handle_notification, now_epoch_secs, now_millis, route_event, route_event_at, RouteAction,
};
use focusretro::parser::{
    GameEvent, GroupInviteNotification, PrivateMessage, TradeRequest, TurnNotification,
};
use focusretro::platform::GameWindow;
use focusretro::state::{AppState, Preferences};

fn make_state() -> AppState {
    AppState::from_prefs(Preferences::default())
}

fn make_window(name: &str, id: u64) -> GameWindow {
    GameWindow {
        character_name: name.into(),
        window_id: id,
        pid: 0,
        title: format!("{} - Dofus Retro v1.0", name),
    }
}

fn turn(name: &str) -> GameEvent {
    GameEvent::Turn(TurnNotification { character_name: name.into() })
}

fn invite(receiver: &str, inviter: &str) -> GameEvent {
    GameEvent::GroupInvite(GroupInviteNotification {
        receiver_name: receiver.into(),
        inviter_name: inviter.into(),
    })
}

fn trade(receiver: &str, requester: &str) -> GameEvent {
    GameEvent::Trade(TradeRequest {
        receiver_name: receiver.into(),
        requester_name: requester.into(),
    })
}

fn pm(receiver: &str, sender: &str) -> GameEvent {
    GameEvent::PrivateMessage(PrivateMessage {
        receiver_name: receiver.into(),
        sender_name: sender.into(),
        message: "hello".into(),
    })
}

#[test]
fn turn_autoswitch_on_returns_focus() {
    let mut state = make_state();
    state.update_accounts(vec![make_window("Craette", 1)]);
    match route_event(&turn("Craette"), &state) {
        RouteAction::Focus { name, auto_accept, event_type } => {
            assert_eq!(name, "Craette");
            assert!(!auto_accept);
            assert_eq!(event_type, "turn");
        }
        other => panic!("expected Focus, got {:?}", other),
    }
}

#[test]
fn turn_autoswitch_off_returns_ignore() {
    let mut state = make_state();
    state.autoswitch_enabled = false;
    assert!(matches!(route_event(&turn("Craette"), &state), RouteAction::Ignore));
}

#[test]
fn group_invite_known_inviter_returns_focus() {
    let mut state = make_state();
    state.update_accounts(vec![make_window("Alice", 1), make_window("Bob", 2)]);
    match route_event(&invite("Bob", "Alice"), &state) {
        RouteAction::Focus { name, auto_accept, event_type } => {
            assert_eq!(name, "Bob");
            assert!(!auto_accept);
            assert_eq!(event_type, "group_invite");
        }
        other => panic!("expected Focus, got {:?}", other),
    }
}

#[test]
fn group_invite_known_inviter_auto_accept_on() {
    let mut state = make_state();
    state.update_accounts(vec![make_window("Alice", 1), make_window("Bob", 2)]);
    state.auto_accept_enabled = true;
    match route_event(&invite("Bob", "Alice"), &state) {
        RouteAction::Focus { auto_accept, .. } => assert!(auto_accept),
        other => panic!("expected Focus, got {:?}", other),
    }
}

#[test]
fn group_invite_unknown_inviter_returns_ignore() {
    let mut state = make_state();
    state.update_accounts(vec![make_window("Bob", 1)]);
    assert!(matches!(route_event(&invite("Bob", "Stranger"), &state), RouteAction::Ignore));
}

#[test]
fn group_invite_toggle_off_returns_ignore() {
    let mut state = make_state();
    state.update_accounts(vec![make_window("Alice", 1), make_window("Bob", 2)]);
    state.group_invite_enabled = false;
    assert!(matches!(route_event(&invite("Bob", "Alice"), &state), RouteAction::Ignore));
}

#[test]
fn trade_known_requester_returns_focus() {
    let mut state = make_state();
    state.update_accounts(vec![make_window("Alice", 1), make_window("Bob", 2)]);
    match route_event(&trade("Bob", "Alice"), &state) {
        RouteAction::Focus { name, event_type, .. } => {
            assert_eq!(name, "Bob");
            assert_eq!(event_type, "trade");
        }
        other => panic!("expected Focus, got {:?}", other),
    }
}

#[test]
fn trade_unknown_requester_returns_ignore() {
    let mut state = make_state();
    state.update_accounts(vec![make_window("Bob", 1)]);
    assert!(matches!(route_event(&trade("Bob", "Stranger"), &state), RouteAction::Ignore));
}

#[test]
fn trade_toggle_off_returns_ignore() {
    let mut state = make_state();
    state.update_accounts(vec![make_window("Alice", 1), make_window("Bob", 2)]);
    state.trade_enabled = false;
    assert!(matches!(route_event(&trade("Bob", "Alice"), &state), RouteAction::Ignore));
}

#[test]
fn trade_auto_accept_on() {
    let mut state = make_state();
    state.update_accounts(vec![make_window("Alice", 1), make_window("Bob", 2)]);
    state.auto_accept_enabled = true;
    match route_event(&trade("Bob", "Alice"), &state) {
        RouteAction::Focus { auto_accept, .. } => assert!(auto_accept),
        other => panic!("expected Focus, got {:?}", other),
    }
}

#[test]
fn pm_enabled_returns_store_message() {
    let state = make_state();
    assert!(matches!(route_event(&pm("Bob", "Alice"), &state), RouteAction::StoreMessage(_)));
}

#[test]
fn pm_disabled_returns_ignore() {
    let mut state = make_state();
    state.pm_enabled = false;
    assert!(matches!(route_event(&pm("Bob", "Alice"), &state), RouteAction::Ignore));
}

#[test]
fn turn_skipped_account_returns_ignore() {
    let mut state = make_state();
    state.update_accounts(vec![make_window("Craette", 1)]);
    state.set_skipped("Craette", true);
    assert!(matches!(route_event(&turn("Craette"), &state), RouteAction::Ignore));
}

#[test]
fn group_invite_skipped_receiver_returns_ignore() {
    let mut state = make_state();
    state.update_accounts(vec![make_window("Craette", 1), make_window("Alice", 2)]);
    state.set_skipped("Craette", true);
    assert!(matches!(route_event(&invite("Craette", "Alice"), &state), RouteAction::Ignore));
}

#[test]
fn trade_skipped_receiver_returns_ignore() {
    let mut state = make_state();
    state.update_accounts(vec![make_window("Craette", 1), make_window("Alice", 2)]);
    state.set_skipped("Craette", true);
    assert!(matches!(route_event(&trade("Craette", "Alice"), &state), RouteAction::Ignore));
}

// ---------------------------------------------------------------------------
// Further scenarios
// ---------------------------------------------------------------------------

#[test]
fn stored_message_carries_fields_and_time() {
    let state = make_state();
    match route_event_at(&pm("Bob", "Alice"), &state, 1234) {
        RouteAction::StoreMessage(m) => {
            assert_eq!(m.receiver, "Bob");
            assert_eq!(m.sender, "Alice");
            assert_eq!(m.message, "hello");
            assert_eq!(m.timestamp, 1234);
        }
        other => panic!("expected StoreMessage, got {:?}", other),
    }
}

#[test]
fn inviter_match_ignores_ascii_case() {
    let mut state = make_state();
    state.update_accounts(vec![make_window("Alice", 1), make_window("Bob", 2)]);
    assert!(matches!(
        route_event_at(&invite("Bob", "ALICE"), &state, 0),
        RouteAction::Focus { .. }
    ));
}

#[test]
fn turn_for_unknown_character_still_focuses() {
    let state = make_state();
    match route_event_at(&turn("Nobody"), &state, 0) {
        RouteAction::Focus { name, .. } => assert_eq!(name, "Nobody"),
        other => panic!("expected Focus, got {:?}", other),
    }
}

#[test]
fn now_clocks_are_after_2020() {
    assert!(now_epoch_secs() > 1_577_836_800);
    assert!(now_millis() > 1_577_836_800_000);
}

fn segments(v: &[&str]) -> Vec<String> {
    v.iter().map(|s| s.to_string()).collect()
}

#[test]
fn notification_with_pm_is_stored() {
    let mut state = make_state();
    let segs = segments(&[
        "Notification Center",
        "Kura-noire - Dofus Retro v1.47.20",
        "de Testy : salut",
    ]);
    match handle_notification(&mut state, &segs, 77) {
        Some((GameEvent::PrivateMessage(p), RouteAction::StoreMessage(m))) => {
            assert_eq!(p.sender_name, "Testy");
            assert_eq!(m.receiver, "Kura-noire");
            assert_eq!(m.message, "salut");
            assert_eq!(m.timestamp, 77);
        }
        other => panic!("unexpected {:?}", other),
    }
    let msgs = state.get_messages();
    assert_eq!(msgs.len(), 1);
    assert_eq!(msgs[0].sender, "Testy");
}

#[test]
fn notification_with_turn_asks_focus_and_keeps_state() {
    let mut state = make_state();
    let segs = segments(&["C'est à Craette de jouer"]);
    match handle_notification(&mut state, &segs, 0) {
        Some((GameEvent::Turn(_), RouteAction::Focus { name, auto_accept, event_type })) => {
            assert_eq!(name, "Craette");
            assert!(!auto_accept);
            assert_eq!(event_type, "turn");
        }
        other => panic!("unexpected {:?}", other),
    }
    assert!(state.get_messages().is_empty());
    assert!(handle_notification(&mut state, &segments(&["hello"]), 0).is_none());
}

#[test]
fn listener_start_and_failure_are_recorded() {
    let mut state = make_state();
    state.on_listener_started("event".to_string(), true, 10);
    assert!(state.listener_healthy);
    assert_eq!(state.get_notif_mode(), "event");
    assert!(state.get_traces().is_empty());
    state.on_listener_failed("boom".to_string(), 20);
    assert!(!state.listener_healthy);
    assert_eq!(state.listener_restart_count, 1);
    let t = state.get_traces();
    assert_eq!(t.len(), 1);
    assert_eq!(t[0].event_type, "notification_center_restart");
    assert_eq!(t[0].character_name, "boom");
    assert_eq!(t[0].t_notification_ms, 20);
    state.on_listener_started("poll".to_string(), false, 30);
    let t = state.get_traces();
    assert_eq!(t.len(), 2);
    assert_eq!(t[1].event_type, "listener_reconnect");
    assert_eq!(t[1].character_name, "");
    assert_eq!(t[1].t_focus_done_ms, 30);
    assert!(state.listener_healthy);
}

#[test]
fn focus_done_sets_current_and_traces() {
    let mut state = make_state();
    state.update_accounts(vec![make_window("Alice", 1), make_window("Bob", 2)]);
    state.on_focused("bob", "trade".to_string(), 5, 9);
    assert_eq!(state.current_index, 1);
    let t = state.get_traces();
    assert_eq!(t.len(), 1);
    assert_eq!(t[0].event_type, "trade");
    assert_eq!(t[0].character_name, "bob");
    assert_eq!((t[0].t_notification_ms, t[0].t_focus_done_ms), (5, 9));
}
