//! What to do with a game event: focus a character's window (optionally
//! accepting with Enter), store a private message, or ignore it, depending on
//! the feature toggles, the known accounts and the skipped profiles.
use vstd::prelude::*;
use vstd::string::StringExecFns;
use crate::parser::{GameEvent, EventView, parse_game_event, parse_game_event_spec, seg_views};
use crate::state::{
    AppState, StoredMessage, TraceEntry, skipped, has_window, messages_after, traces_after,
    window_index,
};

verus! {

#[verifier::external_type_specification]
#[verifier::external_body]
pub struct ExSystemTime(std::time::SystemTime);

/// `SystemTime::now`: the current wall-clock time; nothing is claimed of it.
#[verifier::external_body]
fn system_now() -> (r: std::time::SystemTime) {
    std::time::SystemTime::now()
}

/// `SystemTime::duration_since(UNIX_EPOCH)`: the time elapsed since the Unix
/// epoch, `None` for a time before it; nothing is claimed of the value.
#[verifier::external_body]
fn since_unix_epoch(t: &std::time::SystemTime) -> (r: Option<std::time::Duration>) {
    t.duration_since(std::time::UNIX_EPOCH).ok()
}

/// `Duration::as_secs`: the whole seconds of `d`; nothing is claimed of the value.
#[verifier::external_body]
fn duration_secs(d: &std::time::Duration) -> (r: u64) {
    d.as_secs()
}

/// `Duration::as_millis`: the whole milliseconds of `d`; nothing is claimed of the value.
#[verifier::external_body]
fn duration_millis(d: &std::time::Duration) -> (r: u128) {
    d.as_millis()
}

/// Milliseconds since the Unix epoch (0 for a clock set before it).
pub fn now_millis() -> (r: u64) {
    match since_unix_epoch(&system_now()) {
        Some(d) => duration_millis(&d) as u64,
        None => 0,
    }
}

/// Seconds since the Unix epoch (0 for a clock set before it).
pub fn now_epoch_secs() -> (r: u64) {
    match since_unix_epoch(&system_now()) {
        Some(d) => duration_secs(&d),
        None => 0,
    }
}

/// The routing decision for a game event.
#[derive(Debug)]
pub enum RouteAction {
    /// Focus the window of `name`; press Enter afterwards when `auto_accept`.
    Focus { name: String, auto_accept: bool, event_type: String },
    /// Keep the private message.
    StoreMessage(StoredMessage),
    Ignore,
}

/// The mathematical value of a routing decision.
pub enum RouteView {
    Focus { name: Seq<char>, auto_accept: bool, event_type: Seq<char> },
    StoreMessage { receiver: Seq<char>, sender: Seq<char>, message: Seq<char>, timestamp: u64 },
    Ignore,
}

impl View for RouteAction {
    type V = RouteView;

    open spec fn view(&self) -> RouteView {
        match self {
            RouteAction::Focus { name, auto_accept, event_type } => RouteView::Focus {
                name: name@,
                auto_accept: *auto_accept,
                event_type: event_type@,
            },
            RouteAction::StoreMessage(m) => RouteView::StoreMessage {
                receiver: m.receiver@,
                sender: m.sender@,
                message: m.message@,
                timestamp: m.timestamp,
            },
            RouteAction::Ignore => RouteView::Ignore,
        }
    }
}

/// How an event is routed in state `s` at time `now` (seconds since the epoch).
///
/// A turn focuses its character when autoswitch is on and the character is not
/// skipped. A group invite or a trade request focuses the receiver when its
/// toggle is on, the inviter or requester is one of the open accounts and the
/// receiver is not skipped; Enter follows when auto-accept is on. A private
/// message is stored, stamped `now`, when private messages are on. Anything
/// else is ignored.
pub open spec fn route_spec(e: EventView, s: AppState, now: u64) -> RouteView {
    match e {
        EventView::Turn { character } => if !s.autoswitch_enabled || skipped(s.profiles@, character) {
            RouteView::Ignore
        } else {
            RouteView::Focus { name: character, auto_accept: false, event_type: "turn"@ }
        },
        EventView::GroupInvite { receiver, inviter } => if !s.group_invite_enabled || !has_window(
            s.accounts@,
            inviter,
        ) || skipped(s.profiles@, receiver) {
            RouteView::Ignore
        } else {
            RouteView::Focus {
                name: receiver,
                auto_accept: s.auto_accept_enabled,
                event_type: "group_invite"@,
            }
        },
        EventView::Trade { receiver, requester } => if !s.trade_enabled || !has_window(
            s.accounts@,
            requester,
        ) || skipped(s.profiles@, receiver) {
            RouteView::Ignore
        } else {
            RouteView::Focus {
                name: receiver,
                auto_accept: s.auto_accept_enabled,
                event_type: "trade"@,
            }
        },
        EventView::PrivateMessage { receiver, sender, message } => if !s.pm_enabled {
            RouteView::Ignore
        } else {
            RouteView::StoreMessage { receiver, sender, message, timestamp: now }
        },
    }
}

/// Focus goes only where it is wanted: never to a skipped character; for a
/// group invite or a trade, only when the inviter or requester is one of the
/// open accounts and the feature is on; a turn needs autoswitch on and never
/// presses Enter; a private message is never focused, only stored when
/// private messages are on.
pub proof fn law_route_focus(e: EventView, s: AppState, now: u64)
    ensures
        route_spec(e, s, now) matches RouteView::Focus { name, auto_accept, .. } ==> {
            &&& !skipped(s.profiles@, name)
            &&& auto_accept ==> s.auto_accept_enabled
            &&& match e {
                EventView::Turn { character } => s.autoswitch_enabled && name == character && !auto_accept,
                EventView::GroupInvite { receiver, inviter } => s.group_invite_enabled && name == receiver
                    && has_window(s.accounts@, inviter),
                EventView::Trade { receiver, requester } => s.trade_enabled && name == receiver
                    && has_window(s.accounts@, requester),
                EventView::PrivateMessage { .. } => false,
            }
        },
        e is PrivateMessage ==> (route_spec(e, s, now) is StoreMessage <==> s.pm_enabled),
{
}

/// Routes `event` in `state`, stamping a stored message with `now_secs`.
pub fn route_event_at(event: &GameEvent, state: &AppState, now_secs: u64) -> (r: RouteAction)
    ensures
        r@ == route_spec(event@, *state, now_secs),
{
    match event {
        GameEvent::Turn(turn) => {
            if !state.is_autoswitch_enabled() {
                return RouteAction::Ignore;
            }
            if state.is_account_skipped(turn.character_name.as_str()) {
                return RouteAction::Ignore;
            }
            RouteAction::Focus {
                name: turn.character_name.clone(),
                auto_accept: false,
                event_type: String::from_str("turn"),
            }
        },
        GameEvent::GroupInvite(invite) => {
            if !state.is_group_invite_enabled() {
                return RouteAction::Ignore;
            }
            if !state.has_account(invite.inviter_name.as_str()) {
                return RouteAction::Ignore;
            }
            if state.is_account_skipped(invite.receiver_name.as_str()) {
                return RouteAction::Ignore;
            }
            RouteAction::Focus {
                name: invite.receiver_name.clone(),
                auto_accept: state.is_auto_accept_enabled(),
                event_type: String::from_str("group_invite"),
            }
        },
        GameEvent::Trade(trade) => {
            if !state.is_trade_enabled() {
                return RouteAction::Ignore;
            }
            if !state.has_account(trade.requester_name.as_str()) {
                return RouteAction::Ignore;
            }
            if state.is_account_skipped(trade.receiver_name.as_str()) {
                return RouteAction::Ignore;
            }
            RouteAction::Focus {
                name: trade.receiver_name.clone(),
                auto_accept: state.is_auto_accept_enabled(),
                event_type: String::from_str("trade"),
            }
        },
        GameEvent::PrivateMessage(pm) => {
            if !state.is_pm_enabled() {
                return RouteAction::Ignore;
            }
            RouteAction::StoreMessage(
                StoredMessage {
                    receiver: pm.receiver_name.clone(),
                    sender: pm.sender_name.clone(),
                    message: pm.message.clone(),
                    timestamp: now_secs,
                },
            )
        },
    }
}

/// Routes `event` in `state`; a stored message is stamped with the current time.
pub fn route_event(event: &GameEvent, state: &AppState) -> (r: RouteAction)
    ensures
        exists|now: u64| r@ == route_spec(event@, *state, now),
{
    let now = now_epoch_secs();
    route_event_at(event, state, now)
}

/// Reads a notification and acts on it in `state`: the game event it
/// announces, if any, with its routing; a private message to store is stored
/// (stamped `now_secs`). Nothing changes when no event is read or the event is
/// not a stored message.
pub fn handle_notification(state: &mut AppState, segments: &[String], now_secs: u64) -> (r: Option<
    (GameEvent, RouteAction),
>)
    ensures
        match parse_game_event_spec(seg_views(segments@)) {
            None => r is None && *final(state) == *old(state),
            Some(ev) => r matches Some((e, a)) && e@ == ev && a@ == route_spec(ev, *old(state), now_secs)
                && match a {
                RouteAction::StoreMessage(m) => *final(state) == (AppState {
                    messages: final(state).messages,
                    ..*old(state)
                }) && final(state).messages@ == messages_after(old(state).messages@, m),
                _ => *final(state) == *old(state),
            },
        },
{
    let event = match parse_game_event(segments) {
        Some(e) => e,
        None => {
            return None;
        },
    };
    let action = route_event_at(&event, state, now_secs);
    match &action {
        RouteAction::StoreMessage(m) => {
            state.add_message(m.clone());
        },
        _ => {},
    }
    Some((event, action))
}

/// A trace for a listener event at time `now_ms` (milliseconds).
pub open spec fn listener_trace(event_type: Seq<char>, detail: Seq<char>, now_ms: u64) -> (
    Seq<char>,
    Seq<char>,
    u64,
    u64,
) {
    (event_type, detail, now_ms, now_ms)
}

/// A trace as its fields.
pub open spec fn trace_fields(t: TraceEntry) -> (Seq<char>, Seq<char>, u64, u64) {
    (t.event_type@, t.character_name@, t.t_notification_ms, t.t_focus_done_ms)
}

impl AppState {
    /// The notification listener is running in `mode`: it is healthy, and a
    /// start after the first is recorded as a reconnection.
    pub fn on_listener_started(&mut self, mode: String, first_start: bool, now_ms: u64)
        ensures
            final(self).notif_mode == mode,
            final(self).listener_healthy,
            first_start ==> final(self).traces == old(self).traces,
            !first_start ==> final(self).traces@ == traces_after(old(self).traces@, final(self).traces@.last())
                && trace_fields(final(self).traces@.last()) == listener_trace("listener_reconnect"@, ""@, now_ms),
            *final(self) == (AppState {
                notif_mode: final(self).notif_mode,
                listener_healthy: final(self).listener_healthy,
                traces: final(self).traces,
                ..*old(self)
            }),
    {
        self.set_notif_mode(mode);
        self.set_listener_healthy(true);
        if !first_start {
            let entry = TraceEntry {
                event_type: String::from_str("listener_reconnect"),
                character_name: String::new(),
                t_notification_ms: now_ms,
                t_focus_done_ms: now_ms,
            };
            let ghost e = entry;
            self.add_trace(entry);
            assert(self.traces@.last() == e);
            proof {
                reveal_strlit("");
            }
        }
    }

    /// The notification listener failed with `error`: it is unhealthy, one more
    /// restart is counted, and the failure is recorded.
    pub fn on_listener_failed(&mut self, error: String, now_ms: u64)
        ensures
            !final(self).listener_healthy,
            final(self).listener_restart_count == if old(self).listener_restart_count == u32::MAX {
                u32::MAX
            } else {
                (old(self).listener_restart_count + 1) as u32
            },
            final(self).traces@ == traces_after(old(self).traces@, final(self).traces@.last()),
            trace_fields(final(self).traces@.last()) == listener_trace(
                "notification_center_restart"@,
                error@,
                now_ms,
            ),
            *final(self) == (AppState {
                listener_healthy: final(self).listener_healthy,
                listener_restart_count: final(self).listener_restart_count,
                traces: final(self).traces,
                ..*old(self)
            }),
    {
        self.set_listener_healthy(false);
        self.increment_listener_restart_count();
        let entry = TraceEntry {
            event_type: String::from_str("notification_center_restart"),
            character_name: error,
            t_notification_ms: now_ms,
            t_focus_done_ms: now_ms,
        };
        let ghost e = entry;
        self.add_trace(entry);
        assert(self.traces@.last() == e);
    }

    /// `name`'s window was focused for an `event_type` notification: it becomes
    /// the current account and the timing is recorded.
    pub fn on_focused(&mut self, name: &str, event_type: String, t_notification_ms: u64, t_focus_done_ms: u64)
        ensures
            final(self).current_index == match window_index(old(self).accounts@, name@) {
                Some(i) => i as usize,
                None => old(self).current_index,
            },
            final(self).traces@ == traces_after(old(self).traces@, final(self).traces@.last()),
            trace_fields(final(self).traces@.last()) == (event_type@, name@, t_notification_ms, t_focus_done_ms),
            *final(self) == (AppState {
                current_index: final(self).current_index,
                traces: final(self).traces,
                ..*old(self)
            }),
    {
        self.set_current_by_name(name);
        let entry = TraceEntry {
            event_type,
            character_name: String::from_str(name),
            t_notification_ms,
            t_focus_done_ms,
        };
        let ghost e = entry;
        self.add_trace(entry);
        assert(self.traces@.last() == e);
    }
}

} // verus!
