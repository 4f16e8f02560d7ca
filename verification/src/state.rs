//! The application state: feature toggles, account profiles (order, principal,
//! skipped, colour and icon), the detected game windows in profile order, the
//! current account, captured private messages, focus traces, hotkey bindings
//! and display preferences.
use vstd::prelude::*;
use vstd::string::StringExecFns;
use crate::text::{eq_ic, eq_ignore_ascii_case, str_eq, ascii_lower, chars_of};
use crate::search::{first_index, opt_int, lemma_first_index_is, lemma_first_index};
use crate::platform::GameWindow;

verus! {

// ---------------------------------------------------------------------------
// Records
// ---------------------------------------------------------------------------

/// What the tray shows; the tray is rebuilt only when this changes.
#[derive(Debug)]
pub struct TraySnapshot {
    pub is_active: bool,
    pub count: usize,
    pub lang: String,
}

impl PartialEq for TraySnapshot {
    fn eq(&self, other: &Self) -> (r: bool) {
        self.is_active == other.is_active && self.count == other.count && str_eq(
            self.lang.as_str(),
            other.lang.as_str(),
        )
    }
}

impl vstd::std_specs::cmp::PartialEqSpecImpl for TraySnapshot {
    open spec fn obeys_eq_spec() -> bool {
        true
    }

    open spec fn eq_spec(&self, other: &Self) -> bool {
        self.is_active == other.is_active && self.count == other.count && self.lang@ == other.lang@
    }
}

impl Clone for TraySnapshot {
    fn clone(&self) -> (r: Self)
        ensures
            r == *self,
    {
        TraySnapshot { is_active: self.is_active, count: self.count, lang: self.lang.clone() }
    }
}

/// A captured private message.
#[derive(Debug)]
pub struct StoredMessage {
    pub receiver: String,
    pub sender: String,
    pub message: String,
    pub timestamp: u64,
}

impl Clone for StoredMessage {
    fn clone(&self) -> (r: Self)
        ensures
            r == *self,
    {
        StoredMessage {
            receiver: self.receiver.clone(),
            sender: self.sender.clone(),
            message: self.message.clone(),
            timestamp: self.timestamp,
        }
    }
}

/// The timing of one focus switch (or listener event).
#[derive(Debug)]
pub struct TraceEntry {
    pub event_type: String,
    pub character_name: String,
    pub t_notification_ms: u64,
    pub t_focus_done_ms: u64,
}

impl Clone for TraceEntry {
    fn clone(&self) -> (r: Self)
        ensures
            r == *self,
    {
        TraceEntry {
            event_type: self.event_type.clone(),
            character_name: self.character_name.clone(),
            t_notification_ms: self.t_notification_ms,
            t_focus_done_ms: self.t_focus_done_ms,
        }
    }
}

/// The user's settings for one character.
#[derive(Debug)]
pub struct AccountProfile {
    pub character_name: String,
    pub color: Option<String>,
    pub icon_path: Option<String>,
    pub is_principal: bool,
    pub is_skipped: bool,
}

/// A copy of an optional string.
pub fn clone_opt(o: &Option<String>) -> (r: Option<String>)
    ensures
        r == *o,
{
    match o {
        Some(s) => Some(s.clone()),
        None => None,
    }
}

impl Clone for AccountProfile {
    fn clone(&self) -> (r: Self)
        ensures
            r == *self,
    {
        AccountProfile {
            character_name: self.character_name.clone(),
            color: clone_opt(&self.color),
            icon_path: clone_opt(&self.icon_path),
            is_principal: self.is_principal,
            is_skipped: self.is_skipped,
        }
    }
}

/// An open account as the user interface shows it.
#[derive(Debug)]
pub struct AccountView {
    pub character_name: String,
    pub window_id: u64,
    pub pid: u32,
    pub title: String,
    pub color: Option<String>,
    pub icon_path: Option<String>,
    pub is_principal: bool,
    pub is_skipped: bool,
    pub is_current: bool,
    pub position: usize,
}

impl Clone for AccountView {
    fn clone(&self) -> (r: Self)
        ensures
            r == *self,
    {
        AccountView {
            character_name: self.character_name.clone(),
            window_id: self.window_id,
            pid: self.pid,
            title: self.title.clone(),
            color: clone_opt(&self.color),
            icon_path: clone_opt(&self.icon_path),
            is_principal: self.is_principal,
            is_skipped: self.is_skipped,
            is_current: self.is_current,
            position: self.position,
        }
    }
}

/// A global hotkey: an action and the key with its modifiers.
#[derive(Debug)]
pub struct HotkeyBinding {
    pub action: String,
    pub key: String,
    pub cmd: bool,
    pub alt: bool,
    pub shift: bool,
    pub ctrl: bool,
}

impl Clone for HotkeyBinding {
    fn clone(&self) -> (r: Self)
        ensures
            r == *self,
    {
        HotkeyBinding {
            action: self.action.clone(),
            key: self.key.clone(),
            cmd: self.cmd,
            alt: self.alt,
            shift: self.shift,
            ctrl: self.ctrl,
        }
    }
}

/// The mathematical value of a binding.
pub struct BindingView {
    pub action: Seq<char>,
    pub key: Seq<char>,
    pub cmd: bool,
    pub alt: bool,
    pub shift: bool,
    pub ctrl: bool,
}

impl View for HotkeyBinding {
    type V = BindingView;

    open spec fn view(&self) -> BindingView {
        BindingView {
            action: self.action@,
            key: self.key@,
            cmd: self.cmd,
            alt: self.alt,
            shift: self.shift,
            ctrl: self.ctrl,
        }
    }
}

/// The values of a list of bindings.
pub open spec fn bindings_view(hs: Seq<HotkeyBinding>) -> Seq<BindingView> {
    hs.map_values(|h: HotkeyBinding| h@)
}

/// A binding with no modifier.
pub open spec fn plain_binding(action: Seq<char>, key: Seq<char>) -> BindingView {
    BindingView { action, key, cmd: false, alt: false, shift: false, ctrl: false }
}

/// The bindings a fresh installation starts with: F1 previous, F2 next, F3
/// principal, and the radial selector unbound.
pub open spec fn default_bindings() -> Seq<BindingView> {
    seq![
        plain_binding("prev"@, "F1"@),
        plain_binding("next"@, "F2"@),
        plain_binding("principal"@, "F3"@),
        plain_binding("radial"@, ""@),
    ]
}

fn plain(action: &str, key: &str) -> (r: HotkeyBinding)
    ensures
        r@ == plain_binding(action@, key@),
{
    HotkeyBinding {
        action: String::from_str(action),
        key: String::from_str(key),
        cmd: false,
        alt: false,
        shift: false,
        ctrl: false,
    }
}

/// The default hotkey bindings.
pub fn default_hotkeys() -> (r: Vec<HotkeyBinding>)
    ensures
        bindings_view(r@) == default_bindings(),
{
    let mut v: Vec<HotkeyBinding> = Vec::new();
    v.push(plain("prev", "F1"));
    v.push(plain("next", "F2"));
    v.push(plain("principal", "F3"));
    v.push(plain("radial", ""));
    assert(bindings_view(v@) =~= default_bindings());
    v
}

// ---------------------------------------------------------------------------
// Interface language
// ---------------------------------------------------------------------------

/// The interface language for a system locale: French or Spanish when the
/// locale starts with `fr` or `es` (any case), English otherwise.
pub open spec fn language_of_locale(locale: Seq<char>) -> Seq<char> {
    if locale.len() >= 2 && ascii_lower(locale[0]) == 'f' && ascii_lower(locale[1]) == 'r' {
        "fr"@
    } else if locale.len() >= 2 && ascii_lower(locale[0]) == 'e' && ascii_lower(locale[1]) == 's' {
        "es"@
    } else {
        "en"@
    }
}

/// The interface language for `locale`.
pub fn language_from_locale(locale: &str) -> (r: String)
    ensures
        r@ == language_of_locale(locale@),
{
    let v = chars_of(locale);
    if v.len() >= 2 {
        let a = crate::text::to_ascii_lower(v[0]);
        let b = crate::text::to_ascii_lower(v[1]);
        if a == 'f' && b == 'r' {
            return String::from_str("fr");
        }
        if a == 'e' && b == 's' {
            return String::from_str("es");
        }
    }
    String::from_str("en")
}

/// `sys_locale::get_locale`: the user's preferred locale, read from the
/// environment; nothing is claimed of the value.
#[verifier::external_body]
fn system_locale() -> (r: Option<String>) {
    sys_locale::get_locale()
}

/// The interface language matching the system locale (English when it is unknown).
pub fn detect_system_language() -> (r: String)
    ensures
        r@ == "fr"@ || r@ == "es"@ || r@ == "en"@,
{
    let locale = match system_locale() {
        Some(l) => l,
        None => String::new(),
    };
    language_from_locale(locale.as_str())
}

// ---------------------------------------------------------------------------
// Persisted preferences
// ---------------------------------------------------------------------------

/// The settings saved across runs.
#[derive(Debug)]
pub struct Preferences {
    pub autoswitch_enabled: bool,
    pub group_invite_enabled: bool,
    pub trade_enabled: bool,
    pub pm_enabled: bool,
    pub auto_accept_enabled: bool,
    pub show_debug: bool,
    pub profiles: Vec<AccountProfile>,
    pub hotkeys: Vec<HotkeyBinding>,
    pub language: String,
    pub theme: String,
    pub update_check_consent: Option<bool>,
    pub close_to_tray: bool,
    pub close_behavior_prompted: bool,
    pub taskbar_ungroup_enabled: bool,
}

/// `r` is the state started from saved preferences `prefs`: the saved
/// settings and profiles, the saved bindings completed with the defaults, and
/// nothing detected, received or traced yet.
pub open spec fn loaded_from(r: AppState, prefs: Preferences) -> bool {
    &&& r.autoswitch_enabled == prefs.autoswitch_enabled
    &&& r.group_invite_enabled == prefs.group_invite_enabled
    &&& r.trade_enabled == prefs.trade_enabled
    &&& r.pm_enabled == prefs.pm_enabled
    &&& r.auto_accept_enabled == prefs.auto_accept_enabled
    &&& r.show_debug == prefs.show_debug
    &&& !r.radial_open
    &&& r.last_foreground_id == 0
    &&& r.profiles == prefs.profiles
    &&& r.accounts@.len() == 0
    &&& r.current_index == 0
    &&& r.messages@.len() == 0
    &&& bindings_view(r.hotkeys@) == initial_bindings(bindings_view(prefs.hotkeys@))
    &&& r.language == prefs.language
    &&& r.traces@.len() == 0
    &&& r.notif_mode@ == "unknown"@
    &&& r.theme == prefs.theme
    &&& r.update_check_consent == prefs.update_check_consent
    &&& r.close_to_tray == prefs.close_to_tray
    &&& r.close_behavior_prompted == prefs.close_behavior_prompted
    &&& r.last_tray_snapshot is None
    &&& !r.listener_healthy
    &&& r.listener_restart_count == 0
    &&& r.taskbar_ungroup_enabled == prefs.taskbar_ungroup_enabled
    &&& r.taskbar_order_version == 0
    &&& r.taskbar_order_version_applied == u64::MAX
}

/// `p` holds the settings, profiles and bindings of `s`, as they are saved.
pub open spec fn saved_from(p: Preferences, s: AppState) -> bool {
    &&& p.autoswitch_enabled == s.autoswitch_enabled
    &&& p.group_invite_enabled == s.group_invite_enabled
    &&& p.trade_enabled == s.trade_enabled
    &&& p.pm_enabled == s.pm_enabled
    &&& p.auto_accept_enabled == s.auto_accept_enabled
    &&& p.show_debug == s.show_debug
    &&& p.profiles@ == s.profiles@
    &&& p.hotkeys@ == s.hotkeys@
    &&& p.language == s.language
    &&& p.theme == s.theme
    &&& p.update_check_consent == s.update_check_consent
    &&& p.close_to_tray == s.close_to_tray
    &&& p.close_behavior_prompted == s.close_behavior_prompted
    &&& p.taskbar_ungroup_enabled == s.taskbar_ungroup_enabled
}

/// Preferences holding the defaults, with `language` as the interface language.
pub open spec fn default_preferences(p: Preferences, language: Seq<char>) -> bool {
    &&& p.autoswitch_enabled && p.group_invite_enabled && p.trade_enabled && p.pm_enabled
    &&& !p.auto_accept_enabled && !p.show_debug
    &&& p.profiles@.len() == 0
    &&& bindings_view(p.hotkeys@) == default_bindings()
    &&& p.language@ == language
    &&& p.theme@ == "system"@
    &&& p.update_check_consent is None
    &&& p.close_to_tray && !p.close_behavior_prompted && p.taskbar_ungroup_enabled
}

impl Preferences {
    /// The default preferences with the given interface language.
    pub fn with_language(language: String) -> (r: Preferences)
        ensures
            default_preferences(r, language@),
    {
        Preferences {
            autoswitch_enabled: true,
            group_invite_enabled: true,
            trade_enabled: true,
            pm_enabled: true,
            auto_accept_enabled: false,
            show_debug: false,
            profiles: Vec::new(),
            hotkeys: default_hotkeys(),
            language,
            theme: String::from_str("system"),
            update_check_consent: None,
            close_to_tray: true,
            close_behavior_prompted: false,
            taskbar_ungroup_enabled: true,
        }
    }
}

impl Default for Preferences {
    fn default() -> (r: Preferences)
        ensures
            default_preferences(r, r.language@),
            r.language@ == "fr"@ || r.language@ == "es"@ || r.language@ == "en"@,
    {
        Preferences::with_language(detect_system_language())
    }
}

// ---------------------------------------------------------------------------
// Searches by character name, window id and action
// ---------------------------------------------------------------------------

pub open spec fn profile_named(ps: Seq<AccountProfile>, name: Seq<char>) -> spec_fn(int) -> bool {
    |i: int| eq_ic(ps[i].character_name@, name)
}

/// The first profile for `name` (ASCII case ignored).
pub open spec fn profile_index(ps: Seq<AccountProfile>, name: Seq<char>) -> Option<int> {
    first_index(ps.len() as int, profile_named(ps, name))
}

pub open spec fn window_named(ws: Seq<GameWindow>, name: Seq<char>) -> spec_fn(int) -> bool {
    |i: int| eq_ic(ws[i].character_name@, name)
}

/// The first window of `name` (ASCII case ignored).
pub open spec fn window_index(ws: Seq<GameWindow>, name: Seq<char>) -> Option<int> {
    first_index(ws.len() as int, window_named(ws, name))
}

pub open spec fn window_with_id(ws: Seq<GameWindow>, id: u64) -> spec_fn(int) -> bool {
    |i: int| ws[i].window_id == id
}

/// The first window with id `id`.
pub open spec fn window_id_index(ws: Seq<GameWindow>, id: u64) -> Option<int> {
    first_index(ws.len() as int, window_with_id(ws, id))
}

pub open spec fn binding_for(hs: Seq<HotkeyBinding>, action: Seq<char>) -> spec_fn(int) -> bool {
    |i: int| hs[i].action@ == action
}

/// The first binding of `action`.
pub open spec fn binding_index(hs: Seq<HotkeyBinding>, action: Seq<char>) -> Option<int> {
    first_index(hs.len() as int, binding_for(hs, action))
}

/// The profiles after marking the profile for `name` skipped or not.
pub open spec fn profiles_with_skipped(ps: Seq<AccountProfile>, name: Seq<char>, b: bool) -> Seq<AccountProfile> {
    match profile_index(ps, name) {
        Some(i) => ps.update(i, AccountProfile { is_skipped: b, ..ps[i] }),
        None => ps,
    }
}

/// Whether the profile for `name` is marked skipped (false without a profile).
pub open spec fn skipped(ps: Seq<AccountProfile>, name: Seq<char>) -> bool {
    match profile_index(ps, name) {
        Some(i) => ps[i].is_skipped,
        None => false,
    }
}

/// Some window of `ws` is for `name`.
pub open spec fn has_window(ws: Seq<GameWindow>, name: Seq<char>) -> bool {
    exists|i: int| 0 <= i < ws.len() && eq_ic(#[trigger] ws[i].character_name@, name)
}

/// Some profile of `ps` is for `name`.
pub open spec fn has_profile(ps: Seq<AccountProfile>, name: Seq<char>) -> bool {
    exists|i: int| 0 <= i < ps.len() && eq_ic(#[trigger] ps[i].character_name@, name)
}

/// The index of the first profile for `name`.
pub fn find_profile(ps: &Vec<AccountProfile>, name: &str) -> (r: Option<usize>)
    ensures
        opt_int(r) == profile_index(ps@, name@),
        r is None <==> !has_profile(ps@, name@),
{
    let mut i: usize = 0;
    while i < ps.len()
        invariant
            i <= ps.len(),
            forall|j: int| 0 <= j < i ==> !(#[trigger] profile_named(ps@, name@)(j)),
        decreases ps.len() - i,
    {
        if eq_ignore_ascii_case(ps[i].character_name.as_str(), name) {
            proof {
                lemma_first_index_is(ps@.len() as int, profile_named(ps@, name@), i as int);
            }
            return Some(i);
        }
        i += 1;
    }
    proof {
        lemma_first_index(ps@.len() as int, profile_named(ps@, name@));
        assert forall|j: int| 0 <= j < ps@.len() implies !eq_ic(#[trigger] ps@[j].character_name@, name@) by {
            assert(!profile_named(ps@, name@)(j));
        }
    }
    None
}

/// The index of the first window for `name`.
pub fn find_window(ws: &[GameWindow], name: &str) -> (r: Option<usize>)
    ensures
        opt_int(r) == window_index(ws@, name@),
        r is None <==> !has_window(ws@, name@),
{
    let mut i: usize = 0;
    while i < ws.len()
        invariant
            i <= ws.len(),
            forall|j: int| 0 <= j < i ==> !(#[trigger] window_named(ws@, name@)(j)),
        decreases ws.len() - i,
    {
        if eq_ignore_ascii_case(ws[i].character_name.as_str(), name) {
            proof {
                lemma_first_index_is(ws@.len() as int, window_named(ws@, name@), i as int);
            }
            return Some(i);
        }
        i += 1;
    }
    proof {
        lemma_first_index(ws@.len() as int, window_named(ws@, name@));
        assert forall|j: int| 0 <= j < ws@.len() implies !eq_ic(#[trigger] ws@[j].character_name@, name@) by {
            assert(!window_named(ws@, name@)(j));
        }
    }
    None
}

/// The index of the first window with id `id`.
pub fn find_window_id(ws: &[GameWindow], id: u64) -> (r: Option<usize>)
    ensures
        opt_int(r) == window_id_index(ws@, id),
{
    let mut i: usize = 0;
    while i < ws.len()
        invariant
            i <= ws.len(),
            forall|j: int| 0 <= j < i ==> !(#[trigger] window_with_id(ws@, id)(j)),
        decreases ws.len() - i,
    {
        if ws[i].window_id == id {
            proof {
                lemma_first_index_is(ws@.len() as int, window_with_id(ws@, id), i as int);
            }
            return Some(i);
        }
        i += 1;
    }
    proof {
        lemma_first_index(ws@.len() as int, window_with_id(ws@, id));
    }
    None
}

/// The index of the first binding of `action`.
pub fn find_binding(hs: &Vec<HotkeyBinding>, action: &str) -> (r: Option<usize>)
    ensures
        opt_int(r) == binding_index(hs@, action@),
{
    let mut i: usize = 0;
    while i < hs.len()
        invariant
            i <= hs.len(),
            forall|j: int| 0 <= j < i ==> !(#[trigger] binding_for(hs@, action@)(j)),
        decreases hs.len() - i,
    {
        if str_eq(hs[i].action.as_str(), action) {
            proof {
                lemma_first_index_is(hs@.len() as int, binding_for(hs@, action@), i as int);
            }
            return Some(i);
        }
        i += 1;
    }
    proof {
        lemma_first_index(hs@.len() as int, binding_for(hs@, action@));
    }
    None
}

/// Whether the profile for `name` is marked skipped.
pub fn is_skipped_in(ps: &Vec<AccountProfile>, name: &str) -> (r: bool)
    ensures
        r == skipped(ps@, name@),
{
    match find_profile(ps, name) {
        Some(i) => ps[i].is_skipped,
        None => false,
    }
}

// ---------------------------------------------------------------------------
// The application state
// ---------------------------------------------------------------------------

/// Most messages kept; beyond it the oldest hundred are dropped.
pub const MESSAGE_CAP: usize = 500;
/// How many of the oldest messages are dropped when the cap is exceeded.
pub const MESSAGE_DRAIN: usize = 100;
/// Most focus traces kept.
pub const TRACE_CAP: usize = 100;

/// The messages kept after storing `m`: past the cap the oldest hundred are dropped.
pub open spec fn messages_after(msgs: Seq<StoredMessage>, m: StoredMessage) -> Seq<StoredMessage> {
    if msgs.len() + 1 > MESSAGE_CAP {
        msgs.push(m).skip(MESSAGE_DRAIN as int)
    } else {
        msgs.push(m)
    }
}

/// The traces kept after recording `e`: at the cap the oldest is dropped first.
pub open spec fn traces_after(ts: Seq<TraceEntry>, e: TraceEntry) -> Seq<TraceEntry> {
    if ts.len() >= TRACE_CAP {
        ts.drop_first().push(e)
    } else {
        ts.push(e)
    }
}

/// The bindings after binding `b.action` as `b`: the first binding of that
/// action is replaced, or `b` is appended when there is none.
pub open spec fn hotkeys_after_set(hs: Seq<HotkeyBinding>, b: BindingView) -> Seq<BindingView> {
    match binding_index(hs, b.action) {
        Some(i) => bindings_view(hs).update(i, b),
        None => bindings_view(hs).push(b),
    }
}

pub struct AppState {
    pub autoswitch_enabled: bool,
    pub group_invite_enabled: bool,
    pub trade_enabled: bool,
    pub pm_enabled: bool,
    pub auto_accept_enabled: bool,
    pub show_debug: bool,
    /// The radial account selector is on screen.
    pub radial_open: bool,
    /// The foreground window last seen by the focus synchronisation.
    pub last_foreground_id: u64,
    /// The user's profiles, in the user's order.
    pub profiles: Vec<AccountProfile>,
    /// The open game windows, in profile order.
    pub accounts: Vec<GameWindow>,
    /// Position of the current account in `accounts`.
    pub current_index: usize,
    pub messages: Vec<StoredMessage>,
    pub hotkeys: Vec<HotkeyBinding>,
    pub language: String,
    pub traces: Vec<TraceEntry>,
    /// How notifications are being detected (`event`, `poll`, …).
    pub notif_mode: String,
    pub theme: String,
    pub update_check_consent: Option<bool>,
    pub close_to_tray: bool,
    pub close_behavior_prompted: bool,
    pub last_tray_snapshot: Option<TraySnapshot>,
    pub listener_healthy: bool,
    pub listener_restart_count: u32,
    pub taskbar_ungroup_enabled: bool,
    /// Incremented whenever the account list or order changes.
    pub taskbar_order_version: u64,
    /// The version at which the taskbar order was last applied.
    pub taskbar_order_version_applied: u64,
}

/// `base` with each default binding whose action it lacks appended.
pub open spec fn merge_defaults(base: Seq<BindingView>, defaults: Seq<BindingView>) -> Seq<BindingView>
    decreases defaults.len(),
{
    if defaults.len() == 0 {
        base
    } else {
        let m = merge_defaults(base, defaults.drop_last());
        if exists|i: int| 0 <= i < m.len() && (#[trigger] m[i]).action == defaults.last().action {
            m
        } else {
            m.push(defaults.last())
        }
    }
}

/// The bindings a state starts with from saved bindings `saved`.
pub open spec fn initial_bindings(saved: Seq<BindingView>) -> Seq<BindingView> {
    merge_defaults(if saved.len() == 0 { default_bindings() } else { saved }, default_bindings())
}

/// The account view of the `i`-th open account.
pub open spec fn view_of(s: AppState, i: int) -> AccountView {
    let w = s.accounts@[i];
    let pi = profile_index(s.profiles@, w.character_name@);
    AccountView {
        character_name: w.character_name,
        window_id: w.window_id,
        pid: w.pid,
        title: w.title,
        color: match pi {
            Some(k) => s.profiles@[k].color,
            None => None,
        },
        icon_path: match pi {
            Some(k) => s.profiles@[k].icon_path,
            None => None,
        },
        is_principal: match pi {
            Some(k) => s.profiles@[k].is_principal,
            None => false,
        },
        is_skipped: match pi {
            Some(k) => s.profiles@[k].is_skipped,
            None => false,
        },
        is_current: i == s.current_index,
        position: i as usize,
    }
}

/// The views of all open accounts, in order.
pub open spec fn account_views(s: AppState) -> Seq<AccountView> {
    Seq::new(s.accounts@.len(), |i: int| view_of(s, i))
}

impl AppState {
    /// The state a run starts with from saved preferences.
    pub fn from_prefs(prefs: Preferences) -> (r: AppState)
        ensures
            loaded_from(r, prefs),
    {
        let mut hotkeys = if prefs.hotkeys.len() == 0 {
            default_hotkeys()
        } else {
            prefs.hotkeys
        };
        let ghost base = bindings_view(hotkeys@);
        let defaults = default_hotkeys();
        let mut k: usize = 0;
        while k < defaults.len()
            invariant
                k <= defaults.len(),
                bindings_view(defaults@) == default_bindings(),
                bindings_view(hotkeys@) == merge_defaults(base, default_bindings().take(k as int)),
            decreases defaults.len() - k,
        {
            assert(default_bindings().take(k + 1).drop_last() =~= default_bindings().take(k as int));
            let ghost m = bindings_view(hotkeys@);
            let found = find_binding(&hotkeys, defaults[k].action.as_str());
            proof {
                lemma_first_index(hotkeys@.len() as int, binding_for(hotkeys@, defaults@[k as int].action@));
                assert(default_bindings().take(k + 1).last() == defaults@[k as int]@);
                if found is Some {
                    let i = found->0 as int;
                    assert(m[i].action == default_bindings().take(k + 1).last().action);
                } else {
                    assert forall|i: int| 0 <= i < m.len() implies (#[trigger] m[i]).action != default_bindings().take(k + 1).last().action by {
                        assert(!binding_for(hotkeys@, defaults@[k as int].action@)(i));
                    }
                }
            }
            if found.is_none() {
                hotkeys.push(defaults[k].clone());
                assert(bindings_view(hotkeys@) =~= m.push(defaults@[k as int]@));
            }
            k += 1;
        }
        assert(default_bindings().take(4) =~= default_bindings());
        AppState {
            autoswitch_enabled: prefs.autoswitch_enabled,
            group_invite_enabled: prefs.group_invite_enabled,
            trade_enabled: prefs.trade_enabled,
            pm_enabled: prefs.pm_enabled,
            auto_accept_enabled: prefs.auto_accept_enabled,
            show_debug: prefs.show_debug,
            radial_open: false,
            last_foreground_id: 0,
            profiles: prefs.profiles,
            accounts: Vec::new(),
            current_index: 0,
            messages: Vec::new(),
            hotkeys,
            language: prefs.language,
            traces: Vec::new(),
            notif_mode: String::from_str("unknown"),
            theme: prefs.theme,
            update_check_consent: prefs.update_check_consent,
            close_to_tray: prefs.close_to_tray,
            close_behavior_prompted: prefs.close_behavior_prompted,
            last_tray_snapshot: None,
            listener_healthy: false,
            listener_restart_count: 0,
            taskbar_ungroup_enabled: prefs.taskbar_ungroup_enabled,
            taskbar_order_version: 0,
            taskbar_order_version_applied: u64::MAX,
        }
    }

    /// The preferences to save: the current toggles, profiles, bindings and display settings.
    pub fn snapshot_prefs(&self) -> (r: Preferences)
        ensures
            saved_from(r, *self),
    {
        let profiles = self.profiles.clone();
        let hotkeys = self.hotkeys.clone();
        assert(profiles@ =~= self.profiles@);
        assert(hotkeys@ =~= self.hotkeys@);
        Preferences {
            autoswitch_enabled: self.autoswitch_enabled,
            group_invite_enabled: self.group_invite_enabled,
            trade_enabled: self.trade_enabled,
            pm_enabled: self.pm_enabled,
            auto_accept_enabled: self.auto_accept_enabled,
            show_debug: self.show_debug,
            profiles,
            hotkeys,
            language: self.language.clone(),
            theme: self.theme.clone(),
            update_check_consent: self.update_check_consent,
            close_to_tray: self.close_to_tray,
            close_behavior_prompted: self.close_behavior_prompted,
            taskbar_ungroup_enabled: self.taskbar_ungroup_enabled,
        }
    }
}

impl AppState {
    pub fn is_autoswitch_enabled(&self) -> (r: bool)
        ensures
            r == self.autoswitch_enabled,
    {
        self.autoswitch_enabled
    }

    pub fn set_autoswitch(&mut self, enabled: bool)
        ensures
            *final(self) == (AppState { autoswitch_enabled: enabled, ..*old(self) }),
    {
        self.autoswitch_enabled = enabled;
    }

    pub fn is_group_invite_enabled(&self) -> (r: bool)
        ensures
            r == self.group_invite_enabled,
    {
        self.group_invite_enabled
    }

    pub fn set_group_invite(&mut self, enabled: bool)
        ensures
            *final(self) == (AppState { group_invite_enabled: enabled, ..*old(self) }),
    {
        self.group_invite_enabled = enabled;
    }

    pub fn is_trade_enabled(&self) -> (r: bool)
        ensures
            r == self.trade_enabled,
    {
        self.trade_enabled
    }

    pub fn set_trade(&mut self, enabled: bool)
        ensures
            *final(self) == (AppState { trade_enabled: enabled, ..*old(self) }),
    {
        self.trade_enabled = enabled;
    }

    pub fn is_pm_enabled(&self) -> (r: bool)
        ensures
            r == self.pm_enabled,
    {
        self.pm_enabled
    }

    pub fn set_pm(&mut self, enabled: bool)
        ensures
            *final(self) == (AppState { pm_enabled: enabled, ..*old(self) }),
    {
        self.pm_enabled = enabled;
    }

    pub fn is_auto_accept_enabled(&self) -> (r: bool)
        ensures
            r == self.auto_accept_enabled,
    {
        self.auto_accept_enabled
    }

    pub fn set_auto_accept(&mut self, enabled: bool)
        ensures
            *final(self) == (AppState { auto_accept_enabled: enabled, ..*old(self) }),
    {
        self.auto_accept_enabled = enabled;
    }

    pub fn is_show_debug(&self) -> (r: bool)
        ensures
            r == self.show_debug,
    {
        self.show_debug
    }

    pub fn set_show_debug(&mut self, enabled: bool)
        ensures
            *final(self) == (AppState { show_debug: enabled, ..*old(self) }),
    {
        self.show_debug = enabled;
    }

    pub fn get_hotkeys(&self) -> (r: Vec<HotkeyBinding>)
        ensures
            r@ == self.hotkeys@,
    {
        let r = self.hotkeys.clone();
        assert(r@ =~= self.hotkeys@);
        r
    }

    pub fn reset_hotkeys(&mut self)
        ensures
            bindings_view(final(self).hotkeys@) == default_bindings(),
            *final(self) == (AppState { hotkeys: final(self).hotkeys, ..*old(self) }),
    {
        self.hotkeys = default_hotkeys();
    }

    /// Binds `action` to `key` with the given modifiers: the first binding of
    /// `action` is updated, or a new binding is appended.
    pub fn set_hotkey(&mut self, action: &str, key: String, cmd: bool, alt: bool, shift: bool, ctrl: bool)
        ensures
            bindings_view(final(self).hotkeys@) == hotkeys_after_set(
                old(self).hotkeys@,
                BindingView { action: action@, key: key@, cmd, alt, shift, ctrl },
            ),
            *final(self) == (AppState { hotkeys: final(self).hotkeys, ..*old(self) }),
    {
        match find_binding(&self.hotkeys, action) {
            Some(i) => {
                let ghost before = self.hotkeys@;
                proof {
                    lemma_first_index(before.len() as int, binding_for(before, action@));
                }
                let old_action = self.hotkeys[i].action.clone();
                self.hotkeys.set(i, HotkeyBinding { action: old_action, key, cmd, alt, shift, ctrl });
                assert(bindings_view(self.hotkeys@) =~= bindings_view(before).update(
                    i as int,
                    BindingView { action: before[i as int].action@, key: key@, cmd, alt, shift, ctrl },
                ));
            },
            None => {
                let ghost before = self.hotkeys@;
                self.hotkeys.push(HotkeyBinding { action: String::from_str(action), key, cmd, alt, shift, ctrl });
                assert(bindings_view(self.hotkeys@) =~= bindings_view(before).push(
                    BindingView { action: action@, key: key@, cmd, alt, shift, ctrl },
                ));
            },
        }
    }

    pub fn get_language(&self) -> (r: String)
        ensures
            r == self.language,
    {
        self.language.clone()
    }

    pub fn set_language(&mut self, lang: String)
        ensures
            *final(self) == (AppState { language: lang, ..*old(self) }),
    {
        self.language = lang;
    }

    pub fn get_theme(&self) -> (r: String)
        ensures
            r == self.theme,
    {
        self.theme.clone()
    }

    pub fn set_theme(&mut self, theme: String)
        ensures
            *final(self) == (AppState { theme: theme, ..*old(self) }),
    {
        self.theme = theme;
    }

    pub fn account_count(&self) -> (r: usize)
        ensures
            r == self.accounts@.len(),
    {
        self.accounts.len()
    }

    pub fn get_accounts(&self) -> (r: Vec<GameWindow>)
        ensures
            r@ == self.accounts@,
    {
        let r = self.accounts.clone();
        assert(r@ =~= self.accounts@);
        r
    }

    pub fn get_profiles(&self) -> (r: Vec<AccountProfile>)
        ensures
            r@ == self.profiles@,
    {
        let r = self.profiles.clone();
        assert(r@ =~= self.profiles@);
        r
    }

    /// Stores a private message; past the cap the oldest hundred are dropped.
    pub fn add_message(&mut self, msg: StoredMessage)
        ensures
            final(self).messages@ == messages_after(old(self).messages@, msg),
            *final(self) == (AppState { messages: final(self).messages, ..*old(self) }),
    {
        let ghost pushed = self.messages@.push(msg);
        self.messages.push(msg);
        if self.messages.len() > MESSAGE_CAP {
            let mut kept: Vec<StoredMessage> = Vec::new();
            let mut i: usize = MESSAGE_DRAIN;
            let n = self.messages.len();
            while i < n
                invariant
                    MESSAGE_DRAIN <= i <= n,
                    n == self.messages@.len(),
                    self.messages@ == pushed,
                    kept@ == pushed.subrange(MESSAGE_DRAIN as int, i as int),
                decreases n - i,
            {
                kept.push(self.messages[i].clone());
                assert(pushed.subrange(MESSAGE_DRAIN as int, i + 1) =~= pushed.subrange(MESSAGE_DRAIN as int, i as int).push(pushed[i as int]));
                i += 1;
            }
            self.messages = kept;
        }
    }

    pub fn get_messages(&self) -> (r: Vec<StoredMessage>)
        ensures
            r@ == self.messages@,
    {
        let r = self.messages.clone();
        assert(r@ =~= self.messages@);
        r
    }

    pub fn clear_messages(&mut self)
        ensures
            final(self).messages@.len() == 0,
            *final(self) == (AppState { messages: final(self).messages, ..*old(self) }),
    {
        self.messages = Vec::new();
    }

    /// Records a trace; at the cap the oldest is dropped first.
    pub fn add_trace(&mut self, entry: TraceEntry)
        ensures
            final(self).traces@ == traces_after(old(self).traces@, entry),
            *final(self) == (AppState { traces: final(self).traces, ..*old(self) }),
    {
        if self.traces.len() >= TRACE_CAP {
            self.traces.remove(0);
        }
        self.traces.push(entry);
    }

    pub fn get_traces(&self) -> (r: Vec<TraceEntry>)
        ensures
            r@ == self.traces@,
    {
        let r = self.traces.clone();
        assert(r@ =~= self.traces@);
        r
    }

    pub fn clear_traces(&mut self)
        ensures
            final(self).traces@.len() == 0,
            *final(self) == (AppState { traces: final(self).traces, ..*old(self) }),
    {
        self.traces = Vec::new();
    }

    pub fn set_notif_mode(&mut self, mode: String)
        ensures
            *final(self) == (AppState { notif_mode: mode, ..*old(self) }),
    {
        self.notif_mode = mode;
    }

    pub fn get_notif_mode(&self) -> (r: String)
        ensures
            r == self.notif_mode,
    {
        self.notif_mode.clone()
    }

    pub fn set_listener_healthy(&mut self, healthy: bool)
        ensures
            *final(self) == (AppState { listener_healthy: healthy, ..*old(self) }),
    {
        self.listener_healthy = healthy;
    }

    /// Counts one restart of the notification listener (saturating).
    pub fn increment_listener_restart_count(&mut self)
        ensures
            final(self).listener_restart_count == if old(self).listener_restart_count == u32::MAX {
                u32::MAX
            } else {
                (old(self).listener_restart_count + 1) as u32
            },
            *final(self) == (AppState { listener_restart_count: final(self).listener_restart_count, ..*old(self) }),
    {
        self.listener_restart_count = self.listener_restart_count.saturating_add(1);
    }

    /// Whether the listener is healthy, how often it restarted, and its mode.
    pub fn get_listener_health_snapshot(&self) -> (r: (bool, u32, String))
        ensures
            r == (self.listener_healthy, self.listener_restart_count, self.notif_mode),
    {
        (self.listener_healthy, self.listener_restart_count, self.notif_mode.clone())
    }

    pub fn get_update_consent(&self) -> (r: Option<bool>)
        ensures
            r == self.update_check_consent,
    {
        self.update_check_consent
    }

    pub fn set_update_consent(&mut self, consent: bool)
        ensures
            *final(self) == (AppState { update_check_consent: Some(consent), ..*old(self) }),
    {
        self.update_check_consent = Some(consent);
    }

    pub fn is_close_to_tray(&self) -> (r: bool)
        ensures
            r == self.close_to_tray,
    {
        self.close_to_tray
    }

    pub fn set_close_to_tray(&mut self, enabled: bool)
        ensures
            *final(self) == (AppState { close_to_tray: enabled, ..*old(self) }),
    {
        self.close_to_tray = enabled;
    }

    pub fn is_close_behavior_prompted(&self) -> (r: bool)
        ensures
            r == self.close_behavior_prompted,
    {
        self.close_behavior_prompted
    }

    pub fn set_close_behavior_prompted(&mut self, value: bool)
        ensures
            *final(self) == (AppState { close_behavior_prompted: value, ..*old(self) }),
    {
        self.close_behavior_prompted = value;
    }

    pub fn is_taskbar_ungroup_enabled(&self) -> (r: bool)
        ensures
            r == self.taskbar_ungroup_enabled,
    {
        self.taskbar_ungroup_enabled
    }

    pub fn set_taskbar_ungroup(&mut self, enabled: bool)
        ensures
            *final(self) == (AppState { taskbar_ungroup_enabled: enabled, ..*old(self) }),
    {
        self.taskbar_ungroup_enabled = enabled;
    }

    /// Whether the taskbar order changed since it was last applied; it counts
    /// as applied from now on.
    pub fn take_taskbar_reorder(&mut self) -> (r: bool)
        ensures
            r == (old(self).taskbar_order_version != old(self).taskbar_order_version_applied),
            *final(self) == (AppState {
                taskbar_order_version_applied: old(self).taskbar_order_version,
                ..*old(self)
            }),
    {
        let due = self.taskbar_order_version != self.taskbar_order_version_applied;
        self.mark_taskbar_applied();
        due
    }

    /// The current taskbar order counts as applied.
    pub fn mark_taskbar_applied(&mut self)
        ensures
            *final(self) == (AppState {
                taskbar_order_version_applied: old(self).taskbar_order_version,
                ..*old(self)
            }),
    {
        self.taskbar_order_version_applied = self.taskbar_order_version;
    }

    /// Records the tray contents; true when they differ from the last recorded.
    pub fn tray_snapshot_changed(&mut self, snapshot: TraySnapshot) -> (r: bool)
        ensures
            r == match old(self).last_tray_snapshot {
                Some(last) => !(last.is_active == snapshot.is_active && last.count == snapshot.count
                    && last.lang@ == snapshot.lang@),
                None => true,
            },
            final(self).last_tray_snapshot == if r { Some(snapshot) } else { old(self).last_tray_snapshot },
            *final(self) == (AppState { last_tray_snapshot: final(self).last_tray_snapshot, ..*old(self) }),
    {
        let same = match &self.last_tray_snapshot {
            Some(last) => *last == snapshot,
            None => false,
        };
        if same {
            return false;
        }
        self.last_tray_snapshot = Some(snapshot);
        true
    }
}

// ---------------------------------------------------------------------------
// Accounts: detection, views, principal, skipped, current
// ---------------------------------------------------------------------------

/// A fresh profile for a newly detected window.
pub open spec fn profile_for(w: GameWindow) -> AccountProfile {
    AccountProfile {
        character_name: w.character_name,
        color: None,
        icon_path: None,
        is_principal: false,
        is_skipped: false,
    }
}

/// `ps` with a fresh profile appended for each window whose character has none yet.
pub open spec fn add_profiles(ps: Seq<AccountProfile>, ws: Seq<GameWindow>) -> Seq<AccountProfile>
    decreases ws.len(),
{
    if ws.len() == 0 {
        ps
    } else {
        let q = add_profiles(ps, ws.drop_last());
        if has_profile(q, ws.last().character_name@) {
            q
        } else {
            q.push(profile_for(ws.last()))
        }
    }
}

/// For each profile in order, the first window of its character, if open.
pub open spec fn open_accounts(ps: Seq<AccountProfile>, ws: Seq<GameWindow>) -> Seq<GameWindow>
    decreases ps.len(),
{
    if ps.len() == 0 {
        Seq::empty()
    } else {
        let rest = open_accounts(ps.drop_last(), ws);
        match window_index(ws, ps.last().character_name@) {
            Some(i) => rest.push(ws[i]),
            None => rest,
        }
    }
}

/// `ps` with the first profile made principal when none is.
pub open spec fn with_principal(ps: Seq<AccountProfile>) -> Seq<AccountProfile> {
    if ps.len() > 0 && !(exists|i: int| 0 <= i < ps.len() && (#[trigger] ps[i]).is_principal) {
        ps.update(0, AccountProfile { is_principal: true, ..ps[0] })
    } else {
        ps
    }
}

/// The ids of the windows in `ws`.
pub open spec fn window_ids(ws: Seq<GameWindow>) -> Set<u64> {
    Set::new(|id: u64| exists|i: int| 0 <= i < ws.len() && (#[trigger] ws[i]).window_id == id)
}

/// `v + 1`, wrapping to 0 past the maximum.
pub open spec fn bump(v: u64) -> u64 {
    if v == u64::MAX {
        0
    } else {
        (v + 1) as u64
    }
}

/// Some window of `ws` has id `id`.
pub fn contains_id(ws: &Vec<GameWindow>, id: u64) -> (r: bool)
    ensures
        r == window_ids(ws@).contains(id),
{
    let mut i: usize = 0;
    while i < ws.len()
        invariant
            i <= ws.len(),
            forall|j: int| 0 <= j < i ==> (#[trigger] ws@[j]).window_id != id,
        decreases ws.len() - i,
    {
        if ws[i].window_id == id {
            return true;
        }
        i += 1;
    }
    false
}

/// `a` and `b` hold windows with the same ids.
pub fn same_ids(a: &Vec<GameWindow>, b: &Vec<GameWindow>) -> (r: bool)
    ensures
        r == (window_ids(a@) == window_ids(b@)),
{
    let mut i: usize = 0;
    while i < a.len()
        invariant
            i <= a.len(),
            forall|j: int| 0 <= j < i ==> window_ids(b@).contains(#[trigger] a@[j].window_id),
        decreases a.len() - i,
    {
        if !contains_id(b, a[i].window_id) {
            assert(window_ids(a@).contains(a@[i as int].window_id));
            return false;
        }
        i += 1;
    }
    let mut k: usize = 0;
    while k < b.len()
        invariant
            k <= b.len(),
            forall|j: int| 0 <= j < a@.len() ==> window_ids(b@).contains(#[trigger] a@[j].window_id),
            forall|j: int| 0 <= j < k ==> window_ids(a@).contains(#[trigger] b@[j].window_id),
        decreases b.len() - k,
    {
        if !contains_id(a, b[k].window_id) {
            assert(window_ids(b@).contains(b@[k as int].window_id));
            return false;
        }
        k += 1;
    }
    assert(window_ids(a@) =~= window_ids(b@));
    true
}

/// For each profile in order, the first window of its character, if any.
pub fn accounts_in_profile_order(ps: &Vec<AccountProfile>, ws: &[GameWindow]) -> (r: Vec<GameWindow>)
    ensures
        r@ == open_accounts(ps@, ws@),
{
    let mut out: Vec<GameWindow> = Vec::new();
    let mut k: usize = 0;
    while k < ps.len()
        invariant
            k <= ps.len(),
            out@ == open_accounts(ps@.take(k as int), ws@),
        decreases ps.len() - k,
    {
        assert(ps@.take(k + 1).drop_last() =~= ps@.take(k as int));
        match find_window(ws, ps[k].character_name.as_str()) {
            Some(j) => {
                out.push(ws[j].clone());
            },
            None => {},
        }
        k += 1;
    }
    assert(ps@.take(ps.len() as int) =~= ps@);
    out
}

/// The account view of the `i`-th open account.
pub fn account_view(s: &AppState, i: usize) -> (r: AccountView)
    requires
        i < s.accounts@.len(),
    ensures
        r == view_of(*s, i as int),
{
    let w = &s.accounts[i];
    let pi = find_profile(&s.profiles, w.character_name.as_str());
    let (color, icon_path, is_principal, is_skipped) = match pi {
        Some(k) => (
            clone_opt(&s.profiles[k].color),
            clone_opt(&s.profiles[k].icon_path),
            s.profiles[k].is_principal,
            s.profiles[k].is_skipped,
        ),
        None => (None, None, false, false),
    };
    AccountView {
        character_name: w.character_name.clone(),
        window_id: w.window_id,
        pid: w.pid,
        title: w.title.clone(),
        color,
        icon_path,
        is_principal,
        is_skipped,
        is_current: i == s.current_index,
        position: i,
    }
}

/// Appends a fresh profile for each window whose character has none yet;
/// returns whether any was appended.
pub fn add_new_profiles(ps: &mut Vec<AccountProfile>, windows: &[GameWindow]) -> (r: bool)
    ensures
        final(ps)@ == add_profiles(old(ps)@, windows@),
        r == (final(ps)@.len() > old(ps)@.len()),
{
    let ghost old_ps = ps@;
    let mut added = false;
    let mut i: usize = 0;
    while i < windows.len()
        invariant
            i <= windows.len(),
            ps@ == add_profiles(old_ps, windows@.take(i as int)),
            ps@.len() >= old_ps.len(),
            added == (ps@.len() > old_ps.len()),
        decreases windows.len() - i,
    {
        assert(windows@.take(i + 1).drop_last() =~= windows@.take(i as int));
        let w = &windows[i];
        if find_profile(ps, w.character_name.as_str()).is_none() {
            ps.push(
                AccountProfile {
                    character_name: w.character_name.clone(),
                    color: None,
                    icon_path: None,
                    is_principal: false,
                    is_skipped: false,
                },
            );
            added = true;
        }
        i += 1;
    }
    assert(windows@.take(windows.len() as int) =~= windows@);
    added
}

/// Makes the first profile principal when none is.
pub fn ensure_principal(ps: &mut Vec<AccountProfile>)
    ensures
        final(ps)@ == with_principal(old(ps)@),
{
    let mut any_principal = false;
    let mut k: usize = 0;
    while k < ps.len()
        invariant
            k <= ps.len(),
            any_principal == exists|j: int| 0 <= j < k && (#[trigger] ps@[j]).is_principal,
        decreases ps.len() - k,
    {
        if ps[k].is_principal {
            any_principal = true;
        }
        k += 1;
    }
    if ps.len() > 0 && !any_principal {
        let mut p = ps[0].clone();
        p.is_principal = true;
        ps.set(0, p);
    }
}

impl AppState {
    /// Takes the windows detected now: characters without a profile get one
    /// (appended in detection order), the open accounts become the detected
    /// windows in profile order, and the first profile becomes principal when
    /// none is. Returns whether profiles were added (they need saving).
    pub fn update_accounts(&mut self, windows: Vec<GameWindow>) -> (r: bool)
        ensures
            final(self).profiles@ == with_principal(add_profiles(old(self).profiles@, windows@)),
            final(self).accounts@ == open_accounts(add_profiles(old(self).profiles@, windows@), windows@),
            r == (add_profiles(old(self).profiles@, windows@).len() > old(self).profiles@.len()),
            final(self).taskbar_order_version == if window_ids(old(self).accounts@) == window_ids(
                final(self).accounts@,
            ) {
                old(self).taskbar_order_version
            } else {
                bump(old(self).taskbar_order_version)
            },
            *final(self) == (AppState {
                profiles: final(self).profiles,
                accounts: final(self).accounts,
                taskbar_order_version: final(self).taskbar_order_version,
                ..*old(self)
            }),
    {
        let added = add_new_profiles(&mut self.profiles, &windows);
        let accounts = accounts_in_profile_order(&self.profiles, &windows);
        ensure_principal(&mut self.profiles);
        if !same_ids(&self.accounts, &accounts) {
            self.taskbar_order_version = if self.taskbar_order_version == u64::MAX {
                0
            } else {
                self.taskbar_order_version + 1
            };
        }
        self.accounts = accounts;
        added
    }

    /// The open accounts as the user interface shows them.
    pub fn get_account_views(&self) -> (r: Vec<AccountView>)
        ensures
            r@ == account_views(*self),
    {
        let mut out: Vec<AccountView> = Vec::new();
        let mut i: usize = 0;
        while i < self.accounts.len()
            invariant
                i <= self.accounts.len(),
                out@ == account_views(*self).take(i as int),
            decreases self.accounts.len() - i,
        {
            out.push(account_view(self, i));
            assert(out@ =~= account_views(*self).take(i + 1));
            i += 1;
        }
        assert(out@ =~= account_views(*self));
        out
    }

    /// Some open account is for `name` (ASCII case ignored).
    pub fn has_account(&self, name: &str) -> (r: bool)
        ensures
            r == has_window(self.accounts@, name@),
    {
        find_window(&self.accounts, name).is_some()
    }

    /// Whether the profile for `name` is marked skipped.
    pub fn is_account_skipped(&self, name: &str) -> (r: bool)
        ensures
            r == skipped(self.profiles@, name@),
    {
        is_skipped_in(&self.profiles, name)
    }

    /// Makes the profiles for `name` principal and every other profile not.
    pub fn set_principal(&mut self, name: &str)
        ensures
            final(self).profiles@ == Seq::new(
                old(self).profiles@.len(),
                |i: int|
                    AccountProfile {
                        is_principal: eq_ic(old(self).profiles@[i].character_name@, name@),
                        ..old(self).profiles@[i]
                    },
            ),
            *final(self) == (AppState { profiles: final(self).profiles, ..*old(self) }),
    {
        let ghost ps = self.profiles@;
        let ghost s0 = *self;
        let mut i: usize = 0;
        while i < self.profiles.len()
            invariant
                *self == (AppState { profiles: self.profiles, ..s0 }),
                i <= self.profiles.len(),
                self.profiles@.len() == ps.len(),
                forall|j: int| 0 <= j < i ==> self.profiles@[j] == (AccountProfile {
                    is_principal: eq_ic(ps[j].character_name@, name@),
                    ..ps[j]
                }),
                forall|j: int| i <= j < ps.len() ==> self.profiles@[j] == ps[j],
            decreases self.profiles.len() - i,
        {
            let mut p = self.profiles[i].clone();
            p.is_principal = eq_ignore_ascii_case(p.character_name.as_str(), name);
            self.profiles.set(i, p);
            i += 1;
        }
        assert(self.profiles@ =~= Seq::new(
            ps.len(),
            |i: int| AccountProfile { is_principal: eq_ic(ps[i].character_name@, name@), ..ps[i] },
        ));
    }

    /// Marks the profile for `name` skipped or not.
    pub fn set_skipped(&mut self, name: &str, skipped: bool)
        ensures
            final(self).profiles@ == profiles_with_skipped(old(self).profiles@, name@, skipped),
            *final(self) == (AppState { profiles: final(self).profiles, ..*old(self) }),
    {
        match find_profile(&self.profiles, name) {
            Some(i) => {
                let mut p = self.profiles[i].clone();
                p.is_skipped = skipped;
                self.profiles.set(i, p);
            },
            None => {},
        }
    }

    /// Sets the colour and icon of the profile for `name`.
    pub fn update_profile(&mut self, name: &str, color: Option<String>, icon_path: Option<String>)
        ensures
            final(self).profiles@ == match profile_index(old(self).profiles@, name@) {
                Some(i) => old(self).profiles@.update(
                    i,
                    AccountProfile { color: color, icon_path: icon_path, ..old(self).profiles@[i] },
                ),
                None => old(self).profiles@,
            },
            *final(self) == (AppState { profiles: final(self).profiles, ..*old(self) }),
    {
        match find_profile(&self.profiles, name) {
            Some(i) => {
                let mut p = self.profiles[i].clone();
                p.color = color;
                p.icon_path = icon_path;
                self.profiles.set(i, p);
            },
            None => {},
        }
    }

    /// Makes the first open account for `name` the current one.
    pub fn set_current_by_name(&mut self, name: &str)
        ensures
            final(self).current_index == match window_index(old(self).accounts@, name@) {
                Some(i) => i as usize,
                None => old(self).current_index,
            },
            *final(self) == (AppState { current_index: final(self).current_index, ..*old(self) }),
    {
        match find_window(&self.accounts, name) {
            Some(i) => {
                self.current_index = i;
            },
            None => {},
        }
    }

    /// The current account's window, if the current position holds one.
    pub fn get_current_window(&self) -> (r: Option<GameWindow>)
        ensures
            r == if self.current_index < self.accounts@.len() {
                Some(self.accounts@[self.current_index as int])
            } else {
                None::<GameWindow>
            },
    {
        if self.accounts.len() == 0 {
            return None;
        }
        if self.current_index < self.accounts.len() {
            Some(self.accounts[self.current_index].clone())
        } else {
            None
        }
    }

    /// Makes the first open account with window `window_id` the current one.
    pub fn sync_current_from_window_id(&mut self, window_id: u64)
        ensures
            final(self).current_index == match window_id_index(old(self).accounts@, window_id) {
                Some(i) => i as usize,
                None => old(self).current_index,
            },
            *final(self) == (AppState { current_index: final(self).current_index, ..*old(self) }),
    {
        match find_window_id(&self.accounts, window_id) {
            Some(i) => {
                self.current_index = i;
            },
            None => {},
        }
    }
}

// ---------------------------------------------------------------------------
// Ordering, principal, cycling, focus synchronisation
// ---------------------------------------------------------------------------

/// Some profile for `name` is marked skipped.
pub open spec fn any_skipped(ps: Seq<AccountProfile>, name: Seq<char>) -> bool {
    exists|i: int| 0 <= i < ps.len() && eq_ic(#[trigger] ps[i].character_name@, name) && ps[i].is_skipped
}

/// The windows of `ws` for which `any_skipped` is `want`, in order.
pub open spec fn windows_where_skipped(ps: Seq<AccountProfile>, ws: Seq<GameWindow>, want: bool) -> Seq<GameWindow>
    decreases ws.len(),
{
    if ws.len() == 0 {
        Seq::empty()
    } else {
        let rest = windows_where_skipped(ps, ws.drop_last(), want);
        if any_skipped(ps, ws.last().character_name@) == want {
            rest.push(ws.last())
        } else {
            rest
        }
    }
}

/// Whether some profile for `name` is marked skipped.
pub fn any_skipped_exec(ps: &Vec<AccountProfile>, name: &str) -> (r: bool)
    ensures
        r == any_skipped(ps@, name@),
{
    let mut i: usize = 0;
    while i < ps.len()
        invariant
            i <= ps.len(),
            forall|j: int| 0 <= j < i ==> !(eq_ic(#[trigger] ps@[j].character_name@, name@) && ps@[j].is_skipped),
        decreases ps.len() - i,
    {
        if ps[i].is_skipped && eq_ignore_ascii_case(ps[i].character_name.as_str(), name) {
            return true;
        }
        i += 1;
    }
    false
}

pub open spec fn principal_pred(ps: Seq<AccountProfile>) -> spec_fn(int) -> bool {
    |i: int| ps[i].is_principal
}

/// The principal account: the open window of the first principal profile,
/// else the first open account.
pub open spec fn principal_window(ps: Seq<AccountProfile>, ws: Seq<GameWindow>) -> Option<GameWindow> {
    let via = match first_index(ps.len() as int, principal_pred(ps)) {
        Some(k) => match window_index(ws, ps[k].character_name@) {
            Some(j) => Some(ws[j]),
            None => None,
        },
        None => None,
    };
    match via {
        Some(w) => Some(w),
        None => if ws.len() > 0 {
            Some(ws[0])
        } else {
            None
        },
    }
}

/// The offsets `k` (for offset `k + 1`) whose account after the current one is not skipped.
pub open spec fn next_pred(s: AppState) -> spec_fn(int) -> bool {
    |k: int|
        !skipped(
            s.profiles@,
            s.accounts@[(s.current_index + k + 1) % (s.accounts@.len() as int)].character_name@,
        )
}

/// The offsets `k` (for offset `k + 1`) whose account before the current one is not skipped.
pub open spec fn prev_pred(s: AppState) -> spec_fn(int) -> bool {
    |k: int|
        !skipped(
            s.profiles@,
            s.accounts@[(s.current_index + s.accounts@.len() - (k + 1)) % (s.accounts@.len() as int)].character_name@,
        )
}

/// Where `cycle_next` moves: the first non-skipped account after the current
/// one, cyclically; the next account when all are skipped.
pub open spec fn cycle_next_index(s: AppState) -> int {
    let n = s.accounts@.len() as int;
    match first_index(n, next_pred(s)) {
        Some(k) => (s.current_index + k + 1) % n,
        None => (s.current_index + 1) % n,
    }
}

/// Where `cycle_prev` moves: the first non-skipped account before the current
/// one, cyclically; the previous position when all are skipped.
pub open spec fn cycle_prev_index(s: AppState) -> int {
    let n = s.accounts@.len() as int;
    match first_index(n, prev_pred(s)) {
        Some(k) => (s.current_index + n - (k + 1)) % n,
        None => if s.current_index == 0 {
            n - 1
        } else {
            s.current_index - 1
        },
    }
}

/// Moving back is defined in `s`: when every open account is skipped, the
/// current position must not lie past the accounts (moving back from it would
/// leave them).
pub open spec fn prev_defined(s: AppState) -> bool {
    s.accounts@.len() > 0 && first_index(s.accounts@.len() as int, prev_pred(s)) is None
        ==> s.current_index <= s.accounts@.len()
}

/// The names of the profiles, in order, that are not skipped and have an open account.
pub open spec fn open_names(ps: Seq<AccountProfile>, accs: Seq<GameWindow>) -> Seq<Seq<char>>
    decreases ps.len(),
{
    if ps.len() == 0 {
        Seq::empty()
    } else {
        let rest = open_names(ps.drop_last(), accs);
        let p = ps.last();
        if !p.is_skipped && has_window(accs, p.character_name@) {
            rest.push(p.character_name@)
        } else {
            rest
        }
    }
}

/// Where the moved profile is inserted in the remaining profiles `rem` when
/// dropped at visual position `pos` among the non-skipped open accounts.
pub open spec fn reorder_target(rem: Seq<AccountProfile>, accs: Seq<GameWindow>, pos: int) -> Option<int> {
    let open = open_names(rem, accs);
    if pos >= open.len() {
        Some(rem.len() as int)
    } else {
        profile_index(rem, open[pos])
    }
}

/// The profiles after moving the profile for `name` to visual position `pos`.
pub open spec fn reordered(ps: Seq<AccountProfile>, accs: Seq<GameWindow>, name: Seq<char>, pos: int) -> Option<Seq<AccountProfile>> {
    match profile_index(ps, name) {
        None => None,
        Some(src) => {
            let rem = ps.remove(src);
            match reorder_target(rem, accs, pos) {
                Some(ins) => Some(rem.insert(ins, ps[src])),
                None => None,
            }
        },
    }
}

/// The windows to tile: for each non-skipped open account in order, the first
/// live window of its character.
pub open spec fn layout_windows_spec(ps: Seq<AccountProfile>, accs: Seq<GameWindow>, live: Seq<GameWindow>) -> Seq<GameWindow>
    decreases accs.len(),
{
    if accs.len() == 0 {
        Seq::empty()
    } else {
        let rest = layout_windows_spec(ps, accs.drop_last(), live);
        let a = accs.last();
        if skipped(ps, a.character_name@) {
            rest
        } else {
            match window_index(live, a.character_name@) {
                Some(j) => rest.push(live[j]),
                None => rest,
            }
        }
    }
}

fn windows_where_skipped_exec(ps: &Vec<AccountProfile>, ws: &Vec<GameWindow>, want: bool) -> (r: Vec<GameWindow>)
    ensures
        r@ == windows_where_skipped(ps@, ws@, want),
{
    let mut out: Vec<GameWindow> = Vec::new();
    let mut i: usize = 0;
    while i < ws.len()
        invariant
            i <= ws.len(),
            out@ == windows_where_skipped(ps@, ws@.take(i as int), want),
        decreases ws.len() - i,
    {
        assert(ws@.take(i + 1).drop_last() =~= ws@.take(i as int));
        if any_skipped_exec(ps, ws[i].character_name.as_str()) == want {
            out.push(ws[i].clone());
        }
        i += 1;
    }
    assert(ws@.take(ws.len() as int) =~= ws@);
    out
}

fn open_names_exec(ps: &Vec<AccountProfile>, accs: &Vec<GameWindow>) -> (r: Vec<String>)
    ensures
        r@.map_values(|x: String| x@) == open_names(ps@, accs@),
{
    let mut out: Vec<String> = Vec::new();
    let mut i: usize = 0;
    while i < ps.len()
        invariant
            i <= ps.len(),
            out@.map_values(|x: String| x@) == open_names(ps@.take(i as int), accs@),
        decreases ps.len() - i,
    {
        assert(ps@.take(i + 1).drop_last() =~= ps@.take(i as int));
        if !ps[i].is_skipped && find_window(accs, ps[i].character_name.as_str()).is_some() {
            let ghost before = out@.map_values(|x: String| x@);
            out.push(ps[i].character_name.clone());
            assert(out@.map_values(|x: String| x@) =~= before.push(ps@[i as int].character_name@));
        }
        i += 1;
    }
    assert(ps@.take(ps.len() as int) =~= ps@);
    out
}

/// `(base + offset) % n` for `base < n` and `offset <= n`, without overflow.
fn wrap_add(base: usize, offset: usize, n: usize) -> (r: usize)
    requires
        base < n,
        offset <= n,
    ensures
        r == (base + offset) % (n as int),
{
    if offset >= n - base {
        proof {
            vstd::arithmetic::div_mod::lemma_mod_multiples_vanish(1, base + offset - n, n as int);
            vstd::arithmetic::div_mod::lemma_small_mod((base + offset - n) as nat, n as nat);
        }
        offset - (n - base)
    } else {
        proof {
            vstd::arithmetic::div_mod::lemma_small_mod((base + offset) as nat, n as nat);
        }
        base + offset
    }
}

/// Adding to a residue is adding to the value it stands for.
proof fn lemma_wrap_add(idx: int, offset: int, n: int)
    requires
        n > 0,
    ensures
        ((idx % n) + offset) % n == (idx + offset) % n,
        0 <= idx % n < n,
{
    vstd::arithmetic::div_mod::lemma_mod_bound(idx, n);
    vstd::arithmetic::div_mod::lemma_fundamental_div_mod(idx, n);
    let q = idx / n;
    assert((idx % n) + offset == n * (-q) + (idx + offset)) by (nonlinear_arith)
        requires
            idx == n * q + idx % n,
    ;
    vstd::arithmetic::div_mod::lemma_mod_multiples_vanish(-q, idx + offset, n);
}

/// The first principal profile.
pub fn find_principal(ps: &Vec<AccountProfile>) -> (r: Option<usize>)
    ensures
        opt_int(r) == first_index(ps@.len() as int, principal_pred(ps@)),
{
    let mut k: usize = 0;
    while k < ps.len()
        invariant
            k <= ps.len(),
            forall|j: int| 0 <= j < k ==> !#[trigger] principal_pred(ps@)(j),
        decreases ps.len() - k,
    {
        if ps[k].is_principal {
            proof {
                lemma_first_index_is(ps@.len() as int, principal_pred(ps@), k as int);
            }
            return Some(k);
        }
        k += 1;
    }
    proof {
        lemma_first_index(ps@.len() as int, principal_pred(ps@));
    }
    None
}

impl AppState {
    /// The open accounts, those not marked skipped first, then the skipped ones.
    pub fn active_then_skipped_windows(&self) -> (r: Vec<GameWindow>)
        ensures
            r@ == windows_where_skipped(self.profiles@, self.accounts@, false)
                + windows_where_skipped(self.profiles@, self.accounts@, true),
    {
        let mut active = windows_where_skipped_exec(&self.profiles, &self.accounts, false);
        let skipped_ws = windows_where_skipped_exec(&self.profiles, &self.accounts, true);
        let mut i: usize = 0;
        let ghost a0 = active@;
        while i < skipped_ws.len()
            invariant
                i <= skipped_ws.len(),
                active@ == a0 + skipped_ws@.take(i as int),
            decreases skipped_ws.len() - i,
        {
            active.push(skipped_ws[i].clone());
            assert(skipped_ws@.take(i + 1) =~= skipped_ws@.take(i as int).push(skipped_ws@[i as int]));
            i += 1;
        }
        assert(skipped_ws@.take(skipped_ws.len() as int) =~= skipped_ws@);
        active
    }

    /// The principal account's window.
    pub fn get_principal(&self) -> (r: Option<GameWindow>)
        ensures
            r == principal_window(self.profiles@, self.accounts@),
    {
        match find_principal(&self.profiles) {
            Some(k) => match find_window(&self.accounts, self.profiles[k].character_name.as_str()) {
                Some(j) => {
                    return Some(self.accounts[j].clone());
                },
                None => {},
            },
            None => {},
        }
        if self.accounts.len() > 0 {
            Some(self.accounts[0].clone())
        } else {
            None
        }
    }

    /// Moves to the next account that is not skipped (cyclically) and returns
    /// it; when all are skipped, to the next account.
    pub fn cycle_next(&mut self) -> (r: Option<GameWindow>)
        ensures
            old(self).accounts@.len() == 0 ==> r is None && *final(self) == *old(self),
            old(self).accounts@.len() > 0 ==> {
                &&& final(self).current_index == cycle_next_index(*old(self))
                &&& r == Some(old(self).accounts@[cycle_next_index(*old(self))])
                &&& *final(self) == (AppState { current_index: final(self).current_index, ..*old(self) })
            },
    {
        let len = self.accounts.len();
        if len == 0 {
            return None;
        }
        let idx = self.current_index;
        let base = idx % len;
        let ghost pred = next_pred(*self);
        let ghost s0 = *self;
        let mut k: usize = 0;
        while k < len
            invariant
                *self == s0,
                s0 == *old(self),
                k <= len,
                len == self.accounts@.len(),
                idx == self.current_index,
                base == idx % len,
                pred == next_pred(*self),
                forall|j: int| 0 <= j < k ==> !#[trigger] pred(j),
            decreases len - k,
        {
            let offset = k + 1;
            let candidate = wrap_add(base, offset, len);
            proof {
                lemma_wrap_add(idx as int, offset as int, len as int);
            }
            if !is_skipped_in(&self.profiles, self.accounts[candidate].character_name.as_str()) {
                proof {
                    lemma_first_index_is(len as int, pred, k as int);
                }
                self.current_index = candidate;
                return Some(self.accounts[candidate].clone());
            }
            k += 1;
        }
        proof {
            lemma_first_index(len as int, pred);
            lemma_wrap_add(idx as int, 1, len as int);
        }
        self.current_index = wrap_add(base, 1, len);
        Some(self.accounts[self.current_index].clone())
    }

    /// Moves to the previous account that is not skipped (cyclically) and
    /// returns it; when all are skipped, to the previous position.
    pub fn cycle_prev(&mut self) -> (r: Option<GameWindow>)
        requires
            prev_defined(*old(self)),
        ensures
            old(self).accounts@.len() == 0 ==> r is None && *final(self) == *old(self),
            old(self).accounts@.len() > 0 ==> {
                &&& final(self).current_index == cycle_prev_index(*old(self))
                &&& r == Some(old(self).accounts@[cycle_prev_index(*old(self))])
                &&& *final(self) == (AppState { current_index: final(self).current_index, ..*old(self) })
            },
    {
        let len = self.accounts.len();
        if len == 0 {
            return None;
        }
        let idx = self.current_index;
        let base = idx % len;
        let ghost pred = prev_pred(*self);
        let ghost s0 = *self;
        let mut k: usize = 0;
        while k < len
            invariant
                *self == s0,
                s0 == *old(self),
                k <= len,
                len == self.accounts@.len(),
                idx == self.current_index,
                base == idx % len,
                pred == prev_pred(*self),
                forall|j: int| 0 <= j < k ==> !#[trigger] pred(j),
            decreases len - k,
        {
            let offset = k + 1;
            let candidate = wrap_add(base, len - offset, len);
            proof {
                lemma_wrap_add(idx as int, (len - offset) as int, len as int);
                assert(idx + (len - offset) == idx + len - offset);
            }
            if !is_skipped_in(&self.profiles, self.accounts[candidate].character_name.as_str()) {
                proof {
                    lemma_first_index_is(len as int, pred, k as int);
                }
                self.current_index = candidate;
                return Some(self.accounts[candidate].clone());
            }
            k += 1;
        }
        proof {
            lemma_first_index(len as int, pred);
        }
        self.current_index = if idx == 0 {
            len - 1
        } else {
            idx - 1
        };
        Some(self.accounts[self.current_index].clone())
    }

    /// Whether moving back from position `idx` (in place of the current
    /// position) is defined.
    pub fn prev_defined_from(&self, idx: usize) -> (r: bool)
        ensures
            r == prev_defined(AppState { current_index: idx, ..*self }),
    {
        let len = self.accounts.len();
        if len == 0 || idx <= len {
            return true;
        }
        let ghost s1 = AppState { current_index: idx, ..*self };
        let ghost pred = prev_pred(s1);
        let base = idx % len;
        let mut k: usize = 0;
        while k < len
            invariant
                k <= len,
                len == self.accounts@.len(),
                len == s1.accounts@.len(),
                s1 == (AppState { current_index: idx, ..*self }),
                base == idx % len,
                pred == prev_pred(s1),
                forall|j: int| 0 <= j < k ==> !#[trigger] pred(j),
            decreases len - k,
        {
            let offset = k + 1;
            let candidate = wrap_add(base, len - offset, len);
            proof {
                lemma_wrap_add(idx as int, (len - offset) as int, len as int);
                assert(idx + (len - offset) == idx + len - offset);
            }
            if !is_skipped_in(&self.profiles, self.accounts[candidate].character_name.as_str()) {
                proof {
                    lemma_first_index_is(len as int, pred, k as int);
                }
                return true;
            }
            k += 1;
        }
        proof {
            lemma_first_index(len as int, pred);
        }
        false
    }

    /// Whether moving back from the current position is defined.
    pub fn can_cycle_prev(&self) -> (r: bool)
        ensures
            r == prev_defined(*self),
    {
        let r = self.prev_defined_from(self.current_index);
        assert((AppState { current_index: self.current_index, ..*self }) == *self);
        r
    }

    /// Moves the profile for `name` so that its account appears at visual
    /// position `new_position` among the non-skipped open accounts, and puts
    /// the open accounts back in profile order. False when `name` has no profile.
    pub fn reorder_account(&mut self, name: &str, new_position: usize) -> (r: bool)
        ensures
            match reordered(old(self).profiles@, old(self).accounts@, name@, new_position as int) {
                Some(ps) => {
                    &&& r
                    &&& final(self).profiles@ == ps
                    &&& final(self).accounts@ == open_accounts(ps, old(self).accounts@)
                    &&& final(self).taskbar_order_version == bump(old(self).taskbar_order_version)
                    &&& *final(self) == (AppState {
                        profiles: final(self).profiles,
                        accounts: final(self).accounts,
                        taskbar_order_version: final(self).taskbar_order_version,
                        ..*old(self)
                    })
                },
                None => !r && *final(self) == *old(self),
            },
    {
        let src = match find_profile(&self.profiles, name) {
            Some(i) => i,
            None => {
                return false;
            },
        };
        let ghost ps = self.profiles@;
        let mut rem = self.profiles.clone();
        assert(rem@ =~= ps);
        let profile = rem.remove(src);
        let open = open_names_exec(&rem, &self.accounts);
        let ins = if new_position >= open.len() {
            rem.len()
        } else {
            match find_profile(&rem, open[new_position].as_str()) {
                Some(i) => i,
                None => {
                    return false;
                },
            }
        };
        rem.insert(ins, profile);
        let accounts = accounts_in_profile_order(&rem, &self.accounts);
        self.profiles = rem;
        self.accounts = accounts;
        self.taskbar_order_version = if self.taskbar_order_version == u64::MAX {
            0
        } else {
            self.taskbar_order_version + 1
        };
        true
    }

    /// Follows the foreground window: when it is an open account other than the
    /// current one, that account becomes current and its name is returned.
    /// Nothing changes while the radial selector is open or for window 0, and
    /// nothing but the remembered foreground changes for any other window.
    pub fn sync_focus_from_foreground(&mut self, fg_id: u64) -> (r: Option<String>)
        ensures
            (*final(self), view_opt_string(r)) == synced_with_foreground(*old(self), fg_id),
    {
        if self.radial_open || fg_id == 0 || fg_id == self.last_foreground_id {
            return None;
        }
        self.last_foreground_id = fg_id;
        let i = match find_window_id(&self.accounts, fg_id) {
            Some(i) => i,
            None => {
                return None;
            },
        };
        if self.current_index < self.accounts.len() && self.accounts[self.current_index].window_id == fg_id {
            return None;
        }
        self.current_index = i;
        Some(self.accounts[i].character_name.clone())
    }

    /// The live windows to tile, in account order, skipping skipped accounts.
    pub fn layout_windows(&self, live: &[GameWindow]) -> (r: Vec<GameWindow>)
        ensures
            r@ == layout_windows_spec(self.profiles@, self.accounts@, live@),
    {
        let mut out: Vec<GameWindow> = Vec::new();
        let mut i: usize = 0;
        while i < self.accounts.len()
            invariant
                i <= self.accounts.len(),
                out@ == layout_windows_spec(self.profiles@, self.accounts@.take(i as int), live@),
            decreases self.accounts.len() - i,
        {
            assert(self.accounts@.take(i + 1).drop_last() =~= self.accounts@.take(i as int));
            let name = self.accounts[i].character_name.as_str();
            if !is_skipped_in(&self.profiles, name) {
                match find_window(live, name) {
                    Some(j) => {
                        out.push(live[j].clone());
                    },
                    None => {},
                }
            }
            i += 1;
        }
        assert(self.accounts@.take(self.accounts.len() as int) =~= self.accounts@);
        out
    }
}

/// The state after following foreground window `fg`, and the character that
/// became current, if any (see `sync_focus_from_foreground`).
pub open spec fn synced_with_foreground(s: AppState, fg: u64) -> (AppState, Option<Seq<char>>) {
    if s.radial_open || fg == 0 || fg == s.last_foreground_id {
        (s, None)
    } else {
        let accs = s.accounts@;
        let cur = s.current_index;
        match window_id_index(accs, fg) {
            None => (AppState { last_foreground_id: fg, ..s }, None),
            Some(i) => if cur < accs.len() && accs[cur as int].window_id == fg {
                (AppState { last_foreground_id: fg, ..s }, None)
            } else {
                (
                    AppState { last_foreground_id: fg, current_index: i as usize, ..s },
                    Some(accs[i].character_name@),
                )
            },
        }
    }
}

/// The characters of an optional string.
pub open spec fn view_opt_string(o: Option<String>) -> Option<Seq<char>> {
    match o {
        Some(s) => Some(s@),
        None => None,
    }
}

} // verus!
