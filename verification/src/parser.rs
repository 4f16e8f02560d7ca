//! The notification grammar: game events read from the text segments of a
//! system notification banner (turn, group invite, trade request, private
//! message), plus the HTML clean-up of message bodies.
//!
//! The phrases, in French, English and Spanish, are matched without regard to
//! case; names are the shortest line-free runs that the phrase grammar admits,
//! trimmed of surrounding whitespace.
use vstd::prelude::*;
use vstd::string::{StrSliceExecFns, StringExecFns};
use crate::text::{
    chars_of, string_from, string_from_range, trim, trim_start, trim_end, trim_bounds, is_ws,
    is_whitespace, copy_string, lemma_trim_idempotent, lemma_trim_start_shape, lemma_trim_end_shape,
};
use crate::grammar::{
    ci_at, ci_at_exec, at, at_exec, no_nl, no_nl_exec, cut, find_cut, Sep, lemma_sep_in_bounds, sep_at, pm_sep,
};

verus! {

// ---------------------------------------------------------------------------
// Event types
// ---------------------------------------------------------------------------

#[derive(Debug)]
pub struct TurnNotification {
    pub character_name: String,
}

#[derive(Debug)]
pub struct GroupInviteNotification {
    /// The character that received the invite (window to focus).
    pub receiver_name: String,
    /// The character that sent the invite.
    pub inviter_name: String,
}

#[derive(Debug)]
pub struct TradeRequest {
    /// The character that received the trade request (window to focus).
    pub receiver_name: String,
    /// The character that initiated the trade.
    pub requester_name: String,
}

#[derive(Debug)]
pub struct PrivateMessage {
    pub receiver_name: String,
    pub sender_name: String,
    pub message: String,
}

/// What kind of game event a notification represents.
#[derive(Debug)]
pub enum GameEvent {
    Turn(TurnNotification),
    GroupInvite(GroupInviteNotification),
    Trade(TradeRequest),
    PrivateMessage(PrivateMessage),
}

/// The mathematical value of a [`GameEvent`]: its names and text as character sequences.
pub enum EventView {
    Turn { character: Seq<char> },
    GroupInvite { receiver: Seq<char>, inviter: Seq<char> },
    Trade { receiver: Seq<char>, requester: Seq<char> },
    PrivateMessage { receiver: Seq<char>, sender: Seq<char>, message: Seq<char> },
}

impl View for GameEvent {
    type V = EventView;

    open spec fn view(&self) -> EventView {
        match self {
            GameEvent::Turn(t) => EventView::Turn { character: t.character_name@ },
            GameEvent::GroupInvite(g) => EventView::GroupInvite {
                receiver: g.receiver_name@,
                inviter: g.inviter_name@,
            },
            GameEvent::Trade(t) => EventView::Trade {
                receiver: t.receiver_name@,
                requester: t.requester_name@,
            },
            GameEvent::PrivateMessage(p) => EventView::PrivateMessage {
                receiver: p.receiver_name@,
                sender: p.sender_name@,
                message: p.message@,
            },
        }
    }
}

impl Clone for TurnNotification {
    fn clone(&self) -> (r: Self)
        ensures
            r == *self,
    {
        TurnNotification { character_name: self.character_name.clone() }
    }
}

impl Clone for GroupInviteNotification {
    fn clone(&self) -> (r: Self)
        ensures
            r == *self,
    {
        GroupInviteNotification {
            receiver_name: self.receiver_name.clone(),
            inviter_name: self.inviter_name.clone(),
        }
    }
}

impl Clone for TradeRequest {
    fn clone(&self) -> (r: Self)
        ensures
            r == *self,
    {
        TradeRequest {
            receiver_name: self.receiver_name.clone(),
            requester_name: self.requester_name.clone(),
        }
    }
}

impl Clone for PrivateMessage {
    fn clone(&self) -> (r: Self)
        ensures
            r == *self,
    {
        PrivateMessage {
            receiver_name: self.receiver_name.clone(),
            sender_name: self.sender_name.clone(),
            message: self.message.clone(),
        }
    }
}

impl Clone for GameEvent {
    fn clone(&self) -> (r: Self)
        ensures
            r == *self,
    {
        match self {
            GameEvent::Turn(t) => GameEvent::Turn(t.clone()),
            GameEvent::GroupInvite(g) => GameEvent::GroupInvite(g.clone()),
            GameEvent::Trade(t) => GameEvent::Trade(t.clone()),
            GameEvent::PrivateMessage(p) => GameEvent::PrivateMessage(p.clone()),
        }
    }
}

/// The characters of an optional string.
pub open spec fn view_opt(o: Option<String>) -> Option<Seq<char>> {
    match o {
        Some(s) => Some(s@),
        None => None,
    }
}

/// `n` trimmed, when something remains.
pub open spec fn nonblank(n: Seq<char>) -> Option<Seq<char>> {
    if trim(n).len() > 0 {
        Some(trim(n))
    } else {
        None
    }
}

// ---------------------------------------------------------------------------
// HTML clean-up of message bodies
// ---------------------------------------------------------------------------

/// The first position at or after `from` where `c` occurs in `s`.
pub open spec fn index_of_from(s: Seq<char>, c: char, from: int) -> Option<int>
    decreases s.len() - from,
{
    if from < 0 || from >= s.len() {
        None
    } else if s[from] == c {
        Some(from)
    } else {
        index_of_from(s, c, from + 1)
    }
}

pub proof fn lemma_index_of_from(s: Seq<char>, c: char, from: int)
    requires
        0 <= from,
    ensures
        match index_of_from(s, c, from) {
            Some(j) => from <= j < s.len() && s[j] == c && forall|m: int|
                from <= m < j ==> s[m] != c,
            None => forall|m: int| from <= m < s.len() ==> s[m] != c,
        },
    decreases s.len() - from,
{
    if from < s.len() && s[from] != c {
        lemma_index_of_from(s, c, from + 1);
    }
}

pub open spec fn link_close() -> Seq<char> {
    "</a>"@
}

/// An HTML link `<a …>text</a>` starting at `i`: the bounds of `text` and the end
/// of the link. The opening tag is `<a`, one whitespace character, and anything
/// up to the first `>`; `text` runs to the first following `<`, which must
/// start `</a>`.
pub open spec fn link_at(s: Seq<char>, i: int) -> Option<(int, int, int)> {
    if 0 <= i && i + 3 <= s.len() && s[i] == '<' && s[i + 1] == 'a' && is_ws(s[i + 2]) {
        match index_of_from(s, '>', i + 3) {
            Some(j) => match index_of_from(s, '<', j + 1) {
                Some(m) => if at(s, m, link_close()) {
                    Some((j + 1, m, m + link_close().len()))
                } else {
                    None
                },
                None => None,
            },
            None => None,
        }
    } else {
        None
    }
}

pub proof fn lemma_link_at(s: Seq<char>, i: int)
    ensures
        link_at(s, i) matches Some((a, b, e)) ==> i < a <= b < e <= s.len(),
{
    reveal_strlit("</a>");
    if 0 <= i && i + 3 <= s.len() && s[i] == '<' && s[i + 1] == 'a' && is_ws(s[i + 2]) {
        lemma_index_of_from(s, '>', i + 3);
        if let Some(j) = index_of_from(s, '>', i + 3) {
            lemma_index_of_from(s, '<', j + 1);
        }
    }
}

/// `s[i..]` with every link replaced by its text, scanning left to right.
pub open spec fn replace_links_from(s: Seq<char>, i: int) -> Seq<char>
    decreases s.len() - i,
{
    if i < 0 || i >= s.len() {
        Seq::empty()
    } else {
        match link_at(s, i) {
            Some((a, b, e)) => {
                proof {
                    lemma_link_at(s, i);
                }
                s.subrange(a, b) + replace_links_from(s, e)
            },
            None => seq![s[i]] + replace_links_from(s, i + 1),
        }
    }
}

/// A tag `<…>` with at least one character inside, starting at `i`: its end.
pub open spec fn tag_end_at(s: Seq<char>, i: int) -> Option<int> {
    if 0 <= i < s.len() && s[i] == '<' {
        match index_of_from(s, '>', i + 1) {
            Some(j) => if j >= i + 2 {
                Some(j + 1)
            } else {
                None
            },
            None => None,
        }
    } else {
        None
    }
}

pub proof fn lemma_tag_end_at(s: Seq<char>, i: int)
    ensures
        tag_end_at(s, i) matches Some(e) ==> i < e <= s.len(),
{
    if 0 <= i < s.len() && s[i] == '<' {
        lemma_index_of_from(s, '>', i + 1);
    }
}

/// `s[i..]` with every tag removed, scanning left to right.
pub open spec fn strip_tags_from(s: Seq<char>, i: int) -> Seq<char>
    decreases s.len() - i,
{
    if i < 0 || i >= s.len() {
        Seq::empty()
    } else {
        match tag_end_at(s, i) {
            Some(e) => {
                proof {
                    lemma_tag_end_at(s, i);
                }
                strip_tags_from(s, e)
            },
            None => seq![s[i]] + strip_tags_from(s, i + 1),
        }
    }
}

/// Links replaced by their text, remaining tags removed, then trimmed.
pub open spec fn clean_html_spec(s: Seq<char>) -> Seq<char> {
    trim(strip_tags_from(replace_links_from(s, 0), 0))
}

/// The first position at or after `from` where `c` occurs in `v`.
pub fn index_of(v: &Vec<char>, c: char, from: usize) -> (r: Option<usize>)
    ensures
        view_index(r) == index_of_from(v@, c, from as int),
{
    let mut i = from;
    while i < v.len()
        invariant
            from <= i,
            index_of_from(v@, c, from as int) == index_of_from(v@, c, i as int),
        decreases v.len() - i,
    {
        if v[i] == c {
            return Some(i);
        }
        i += 1;
    }
    None
}

/// An optional index as an integer.
pub open spec fn view_index(r: Option<usize>) -> Option<int> {
    match r {
        Some(i) => Some(i as int),
        None => None,
    }
}

fn link_at_exec(v: &Vec<char>, i: usize) -> (r: Option<(usize, usize, usize)>)
    ensures
        match r {
            Some((a, b, e)) => link_at(v@, i as int) == Some((a as int, b as int, e as int)),
            None => link_at(v@, i as int) is None,
        },
{
    if i >= v.len() || v.len() - i < 3 {
        return None;
    }
    if !(v[i] == '<' && v[i + 1] == 'a' && is_whitespace(v[i + 2])) {
        return None;
    }
    match index_of(v, '>', i + 3) {
        None => None,
        Some(j) => {
            proof {
                lemma_index_of_from(v@, '>', i + 3);
            }
            match index_of(v, '<', j + 1) {
                None => None,
                Some(m) => {
                    proof {
                        lemma_index_of_from(v@, '<', j + 1);
                    }
                    let close = chars_of("</a>");
                    if at_exec(v, m, &close) {
                        Some((j + 1, m, m + close.len()))
                    } else {
                        None
                    }
                },
            }
        },
    }
}

fn tag_end_exec(v: &Vec<char>, i: usize) -> (r: Option<usize>)
    ensures
        view_index(r) == tag_end_at(v@, i as int),
{
    if i >= v.len() || v[i] != '<' {
        return None;
    }
    match index_of(v, '>', i + 1) {
        None => None,
        Some(j) => {
            proof {
                lemma_index_of_from(v@, '>', i + 1);
            }
            if j >= i + 2 {
                Some(j + 1)
            } else {
                None
            }
        },
    }
}

fn replace_links(v: &Vec<char>) -> (r: Vec<char>)
    ensures
        r@ == replace_links_from(v@, 0),
{
    let mut out: Vec<char> = Vec::new();
    let mut i: usize = 0;
    while i < v.len()
        invariant
            i <= v.len(),
            out@ + replace_links_from(v@, i as int) == replace_links_from(v@, 0),
        decreases v.len() - i,
    {
        proof {
            lemma_link_at(v@, i as int);
        }
        match link_at_exec(v, i) {
            Some((a, b, e)) => {
                let ghost before = out@;
                let mut k = a;
                while k < b
                    invariant
                        a <= k <= b <= v.len(),
                        out@ == before + v@.subrange(a as int, k as int),
                    decreases b - k,
                {
                    out.push(v[k]);
                    assert(v@.subrange(a as int, k + 1) == v@.subrange(a as int, k as int).push(
                        v@[k as int],
                    ));
                    k += 1;
                }
                assert(before + replace_links_from(v@, i as int) == out@ + replace_links_from(
                    v@,
                    e as int,
                ));
                i = e;
            },
            None => {
                let ghost before = out@;
                out.push(v[i]);
                assert(before + replace_links_from(v@, i as int) == out@ + replace_links_from(
                    v@,
                    i + 1,
                ));
                i += 1;
            },
        }
    }
    assert(replace_links_from(v@, i as int) == Seq::<char>::empty());
    assert(out@ + Seq::<char>::empty() == out@);
    out
}

fn strip_tags(v: &Vec<char>) -> (r: Vec<char>)
    ensures
        r@ == strip_tags_from(v@, 0),
{
    let mut out: Vec<char> = Vec::new();
    let mut i: usize = 0;
    while i < v.len()
        invariant
            i <= v.len(),
            out@ + strip_tags_from(v@, i as int) == strip_tags_from(v@, 0),
        decreases v.len() - i,
    {
        proof {
            lemma_tag_end_at(v@, i as int);
        }
        match tag_end_exec(v, i) {
            Some(e) => {
                i = e;
            },
            None => {
                let ghost before = out@;
                out.push(v[i]);
                assert(before + strip_tags_from(v@, i as int) == out@ + strip_tags_from(
                    v@,
                    i + 1,
                ));
                i += 1;
            },
        }
    }
    assert(out@ + Seq::<char>::empty() == out@);
    out
}

fn clean_html_chars(v: &Vec<char>) -> (r: String)
    ensures
        r@ == clean_html_spec(v@),
{
    let step1 = replace_links(v);
    let step2 = strip_tags(&step1);
    assert(step2@.subrange(0, step2@.len() as int) =~= step2@);
    let (lo, hi) = trim_bounds(&step2, 0, step2.len());
    string_from_range(&step2, lo, hi)
}

/// Replace `<a href="...">text</a>` with just `text`, then strip remaining tags.
/// Dofus wraps items in `[...]` already so we preserve those outer brackets.
pub fn clean_html(text: &str) -> (r: String)
    ensures
        r@ == clean_html_spec(text@),
{
    let v = chars_of(text);
    clean_html_chars(&v)
}

// ---------------------------------------------------------------------------
// Turn, invite, trade, private message and window-title phrases
// ---------------------------------------------------------------------------

pub open spec fn turn_fr_prefix() -> Seq<char> { "C'est à "@ }
pub open spec fn turn_fr_suffix() -> Seq<char> { " de jouer"@ }
pub open spec fn turn_en_suffix() -> Seq<char> { " 's turn to play"@ }
pub open spec fn turn_es_prefix() -> Seq<char> { "le toca jugar a "@ }
pub open spec fn invite_en_prefix() -> Seq<char> { "You are invited to join "@ }
pub open spec fn pm_desde() -> Seq<char> { "desde "@ }
pub open spec fn pm_de() -> Seq<char> { "de "@ }
pub open spec fn pm_from() -> Seq<char> { "from "@ }

/// The name a turn phrase captures when the phrase covers all of `t`, trying
/// the French, then the English, then the Spanish form.
pub open spec fn turn_capture(t: Seq<char>) -> Option<Seq<char>> {
    let p1 = turn_fr_prefix();
    let s1 = turn_fr_suffix();
    let s2 = turn_en_suffix();
    let p3 = turn_es_prefix();
    if t.len() > p1.len() + s1.len() && ci_at(t, 0, p1) && ci_at(t, t.len() - s1.len(), s1)
        && no_nl(t.subrange(p1.len() as int, t.len() - s1.len())) {
        Some(t.subrange(p1.len() as int, t.len() - s1.len()))
    } else if t.len() > s2.len() && ci_at(t, t.len() - s2.len(), s2) && no_nl(
        t.subrange(0, t.len() - s2.len()),
    ) {
        Some(t.subrange(0, t.len() - s2.len()))
    } else if t.len() > p3.len() && ci_at(t, 0, p3) && no_nl(
        t.subrange(p3.len() as int, t.len() as int),
    ) {
        Some(t.subrange(p3.len() as int, t.len() as int))
    } else {
        None
    }
}

/// The character whose turn a text announces.
pub open spec fn parse_turn_spec(text: Seq<char>) -> Option<Seq<char>> {
    match turn_capture(trim(text)) {
        Some(n) => nonblank(n),
        None => None,
    }
}

/// The inviter a group-invite phrase at the start of `t` captures.
pub open spec fn invite_capture(t: Seq<char>) -> Option<Seq<char>> {
    match cut(Sep::Invite, t, 0) {
        Some(k) => Some(t.subrange(0, k)),
        None => if ci_at(t, 0, invite_en_prefix()) {
            match cut(Sep::InviteEn, t, invite_en_prefix().len() as int) {
                Some(k) => Some(t.subrange(invite_en_prefix().len() as int, k)),
                None => None,
            }
        } else {
            None
        },
    }
}

/// The inviter of a group-invite text.
pub open spec fn parse_group_invite_spec(text: Seq<char>) -> Option<Seq<char>> {
    match invite_capture(trim(text)) {
        Some(n) => nonblank(n),
        None => None,
    }
}

/// The requester of a trade-request text.
pub open spec fn parse_trade_spec(text: Seq<char>) -> Option<Seq<char>> {
    let t = trim(text);
    match cut(Sep::Trade, t, 0) {
        Some(k) => nonblank(t.subrange(0, k)),
        None => None,
    }
}

/// Sender and message of `t` after the prefix `p`.
pub open spec fn pm_capture_with(t: Seq<char>, p: Seq<char>) -> Option<(Seq<char>, Seq<char>)> {
    if ci_at(t, 0, p) {
        match cut(Sep::Pm, t, p.len() as int) {
            Some(k) => Some((t.subrange(p.len() as int, k), t.subrange(k + pm_sep().len(), t.len() as int))),
            None => None,
        }
    } else {
        None
    }
}

/// Sender and message of a private-message phrase, trying `desde`, `de`, `from`.
pub open spec fn pm_capture(t: Seq<char>) -> Option<(Seq<char>, Seq<char>)> {
    match pm_capture_with(t, pm_desde()) {
        Some(x) => Some(x),
        None => match pm_capture_with(t, pm_de()) {
            Some(x) => Some(x),
            None => pm_capture_with(t, pm_from()),
        },
    }
}

/// Sender and cleaned message of a private-message text.
pub open spec fn parse_pm_spec(text: Seq<char>) -> Option<(Seq<char>, Seq<char>)> {
    match pm_capture(trim(text)) {
        Some((s, m)) => if trim(s).len() > 0 && trim(m).len() > 0 {
            Some((trim(s), clean_html_spec(trim(m))))
        } else {
            None
        },
        None => None,
    }
}

/// The character named by a game window title `<name> - Dofus Retro v<version>`.
pub open spec fn extract_title_spec(text: Seq<char>) -> Option<Seq<char>> {
    let t = trim(text);
    match cut(Sep::Title, t, 0) {
        Some(k) => nonblank(t.subrange(0, k)),
        None => None,
    }
}

/// A copy of `v[lo..hi]`.
pub fn sub_vec(v: &Vec<char>, lo: usize, hi: usize) -> (r: Vec<char>)
    requires
        lo <= hi <= v.len(),
    ensures
        r@ == v@.subrange(lo as int, hi as int),
{
    let mut r: Vec<char> = Vec::new();
    let mut i = lo;
    while i < hi
        invariant
            lo <= i <= hi <= v.len(),
            r@ == v@.subrange(lo as int, i as int),
        decreases hi - i,
    {
        r.push(v[i]);
        assert(v@.subrange(lo as int, i + 1) == v@.subrange(lo as int, i as int).push(v@[i as int]));
        i += 1;
    }
    r
}

/// `v` trimmed, as a new vector.
fn trimmed(v: &Vec<char>) -> (r: Vec<char>)
    ensures
        r@ == trim(v@),
{
    assert(v@.subrange(0, v@.len() as int) =~= v@);
    let (lo, hi) = trim_bounds(v, 0, v.len());
    sub_vec(v, lo, hi)
}

/// `v[lo..hi]` trimmed, if anything remains.
fn nonblank_range(v: &Vec<char>, lo: usize, hi: usize) -> (r: Option<String>)
    requires
        lo <= hi <= v.len(),
    ensures
        view_opt(r) == nonblank(v@.subrange(lo as int, hi as int)),
{
    let (a, b) = trim_bounds(v, lo, hi);
    if a < b {
        Some(string_from_range(v, a, b))
    } else {
        None
    }
}

fn turn_capture_exec(t: &Vec<char>) -> (r: Option<(usize, usize)>)
    ensures
        match r {
            Some((a, b)) => a <= b <= t.len() && turn_capture(t@) == Some(
                t@.subrange(a as int, b as int),
            ),
            None => turn_capture(t@) is None,
        },
{
    let p1 = chars_of("C'est à ");
    let s1 = chars_of(" de jouer");
    let s2 = chars_of(" 's turn to play");
    let p3 = chars_of("le toca jugar a ");
    if t.len() > p1.len() && t.len() - p1.len() > s1.len() && ci_at_exec(t, 0, &p1)
        && ci_at_exec(t, t.len() - s1.len(), &s1) && no_nl_exec(t, p1.len(), t.len() - s1.len()) {
        return Some((p1.len(), t.len() - s1.len()));
    }
    if t.len() > s2.len() && ci_at_exec(t, t.len() - s2.len(), &s2) && no_nl_exec(
        t,
        0,
        t.len() - s2.len(),
    ) {
        return Some((0, t.len() - s2.len()));
    }
    if t.len() > p3.len() && ci_at_exec(t, 0, &p3) && no_nl_exec(t, p3.len(), t.len()) {
        return Some((p3.len(), t.len()));
    }
    None
}

fn parse_turn_chars(v: &Vec<char>) -> (r: Option<String>)
    ensures
        view_opt(r) == parse_turn_spec(v@),
{
    let t = trimmed(v);
    match turn_capture_exec(&t) {
        Some((a, b)) => nonblank_range(&t, a, b),
        None => None,
    }
}

/// The character whose turn a notification text announces
/// (`C'est à <name> de jouer`, `<name> 's turn to play`, `le toca jugar a <name>`).
pub fn parse_turn_notification(text: &str) -> (r: Option<TurnNotification>)
    ensures
        match r {
            Some(t) => parse_turn_spec(text@) == Some(t.character_name@),
            None => parse_turn_spec(text@) is None,
        },
{
    let v = chars_of(text);
    match parse_turn_chars(&v) {
        Some(name) => Some(TurnNotification { character_name: name }),
        None => None,
    }
}

/// The inviter named by a group-invite text.
pub fn parse_group_invite(text: &str) -> (r: Option<String>)
    ensures
        view_opt(r) == parse_group_invite_spec(text@),
{
    let v = chars_of(text);
    let t = trimmed(&v);
    match find_cut(&Sep::Invite, &t, 0) {
        Some(k) => {
            proof {
                lemma_cut_within(Sep::Invite, t@, 0, k as int);
            }
            return nonblank_range(&t, 0, k);
        },
        None => {},
    }
    let p = chars_of("You are invited to join ");
    if !ci_at_exec(&t, 0, &p) {
        return None;
    }
    match find_cut(&Sep::InviteEn, &t, p.len()) {
        Some(k) => {
            proof {
                lemma_cut_within(Sep::InviteEn, t@, p@.len() as int, k as int);
            }
            nonblank_range(&t, p.len(), k)
        },
        None => None,
    }
}

/// The requester named by a trade-request text.
pub fn parse_trade(text: &str) -> (r: Option<String>)
    ensures
        view_opt(r) == parse_trade_spec(text@),
{
    let v = chars_of(text);
    let t = trimmed(&v);
    match find_cut(&Sep::Trade, &t, 0) {
        Some(k) => {
            proof {
                lemma_cut_within(Sep::Trade, t@, 0, k as int);
            }
            nonblank_range(&t, 0, k)
        },
        None => None,
    }
}

fn pm_capture_with_exec(t: &Vec<char>, p: &Vec<char>) -> (r: Option<(usize, usize)>)
    ensures
        match r {
            Some((k, m)) => k <= m <= t.len() && p@.len() <= k && pm_capture_with(t@, p@) == Some(
                (t@.subrange(p@.len() as int, k as int), t@.subrange(m as int, t@.len() as int)),
            ),
            None => pm_capture_with(t@, p@) is None,
        },
{
    if !ci_at_exec(t, 0, p) {
        return None;
    }
    match find_cut(&Sep::Pm, t, p.len()) {
        Some(k) => {
            proof {
                lemma_cut_within(Sep::Pm, t@, p@.len() as int, k as int);
                reveal_strlit(" : ");
            }
            assert(pm_sep().len() == 3) by {
                reveal_strlit(" : ");
            }
            let tl = t.len();
            assert(k + pm_sep().len() < tl);
            Some((k, k + 3))
        },
        None => None,
    }
}

/// Sender and cleaned message of a private-message text.
pub fn parse_pm(text: &str) -> (r: Option<(String, String)>)
    ensures
        match r {
            Some((s, m)) => parse_pm_spec(text@) == Some((s@, m@)),
            None => parse_pm_spec(text@) is None,
        },
{
    let v = chars_of(text);
    let t = trimmed(&v);
    let desde = chars_of("desde ");
    let de = chars_of("de ");
    let from = chars_of("from ");
    let mut found = pm_capture_with_exec(&t, &desde);
    let mut plen = desde.len();
    if found.is_none() {
        found = pm_capture_with_exec(&t, &de);
        plen = de.len();
        if found.is_none() {
            found = pm_capture_with_exec(&t, &from);
            plen = from.len();
        }
    }
    let ghost which = if pm_capture_with(t@, desde@) is Some {
        desde@
    } else if pm_capture_with(t@, de@) is Some {
        de@
    } else {
        from@
    };
    match found {
        None => None,
        Some((k, m)) => {
            assert(plen == which.len());
            assert(pm_capture(t@) == pm_capture_with(t@, which));
            let (s_lo, s_hi) = trim_bounds(&t, plen, k);
            let (m_lo, m_hi) = trim_bounds(&t, m, t.len());
            if s_lo < s_hi && m_lo < m_hi {
                let sender = string_from_range(&t, s_lo, s_hi);
                let body = sub_vec(&t, m_lo, m_hi);
                let message = clean_html_chars(&body);
                Some((sender, message))
            } else {
                None
            }
        },
    }
}

/// The character named by a game window title.
pub fn extract_character_from_title(text: &str) -> (r: Option<String>)
    ensures
        view_opt(r) == extract_title_spec(text@),
{
    let v = chars_of(text);
    let t = trimmed(&v);
    match find_cut(&Sep::Title, &t, 0) {
        Some(k) => {
            proof {
                lemma_cut_within(Sep::Title, t@, 0, k as int);
            }
            nonblank_range(&t, 0, k)
        },
        None => None,
    }
}

/// A cut lies inside the text.
pub proof fn lemma_cut_within(sep: Sep, t: Seq<char>, start: int, k: int)
    requires
        cut(sep, t, start) == Some(k),
    ensures
        start < k < t.len(),
        sep_at(sep, t, k),
{
    let c = choose|c: int| crate::grammar::is_cut(sep, t, start, c);
    assert(crate::grammar::is_cut(sep, t, start, c));
    lemma_sep_in_bounds(sep, t, c);
}


// ---------------------------------------------------------------------------
// Events from the segments of a notification
// ---------------------------------------------------------------------------

/// The characters of each segment.
pub open spec fn seg_views(segments: Seq<String>) -> Seq<Seq<char>> {
    segments.map_values(|s: String| s@)
}

/// What `f` gives for the last segment for which it gives something.
pub open spec fn rev_find<X>(segs: Seq<Seq<char>>, f: spec_fn(Seq<char>) -> Option<X>) -> Option<X>
    decreases segs.len(),
{
    if segs.len() == 0 {
        None
    } else {
        match f(segs.last()) {
            Some(x) => Some(x),
            None => rev_find(segs.drop_last(), f),
        }
    }
}

/// The segments joined with single spaces.
pub open spec fn join_space(segs: Seq<Seq<char>>) -> Seq<char>
    decreases segs.len(),
{
    if segs.len() == 0 {
        Seq::empty()
    } else if segs.len() == 1 {
        segs[0]
    } else {
        join_space(segs.drop_last()) + seq![' '] + segs.last()
    }
}

pub open spec fn turn_f() -> spec_fn(Seq<char>) -> Option<Seq<char>> {
    |s: Seq<char>| parse_turn_spec(s)
}

pub open spec fn title_f() -> spec_fn(Seq<char>) -> Option<Seq<char>> {
    |s: Seq<char>| extract_title_spec(s)
}

pub open spec fn invite_f() -> spec_fn(Seq<char>) -> Option<Seq<char>> {
    |s: Seq<char>| parse_group_invite_spec(s)
}

pub open spec fn trade_f() -> spec_fn(Seq<char>) -> Option<Seq<char>> {
    |s: Seq<char>| parse_trade_spec(s)
}

pub open spec fn pm_f() -> spec_fn(Seq<char>) -> Option<(Seq<char>, Seq<char>)> {
    |s: Seq<char>| parse_pm_spec(s)
}

/// A turn read from all segments joined together.
pub open spec fn combined_turn(segs: Seq<Seq<char>>) -> Option<EventView> {
    match parse_turn_spec(join_space(segs)) {
        Some(n) => Some(EventView::Turn { character: n }),
        None => None,
    }
}

/// The game event a notification announces.
///
/// Turns come first, read from the last segment that announces one. Otherwise
/// the receiver is the character named by the last window-title segment, and
/// the event is the group invite, else the trade request, else the private
/// message of the last segment that holds one. Without a title segment, or
/// when nothing else matches, the segments joined by spaces are read as a turn.
pub open spec fn parse_game_event_spec(segs: Seq<Seq<char>>) -> Option<EventView> {
    match rev_find(segs, turn_f()) {
        Some(n) => Some(EventView::Turn { character: n }),
        None => match rev_find(segs, title_f()) {
            None => combined_turn(segs),
            Some(r) => match rev_find(segs, invite_f()) {
                Some(i) => Some(EventView::GroupInvite { receiver: r, inviter: i }),
                None => match rev_find(segs, trade_f()) {
                    Some(q) => Some(EventView::Trade { receiver: r, requester: q }),
                    None => match rev_find(segs, pm_f()) {
                        Some((snd, msg)) => Some(
                            EventView::PrivateMessage { receiver: r, sender: snd, message: msg },
                        ),
                        None => combined_turn(segs),
                    },
                },
            },
        },
    }
}

/// Appends the characters of `v` to `out`.
pub fn append_chars(out: &mut Vec<char>, v: &Vec<char>)
    ensures
        final(out)@ == old(out)@ + v@,
{
    let ghost start = out@;
    let mut i: usize = 0;
    while i < v.len()
        invariant
            i <= v.len(),
            out@ == start + v@.take(i as int),
        decreases v.len() - i,
    {
        out.push(v[i]);
        assert(v@.take(i + 1) == v@.take(i as int).push(v@[i as int]));
        i += 1;
    }
    assert(v@.take(v.len() as int) =~= v@);
}

fn join_segments(segments: &[String]) -> (r: Vec<char>)
    ensures
        r@ == join_space(seg_views(segments@)),
{
    let ghost segs = seg_views(segments@);
    let mut out: Vec<char> = Vec::new();
    let mut i: usize = 0;
    while i < segments.len()
        invariant
            i <= segments.len(),
            segs == seg_views(segments@),
            out@ == join_space(segs.take(i as int)),
        decreases segments.len() - i,
    {
        let v = chars_of(segments[i].as_str());
        assert(segs.take(i + 1).drop_last() =~= segs.take(i as int));
        if i > 0 {
            out.push(' ');
        }
        append_chars(&mut out, &v);
        proof {
            if i == 0 {
                assert(out@ =~= segs.take(1)[0]);
            }
        }
        i += 1;
    }
    assert(segs.take(segments.len() as int) =~= segs);
    out
}

fn last_turn(segments: &[String]) -> (r: Option<TurnNotification>)
    ensures
        match r {
            Some(t) => rev_find(seg_views(segments@), turn_f()) == Some(t.character_name@),
            None => rev_find(seg_views(segments@), turn_f()) is None,
        },
{
    let ghost segs = seg_views(segments@);
    let mut i = segments.len();
    assert(segs.take(i as int) =~= segs);
    while i > 0
        invariant
            i <= segments.len(),
            segs == seg_views(segments@),
            rev_find(segs, turn_f()) == rev_find(segs.take(i as int), turn_f()),
        decreases i,
    {
        i -= 1;
        assert(segs.take(i + 1).drop_last() =~= segs.take(i as int));
        assert(segs.take(i + 1).last() == segments@[i as int]@);
        if let Some(t) = parse_turn_notification(segments[i].as_str()) {
            return Some(t);
        }
    }
    None
}

fn last_title(segments: &[String]) -> (r: Option<String>)
    ensures
        view_opt(r) == rev_find(seg_views(segments@), title_f()),
{
    let ghost segs = seg_views(segments@);
    let mut i = segments.len();
    assert(segs.take(i as int) =~= segs);
    while i > 0
        invariant
            i <= segments.len(),
            segs == seg_views(segments@),
            rev_find(segs, title_f()) == rev_find(segs.take(i as int), title_f()),
        decreases i,
    {
        i -= 1;
        assert(segs.take(i + 1).drop_last() =~= segs.take(i as int));
        assert(segs.take(i + 1).last() == segments@[i as int]@);
        let found = extract_character_from_title(segments[i].as_str());
        if found.is_some() {
            return found;
        }
    }
    None
}

fn last_invite(segments: &[String]) -> (r: Option<String>)
    ensures
        view_opt(r) == rev_find(seg_views(segments@), invite_f()),
{
    let ghost segs = seg_views(segments@);
    let mut i = segments.len();
    assert(segs.take(i as int) =~= segs);
    while i > 0
        invariant
            i <= segments.len(),
            segs == seg_views(segments@),
            rev_find(segs, invite_f()) == rev_find(segs.take(i as int), invite_f()),
        decreases i,
    {
        i -= 1;
        assert(segs.take(i + 1).drop_last() =~= segs.take(i as int));
        assert(segs.take(i + 1).last() == segments@[i as int]@);
        let found = parse_group_invite(segments[i].as_str());
        if found.is_some() {
            return found;
        }
    }
    None
}

fn last_trade(segments: &[String]) -> (r: Option<String>)
    ensures
        view_opt(r) == rev_find(seg_views(segments@), trade_f()),
{
    let ghost segs = seg_views(segments@);
    let mut i = segments.len();
    assert(segs.take(i as int) =~= segs);
    while i > 0
        invariant
            i <= segments.len(),
            segs == seg_views(segments@),
            rev_find(segs, trade_f()) == rev_find(segs.take(i as int), trade_f()),
        decreases i,
    {
        i -= 1;
        assert(segs.take(i + 1).drop_last() =~= segs.take(i as int));
        assert(segs.take(i + 1).last() == segments@[i as int]@);
        let found = parse_trade(segments[i].as_str());
        if found.is_some() {
            return found;
        }
    }
    None
}

fn last_pm(segments: &[String]) -> (r: Option<(String, String)>)
    ensures
        match r {
            Some((s, m)) => rev_find(seg_views(segments@), pm_f()) == Some((s@, m@)),
            None => rev_find(seg_views(segments@), pm_f()) is None,
        },
{
    let ghost segs = seg_views(segments@);
    let mut i = segments.len();
    assert(segs.take(i as int) =~= segs);
    while i > 0
        invariant
            i <= segments.len(),
            segs == seg_views(segments@),
            rev_find(segs, pm_f()) == rev_find(segs.take(i as int), pm_f()),
        decreases i,
    {
        i -= 1;
        assert(segs.take(i + 1).drop_last() =~= segs.take(i as int));
        assert(segs.take(i + 1).last() == segments@[i as int]@);
        let found = parse_pm(segments[i].as_str());
        if found.is_some() {
            return found;
        }
    }
    None
}

fn combined_turn_exec(segments: &[String]) -> (r: Option<GameEvent>)
    ensures
        match r {
            Some(e) => combined_turn(seg_views(segments@)) == Some(e@),
            None => combined_turn(seg_views(segments@)) is None,
        },
{
    let joined = join_segments(segments);
    match parse_turn_chars(&joined) {
        Some(name) => Some(GameEvent::Turn(TurnNotification { character_name: name })),
        None => None,
    }
}

/// Parse all segments and return the first game event found.
/// Priority: turn > group invite > trade > PM
pub fn parse_game_event(segments: &[String]) -> (r: Option<GameEvent>)
    ensures
        match r {
            Some(e) => parse_game_event_spec(seg_views(segments@)) == Some(e@),
            None => parse_game_event_spec(seg_views(segments@)) is None,
        },
{
    if let Some(turn) = last_turn(segments) {
        return Some(GameEvent::Turn(turn));
    }
    let receiver_name = match last_title(segments) {
        Some(r) => r,
        None => {
            return combined_turn_exec(segments);
        },
    };
    if let Some(inviter) = last_invite(segments) {
        return Some(
            GameEvent::GroupInvite(
                GroupInviteNotification { receiver_name, inviter_name: inviter },
            ),
        );
    }
    if let Some(requester) = last_trade(segments) {
        return Some(GameEvent::Trade(TradeRequest { receiver_name, requester_name: requester }));
    }
    if let Some((sender, message)) = last_pm(segments) {
        return Some(
            GameEvent::PrivateMessage(
                PrivateMessage { receiver_name, sender_name: sender, message },
            ),
        );
    }
    combined_turn_exec(segments)
}

// ---------------------------------------------------------------------------
// Toast payloads (`<text …>…</text>` elements)
// ---------------------------------------------------------------------------

pub open spec fn text_open() -> Seq<char> {
    "<text"@
}

pub open spec fn text_close() -> Seq<char> {
    "</text>"@
}

/// A `<text …>content</text>` element starting at `i`: bounds of its content
/// and its end. The opening tag runs to the first `>`, the content to the
/// first following `<`, which must start `</text>`.
pub open spec fn text_element_at(s: Seq<char>, i: int) -> Option<(int, int, int)> {
    if at(s, i, text_open()) {
        match index_of_from(s, '>', i + text_open().len()) {
            Some(j) => match index_of_from(s, '<', j + 1) {
                Some(m) => if at(s, m, text_close()) {
                    Some((j + 1, m, m + text_close().len()))
                } else {
                    None
                },
                None => None,
            },
            None => None,
        }
    } else {
        None
    }
}

pub proof fn lemma_text_element_at(s: Seq<char>, i: int)
    ensures
        text_element_at(s, i) matches Some((a, b, e)) ==> i < a <= b < e <= s.len(),
{
    reveal_strlit("<text");
    reveal_strlit("</text>");
    if at(s, i, text_open()) {
        lemma_index_of_from(s, '>', i + text_open().len());
        if let Some(j) = index_of_from(s, '>', i + text_open().len()) {
            lemma_index_of_from(s, '<', j + 1);
        }
    }
}

/// The trimmed, non-empty contents of the text elements of `s[i..]`, left to right.
pub open spec fn toast_texts_from(s: Seq<char>, i: int) -> Seq<Seq<char>>
    decreases s.len() - i,
{
    if i < 0 || i >= s.len() {
        Seq::empty()
    } else {
        match text_element_at(s, i) {
            Some((a, b, e)) => {
                proof {
                    lemma_text_element_at(s, i);
                }
                if trim(s.subrange(a, b)).len() > 0 {
                    seq![trim(s.subrange(a, b))] + toast_texts_from(s, e)
                } else {
                    toast_texts_from(s, e)
                }
            },
            None => toast_texts_from(s, i + 1),
        }
    }
}

/// The characters of each string.
pub open spec fn views(v: Seq<String>) -> Seq<Seq<char>> {
    v.map_values(|x: String| x@)
}

fn text_element_exec(v: &Vec<char>, i: usize) -> (r: Option<(usize, usize, usize)>)
    ensures
        match r {
            Some((a, b, e)) => text_element_at(v@, i as int) == Some(
                (a as int, b as int, e as int),
            ),
            None => text_element_at(v@, i as int) is None,
        },
{
    let open = chars_of("<text");
    if !at_exec(v, i, &open) {
        return None;
    }
    let vl = v.len();
    assert(i + open@.len() <= vl);
    proof {
        lemma_index_of_from(v@, '>', i + open@.len());
    }
    match index_of(v, '>', i + open.len()) {
        None => None,
        Some(j) => {
            assert(j < vl);
            proof {
                lemma_index_of_from(v@, '<', j + 1);
            }
            match index_of(v, '<', j + 1) {
                None => None,
                Some(m) => {
                    let close = chars_of("</text>");
                    if at_exec(v, m, &close) {
                        assert(m + close@.len() <= vl);
                        Some((j + 1, m, m + close.len()))
                    } else {
                        None
                    }
                },
            }
        },
    }
}

/// The trimmed, non-empty texts of the `<text>` elements of a toast payload.
pub fn toast_texts(payload: &str) -> (r: Vec<String>)
    ensures
        views(r@) == toast_texts_from(payload@, 0),
{
    let v = chars_of(payload);
    let mut out: Vec<String> = Vec::new();
    let mut i: usize = 0;
    while i < v.len()
        invariant
            i <= v.len(),
            v@ == payload@,
            views(out@) + toast_texts_from(v@, i as int) == toast_texts_from(v@, 0),
        decreases v.len() - i,
    {
        proof {
            lemma_text_element_at(v@, i as int);
        }
        match text_element_exec(&v, i) {
            Some((a, b, e)) => {
                let (lo, hi) = trim_bounds(&v, a, b);
                if lo < hi {
                    let ghost before = views(out@);
                    let t = string_from_range(&v, lo, hi);
                    out.push(t);
                    assert(views(out@) =~= before.push(t@));
                    assert(before + toast_texts_from(v@, i as int) == views(out@)
                        + toast_texts_from(v@, e as int));
                }
                i = e;
            },
            None => {
                i += 1;
            },
        }
    }
    assert(views(out@) + Seq::<Seq<char>>::empty() == views(out@));
    out
}

/// The segments of a toast whose texts (title first) are `texts`: the source
/// tag, title and body joined by a space, the title, and the body.
pub open spec fn toast_segments_spec(texts: Seq<Seq<char>>) -> Option<Seq<Seq<char>>> {
    if texts.len() == 0 {
        None
    } else {
        let title = texts[0];
        let body = if texts.len() > 1 { texts[1] } else { Seq::empty() };
        let combined = if body.len() == 0 { title } else { title + seq![' '] + body };
        Some(seq!["Dofus Retro"@, combined, title, body])
    }
}

/// The segments handed to the notification handler for a toast with `texts`.
pub fn toast_segments(texts: &[String]) -> (r: Option<Vec<String>>)
    ensures
        match r {
            Some(v) => toast_segments_spec(views(texts@)) == Some(views(v@)),
            None => toast_segments_spec(views(texts@)) is None,
        },
{
    if texts.len() == 0 {
        return None;
    }
    let title = copy_string(&texts[0]);
    let body = if texts.len() > 1 {
        copy_string(&texts[1])
    } else {
        String::new()
    };
    let combined = if body.as_str().unicode_len() == 0 {
        copy_string(&title)
    } else {
        let mut c = chars_of(title.as_str());
        c.push(' ');
        let b = chars_of(body.as_str());
        append_chars(&mut c, &b);
        assert(c@ =~= title@ + seq![' '] + body@);
        string_from(&c)
    };
    assert(combined@ == (if body@.len() == 0 { title@ } else { title@ + seq![' '] + body@ }));
    let tag = String::from_str("Dofus Retro");
    let mut out: Vec<String> = Vec::new();
    out.push(tag);
    out.push(combined);
    out.push(title);
    out.push(body);
    let ghost ts = views(texts@);
    assert(ts[0] == title@);
    assert(ts.len() > 1 ==> ts[1] == body@);
    assert(ts.len() <= 1 ==> body@ == Seq::<char>::empty());
    assert(views(out@) =~= toast_segments_spec(views(texts@))->0);
    Some(out)
}


// ---------------------------------------------------------------------------
// Cleaning is idempotent
// ---------------------------------------------------------------------------

/// Text with no tag left: each `<` is directly followed by `>`, or no `>`
/// comes after it.
pub open spec fn tag_free(s: Seq<char>) -> bool {
    forall|i: int|
        0 <= i < s.len() && #[trigger] s[i] == '<' ==> (i + 1 < s.len() && s[i + 1] == '>') || forall|
            m: int,
        |
            i < m < s.len() ==> s[m] != '>'
}

/// In tag-free text no link and no tag starts anywhere.
proof fn lemma_tag_free_no_tag(s: Seq<char>, i: int)
    requires
        tag_free(s),
    ensures
        link_at(s, i) is None,
        tag_end_at(s, i) is None,
{
    if 0 <= i < s.len() && s[i] == '<' {
        lemma_index_of_from(s, '>', i + 1);
        if i + 3 <= s.len() && s[i + 1] == 'a' {
            lemma_index_of_from(s, '>', i + 3);
        }
    }
}

/// Replacing links in tag-free text changes nothing.
proof fn lemma_replace_links_tag_free(s: Seq<char>, i: int)
    requires
        tag_free(s),
        0 <= i <= s.len(),
    ensures
        replace_links_from(s, i) == s.subrange(i, s.len() as int),
    decreases s.len() - i,
{
    if i < s.len() {
        lemma_tag_free_no_tag(s, i);
        lemma_replace_links_tag_free(s, i + 1);
        assert(seq![s[i]] + s.subrange(i + 1, s.len() as int) =~= s.subrange(i, s.len() as int));
    } else {
        assert(s.subrange(i, s.len() as int) =~= Seq::<char>::empty());
    }
}

/// Stripping tags from tag-free text changes nothing.
proof fn lemma_strip_tags_tag_free(s: Seq<char>, i: int)
    requires
        tag_free(s),
        0 <= i <= s.len(),
    ensures
        strip_tags_from(s, i) == s.subrange(i, s.len() as int),
    decreases s.len() - i,
{
    if i < s.len() {
        lemma_tag_free_no_tag(s, i);
        lemma_strip_tags_tag_free(s, i + 1);
        assert(seq![s[i]] + s.subrange(i + 1, s.len() as int) =~= s.subrange(i, s.len() as int));
    } else {
        assert(s.subrange(i, s.len() as int) =~= Seq::<char>::empty());
    }
}

/// Stripping tags from a part without `>` leaves no `>`.
proof fn lemma_strip_no_gt(s: Seq<char>, k: int)
    requires
        0 <= k,
        forall|m: int| k <= m < s.len() ==> s[m] != '>',
    ensures
        forall|t: int| 0 <= t < strip_tags_from(s, k).len() ==> strip_tags_from(s, k)[t] != '>',
    decreases s.len() - k,
{
    if k < s.len() {
        lemma_tag_end_at(s, k);
        match tag_end_at(s, k) {
            Some(e) => {
                lemma_strip_no_gt(s, e);
                assert(strip_tags_from(s, k) == strip_tags_from(s, e));
            },
            None => {
                lemma_strip_no_gt(s, k + 1);
                let rest = strip_tags_from(s, k + 1);
                assert(strip_tags_from(s, k) == seq![s[k]] + rest);
                assert(s[k] != '>');
                assert forall|t: int| 0 <= t < strip_tags_from(s, k).len() implies strip_tags_from(s, k)[t]
                    != '>' by {
                    if t > 0 {
                        assert(strip_tags_from(s, k)[t] == rest[t - 1]);
                    }
                }
            },
        }
    }
}

/// What stripping tags leaves is tag-free.
proof fn lemma_strip_tags_free(s: Seq<char>, k: int)
    requires
        0 <= k,
    ensures
        tag_free(strip_tags_from(s, k)),
    decreases s.len() - k,
{
    if k < s.len() {
        lemma_tag_end_at(s, k);
        match tag_end_at(s, k) {
            Some(e) => {
                lemma_strip_tags_free(s, e);
            },
            None => {
                lemma_strip_tags_free(s, k + 1);
                let rest = strip_tags_from(s, k + 1);
                let out = strip_tags_from(s, k);
                assert(out == seq![s[k]] + rest);
                if s[k] == '<' {
                    lemma_index_of_from(s, '>', k + 1);
                    match index_of_from(s, '>', k + 1) {
                        Some(j) => {
                            assert(j == k + 1);
                            lemma_tag_end_at(s, k + 1);
                            assert(tag_end_at(s, k + 1) is None);
                            assert(rest[0] == '>');
                        },
                        None => {
                            lemma_strip_no_gt(s, k + 1);
                        },
                    }
                }
                assert forall|i: int| 0 <= i < out.len() && #[trigger] out[i] == '<' implies (i + 1 < out.len()
                    && out[i + 1] == '>') || forall|m: int| i < m < out.len() ==> out[m] != '>' by {
                    if i > 0 {
                        assert(out[i] == rest[i - 1]);
                        if !(i < rest.len() && rest[i] == '>') {
                            assert forall|m: int| i < m < out.len() implies out[m] != '>' by {
                                assert(out[m] == rest[m - 1]);
                            }
                        } else {
                            assert(out[i + 1] == rest[i]);
                        }
                    } else {
                        if !(1 < out.len() && out[1] == '>') {
                            assert forall|m: int| 0 < m < out.len() implies out[m] != '>' by {
                                assert(out[m] == rest[m - 1]);
                            }
                        }
                    }
                }
            },
        }
    }
}

/// A part of tag-free text is tag-free.
proof fn lemma_tag_free_subrange(s: Seq<char>, lo: int, hi: int)
    requires
        tag_free(s),
        0 <= lo <= hi <= s.len(),
    ensures
        tag_free(s.subrange(lo, hi)),
{
    let t = s.subrange(lo, hi);
    assert forall|i: int| 0 <= i < t.len() && #[trigger] t[i] == '<' implies (i + 1 < t.len() && t[i + 1]
        == '>') || forall|m: int| i < m < t.len() ==> t[m] != '>' by {
        assert(s[lo + i] == '<');
        if !(i + 1 < t.len() && t[i + 1] == '>') {
            assert forall|m: int| i < m < t.len() implies t[m] != '>' by {
                assert(t[m] == s[lo + m]);
            }
        }
    }
}

/// Cleaning a message twice gives what cleaning it once gives: no link and no
/// tag survives the first cleaning, and it is already trimmed.
pub proof fn law_clean_html_idempotent(text: Seq<char>)
    ensures
        clean_html_spec(clean_html_spec(text)) == clean_html_spec(text),
{
    let stripped = strip_tags_from(replace_links_from(text, 0), 0);
    let c = trim(stripped);
    lemma_strip_tags_free(replace_links_from(text, 0), 0);
    lemma_trim_start_shape(stripped);
    let ts = trim_start(stripped);
    lemma_trim_end_shape(ts);
    lemma_tag_free_subrange(stripped, stripped.len() - ts.len(), stripped.len() as int);
    lemma_tag_free_subrange(ts, 0, trim_end(ts).len() as int);
    assert(tag_free(c));
    lemma_replace_links_tag_free(c, 0);
    assert(c.subrange(0, c.len() as int) =~= c);
    lemma_strip_tags_tag_free(c, 0);
    lemma_trim_idempotent(stripped);
}

} // verus!
