//! The supported notification formats: a phrase written around a character
//! name reads back as that name, and the event reader ranks turns first.
use vstd::prelude::*;
use crate::text::{trim, trim_start, trim_end, is_ws, lemma_trim_idempotent};
use crate::grammar::{
    ci_at, ci_match, no_nl, at, cut, is_cut, sep_at, lemma_cut_unique, Sep, invite_fr, invite_es,
    invite_en_suffix, trade_fr, trade_en, trade_es, pm_sep, title_sep, is_decimal_digit,
};
use crate::parser::{
    parse_turn_spec, turn_capture, turn_fr_prefix, turn_fr_suffix, turn_en_suffix, turn_es_prefix,
    parse_trade_spec, parse_group_invite_spec, invite_capture, invite_en_prefix, parse_pm_spec,
    pm_capture, pm_capture_with, pm_desde, pm_de, pm_from, clean_html_spec, extract_title_spec,
    replace_links_from, strip_tags_from, link_at, index_of_from, link_close, rev_find, parse_game_event_spec, EventView, turn_f,
    title_f, invite_f, trade_f, pm_f, nonblank,
};

verus! {

/// A name as the game writes it: not empty, on one line, and neither starting
/// nor ending with whitespace.
pub open spec fn plain_name(n: Seq<char>) -> bool {
    &&& n.len() > 0
    &&& no_nl(n)
    &&& !is_ws(n[0])
    &&& !is_ws(n.last())
}

/// A text that neither starts nor ends with whitespace is its own trim.
pub proof fn lemma_trim_id(s: Seq<char>)
    requires
        s.len() > 0,
        !is_ws(s[0]),
        !is_ws(s.last()),
    ensures
        trim(s) == s,
{
    assert(trim_start(s) == s);
    assert(trim_end(s) == s);
}

/// A literal occurs, case ignored, where it occurs exactly.
proof fn lemma_ci_at_exact(t: Seq<char>, at: int, lit: Seq<char>)
    requires
        0 <= at,
        at + lit.len() <= t.len(),
        t.subrange(at, at + lit.len()) == lit,
    ensures
        ci_at(t, at, lit),
{
    assert forall|j: int| 0 <= j < lit.len() implies ci_match(#[trigger] lit[j], t[at + j]) by {
        assert(t.subrange(at, at + lit.len())[j] == t[at + j]);
    }
}

/// French turn phrase: `C'est à <name> de jouer` reads back as `<name>`.
pub proof fn law_turn_fr(n: Seq<char>)
    requires
        plain_name(n),
    ensures
        parse_turn_spec(turn_fr_prefix() + n + turn_fr_suffix()) == Some(n),
{
    reveal_strlit("C'est à ");
    reveal_strlit(" de jouer");
    let p1 = turn_fr_prefix();
    let s1 = turn_fr_suffix();
    let t = p1 + n + s1;
    assert(t[0] == 'C');
    assert(t.last() == 'r');
    lemma_trim_id(t);
    assert(t.subrange(0, p1.len() as int) =~= p1);
    lemma_ci_at_exact(t, 0, p1);
    assert(t.subrange(t.len() - s1.len(), t.len() as int) =~= s1);
    lemma_ci_at_exact(t, t.len() - s1.len(), s1);
    assert(t.subrange(p1.len() as int, t.len() - s1.len()) =~= n);
    assert(turn_capture(t) == Some(n));
    lemma_trim_id(n);
}

/// English turn phrase: `<name> 's turn to play` reads back as `<name>`.
pub proof fn law_turn_en(n: Seq<char>)
    requires
        plain_name(n),
    ensures
        parse_turn_spec(n + turn_en_suffix()) == Some(n),
{
    reveal_strlit("C'est à ");
    reveal_strlit(" de jouer");
    reveal_strlit(" 's turn to play");
    let s1 = turn_fr_suffix();
    let s2 = turn_en_suffix();
    let t = n + s2;
    assert(t[0] == n[0]);
    assert(t.last() == 'y');
    lemma_trim_id(t);
    if t.len() >= s1.len() && ci_at(t, t.len() - s1.len(), s1) {
        assert(ci_match(s1[8], t[t.len() - s1.len() + 8]));
        assert(false);
    }
    assert(t.subrange(t.len() - s2.len(), t.len() as int) =~= s2);
    lemma_ci_at_exact(t, t.len() - s2.len(), s2);
    assert(t.subrange(0, t.len() - s2.len()) =~= n);
    assert(turn_capture(t) == Some(n));
    lemma_trim_id(n);
}

/// Spanish turn phrase: `le toca jugar a <name>` reads back as `<name>`,
/// unless the whole text also reads as the English phrase, which is tried first.
pub proof fn law_turn_es(n: Seq<char>)
    requires
        plain_name(n),
        !ci_at(
            turn_es_prefix() + n,
            (turn_es_prefix() + n).len() - turn_en_suffix().len(),
            turn_en_suffix(),
        ),
    ensures
        parse_turn_spec(turn_es_prefix() + n) == Some(n),
{
    reveal_strlit("C'est à ");
    reveal_strlit("le toca jugar a ");
    let p1 = turn_fr_prefix();
    let p3 = turn_es_prefix();
    let t = p3 + n;
    assert(t[0] == 'l');
    assert(t.last() == n.last());
    lemma_trim_id(t);
    if ci_at(t, 0, p1) {
        assert(ci_match(p1[0], t[0]));
        assert(false);
    }
    assert(t.subrange(0, p3.len() as int) =~= p3);
    lemma_ci_at_exact(t, 0, p3);
    assert(t.subrange(p3.len() as int, t.len() as int) =~= n);
    assert(turn_capture(t) == Some(n));
    lemma_trim_id(n);
}

/// A name of one word: not empty, without whitespace or apostrophes.
pub open spec fn word_name(n: Seq<char>) -> bool {
    &&& n.len() > 0
    &&& forall|i: int| 0 <= i < n.len() ==> !is_ws(#[trigger] n[i]) && n[i] != '\''
}

/// Every separator phrase starts with a space or an apostrophe.
proof fn lemma_sep_first(sep: Sep, t: Seq<char>, k: int)
    requires
        sep_at(sep, t, k),
    ensures
        0 <= k < t.len(),
        t[k] == ' ' || t[k] == '\'',
{
    reveal_strlit(" t'invite à rejoindre son groupe");
    reveal_strlit(" te invita a unirte a su grupo");
    reveal_strlit("'s group");
    reveal_strlit(" te propose de faire un échange");
    reveal_strlit(" offers a trade");
    reveal_strlit(" te propone realizar un intercambio");
    reveal_strlit(" : ");
    reveal_strlit(" - Dofus Retro v");
    match sep {
        Sep::Invite => {
            if ci_at(t, k, invite_fr()) {
                assert(ci_match(invite_fr()[0], t[k + 0]));
            } else {
                assert(ci_match(invite_es()[0], t[k + 0]));
            }
        },
        Sep::InviteEn => {
            assert(ci_match(invite_en_suffix()[0], t[k + 0]));
        },
        Sep::Trade => {
            if ci_at(t, k, trade_fr()) {
                assert(ci_match(trade_fr()[0], t[k + 0]));
            } else if ci_at(t, k, trade_en()) {
                assert(ci_match(trade_en()[0], t[k + 0]));
            } else {
                assert(ci_match(trade_es()[0], t[k + 0]));
            }
        },
        Sep::Pm => {
            assert(ci_match(pm_sep()[0], t[k + 0]));
        },
        Sep::Title => {
            assert(t.subrange(k, k + title_sep().len())[0] == t[k]);
        },
    }
}

/// A one-word name followed by a separator is what the lazy name field captures.
proof fn lemma_cut_after_word(sep: Sep, t: Seq<char>, start: int, k: int)
    requires
        0 <= start < k,
        word_name(t.subrange(start, k)),
        sep_at(sep, t, k),
    ensures
        cut(sep, t, start) == Some(k),
{
    let n = t.subrange(start, k);
    assert forall|j: int| start < j < k implies !sep_at(sep, t, j) by {
        if sep_at(sep, t, j) {
            lemma_sep_first(sep, t, j);
            assert(n[j - start] == t[j]);
            assert(!is_ws(n[j - start]));
        }
    }
    assert forall|i: int| 0 <= i < n.len() implies n[i] != '\n' by {
        assert(!is_ws(n[i]));
    }
    assert(is_cut(sep, t, start, k));
    lemma_cut_unique(sep, t, start, k);
}

/// A one-word name is a plain name.
proof fn lemma_word_plain(n: Seq<char>)
    requires
        word_name(n),
    ensures
        plain_name(n),
        trim(n) == n,
{
    assert(!is_ws(n[0]));
    assert(!is_ws(n[n.len() - 1]));
    assert forall|i: int| 0 <= i < n.len() implies n[i] != '\n' by {
        assert(!is_ws(n[i]));
    }
    lemma_trim_id(n);
}

/// A tail that does not end with whitespace.
pub open spec fn clean_tail(tail: Seq<char>) -> bool {
    tail.len() == 0 || !is_ws(tail.last())
}

/// Trade phrases: `<name> te propose de faire un échange…`, `<name> offers a
/// trade…` and `<name> te propone realizar un intercambio…` read back as `<name>`.
pub proof fn law_trade(n: Seq<char>, phrase: Seq<char>, tail: Seq<char>)
    requires
        word_name(n),
        phrase == trade_fr() || phrase == trade_en() || phrase == trade_es(),
        clean_tail(tail),
    ensures
        parse_trade_spec(n + phrase + tail) == Some(n),
{
    reveal_strlit(" te propose de faire un échange");
    reveal_strlit(" offers a trade");
    reveal_strlit(" te propone realizar un intercambio");
    let t = n + phrase + tail;
    lemma_word_plain(n);
    assert(t[0] == n[0]);
    if tail.len() == 0 {
        assert(t.last() == phrase.last());
    } else {
        assert(t.last() == tail.last());
    }
    lemma_trim_id(t);
    assert(t.subrange(n.len() as int, (n.len() + phrase.len()) as int) =~= phrase);
    lemma_ci_at_exact(t, n.len() as int, phrase);
    assert(sep_at(Sep::Trade, t, n.len() as int));
    assert(t.subrange(0, n.len() as int) =~= n);
    lemma_cut_after_word(Sep::Trade, t, 0, n.len() as int);
}

/// French and Spanish group-invite phrases: `<name> t'invite à rejoindre son
/// groupe…` and `<name> te invita a unirte a su grupo…` read back as `<name>`.
pub proof fn law_invite(n: Seq<char>, phrase: Seq<char>, tail: Seq<char>)
    requires
        word_name(n),
        phrase == invite_fr() || phrase == invite_es(),
        clean_tail(tail),
    ensures
        parse_group_invite_spec(n + phrase + tail) == Some(n),
{
    reveal_strlit(" t'invite à rejoindre son groupe");
    reveal_strlit(" te invita a unirte a su grupo");
    let t = n + phrase + tail;
    lemma_word_plain(n);
    assert(t[0] == n[0]);
    if tail.len() == 0 {
        assert(t.last() == phrase.last());
    } else {
        assert(t.last() == tail.last());
    }
    lemma_trim_id(t);
    assert(t.subrange(n.len() as int, (n.len() + phrase.len()) as int) =~= phrase);
    lemma_ci_at_exact(t, n.len() as int, phrase);
    assert(sep_at(Sep::Invite, t, n.len() as int));
    assert(t.subrange(0, n.len() as int) =~= n);
    lemma_cut_after_word(Sep::Invite, t, 0, n.len() as int);
    assert(invite_capture(t) == Some(n));
}

/// English group-invite phrase: `You are invited to join <name>'s group…`
/// reads back as `<name>` when the text holds no French or Spanish invite
/// phrase, which is tried first.
pub proof fn law_invite_en(n: Seq<char>, tail: Seq<char>)
    requires
        word_name(n),
        clean_tail(tail),
        forall|k: int| !sep_at(Sep::Invite, invite_en_prefix() + n + invite_en_suffix() + tail, k),
    ensures
        parse_group_invite_spec(invite_en_prefix() + n + invite_en_suffix() + tail) == Some(n),
{
    reveal_strlit("You are invited to join ");
    reveal_strlit("'s group");
    let p = invite_en_prefix();
    let sfx = invite_en_suffix();
    let t = p + n + sfx + tail;
    lemma_word_plain(n);
    assert(t[0] == 'Y');
    if tail.len() == 0 {
        assert(t.last() == 'p');
    } else {
        assert(t.last() == tail.last());
    }
    lemma_trim_id(t);
    if exists|k: int| is_cut(Sep::Invite, t, 0, k) {
        let k = choose|k: int| is_cut(Sep::Invite, t, 0, k);
        assert(sep_at(Sep::Invite, t, k));
    }
    assert(cut(Sep::Invite, t, 0) is None);
    assert(t.subrange(0, p.len() as int) =~= p);
    lemma_ci_at_exact(t, 0, p);
    let e: int = (p.len() + n.len()) as int;
    assert(t.subrange(e, e + sfx.len() as int) =~= sfx);
    lemma_ci_at_exact(t, e, sfx);
    assert(t.subrange(p.len() as int, e) =~= n);
    lemma_cut_after_word(Sep::InviteEn, t, p.len() as int, e);
    assert(invite_capture(t) == Some(n));
}

/// `s[i..]` holds no `<`.
pub open spec fn no_lt_from(s: Seq<char>, i: int) -> bool {
    forall|j: int| i <= j < s.len() ==> s[j] != '<'
}

proof fn lemma_links_identity(s: Seq<char>, i: int)
    requires
        0 <= i <= s.len(),
        no_lt_from(s, i),
    ensures
        replace_links_from(s, i) == s.subrange(i, s.len() as int),
    decreases s.len() - i,
{
    if i < s.len() {
        lemma_links_identity(s, i + 1);
        assert(seq![s[i]] + s.subrange(i + 1, s.len() as int) =~= s.subrange(i, s.len() as int));
    } else {
        assert(s.subrange(i, s.len() as int) =~= Seq::<char>::empty());
    }
}

proof fn lemma_tags_identity(s: Seq<char>, i: int)
    requires
        0 <= i <= s.len(),
        no_lt_from(s, i),
    ensures
        strip_tags_from(s, i) == s.subrange(i, s.len() as int),
    decreases s.len() - i,
{
    if i < s.len() {
        lemma_tags_identity(s, i + 1);
        assert(seq![s[i]] + s.subrange(i + 1, s.len() as int) =~= s.subrange(i, s.len() as int));
    } else {
        assert(s.subrange(i, s.len() as int) =~= Seq::<char>::empty());
    }
}

/// A message without any `<` holds no markup: cleaning it only trims it.
pub proof fn law_clean_html_plain(s: Seq<char>)
    requires
        no_lt_from(s, 0),
    ensures
        clean_html_spec(s) == trim(s),
{
    lemma_links_identity(s, 0);
    assert(s.subrange(0, s.len() as int) =~= s);
    lemma_tags_identity(s, 0);
}

/// The first `c` at or after `from` is at `j` when `s[j]` is `c` and nothing
/// between is.
proof fn lemma_index_of_from_is(s: Seq<char>, c: char, from: int, j: int)
    requires
        0 <= from <= j < s.len(),
        s[j] == c,
        forall|m: int| from <= m < j ==> s[m] != c,
    ensures
        index_of_from(s, c, from) == Some(j),
    decreases j - from,
{
    if from < j {
        lemma_index_of_from_is(s, c, from + 1, j);
    }
}

/// Replacing links passes over text without `<` unchanged.
proof fn lemma_links_pass(s: Seq<char>, i: int, p: int)
    requires
        0 <= i <= p <= s.len(),
        forall|j: int| i <= j < p ==> s[j] != '<',
    ensures
        replace_links_from(s, i) == s.subrange(i, p) + replace_links_from(s, p),
    decreases p - i,
{
    if i < p {
        lemma_links_pass(s, i + 1, p);
        assert(seq![s[i]] + s.subrange(i + 1, p) =~= s.subrange(i, p));
    } else {
        assert(s.subrange(i, p) =~= Seq::<char>::empty());
    }
}

/// Item links lose their markup: `pre<a …>item</a>post` cleans to
/// `pre item post` joined as they stand, trimmed, when the texts around hold
/// no `<` and the link's attributes no `>`.
pub proof fn law_clean_html_link(pre: Seq<char>, attrs: Seq<char>, item: Seq<char>, post: Seq<char>)
    requires
        no_lt_from(pre, 0),
        no_lt_from(item, 0),
        no_lt_from(post, 0),
        forall|i: int| 0 <= i < attrs.len() ==> attrs[i] != '>' && attrs[i] != '<',
    ensures
        clean_html_spec(pre + "<a "@ + attrs + ">"@ + item + link_close() + post) == trim(pre + item + post),
{
    reveal_strlit("<a ");
    reveal_strlit(">");
    reveal_strlit("</a>");
    let s = pre + "<a "@ + attrs + ">"@ + item + link_close() + post;
    let p = pre.len() as int;
    let j = p + 3 + attrs.len();
    let a = j + 1;
    let b = a + item.len();
    let e = b + 4;
    assert(s.len() == e + post.len());
    lemma_links_pass(s, 0, p);
    assert(s.subrange(0, p) =~= pre);
    assert(s[p] == '<' && s[p + 1] == 'a' && s[p + 2] == ' ');
    assert(s[j] == '>');
    assert forall|m: int| p + 3 <= m < j implies s[m] != '>' by {
        assert(s[m] == attrs[m - p - 3]);
    }
    lemma_index_of_from_is(s, '>', p + 3, j);
    assert(s[b] == '<');
    assert forall|m: int| a <= m < b implies s[m] != '<' by {
        assert(s[m] == item[m - a]);
    }
    lemma_index_of_from_is(s, '<', a, b);
    assert(s.subrange(b, b + 4) =~= link_close());
    assert(link_at(s, p) == Some((a, b, e)));
    assert(s.subrange(a, b) =~= item);
    assert forall|m: int| e <= m < s.len() implies s[m] != '<' by {
        assert(s[m] == post[m - e]);
    }
    lemma_links_pass(s, e, s.len() as int);
    assert(replace_links_from(s, s.len() as int) == Seq::<char>::empty());
    assert(s.subrange(e, s.len() as int) =~= post);
    let r = pre + item + post;
    assert(replace_links_from(s, 0) =~= r);
    assert forall|m: int| 0 <= m < r.len() implies r[m] != '<' by {
        if m < pre.len() {
            assert(r[m] == pre[m]);
        } else if m < pre.len() + item.len() {
            assert(r[m] == item[m - pre.len()]);
        } else {
            assert(r[m] == post[m - pre.len() - item.len()]);
        }
    }
    lemma_tags_identity(r, 0);
    assert(r.subrange(0, r.len() as int) =~= r);
}

/// Private-message phrases: `de <name> : <message>`, `from <name> : <message>`
/// and `desde <name> : <message>` read back as the sender and the message.
pub proof fn law_pm(p: Seq<char>, n: Seq<char>, m: Seq<char>)
    requires
        p == pm_desde() || p == pm_de() || p == pm_from(),
        word_name(n),
        plain_name(m),
        no_lt_from(m, 0),
    ensures
        parse_pm_spec(p + n + pm_sep() + m) == Some((n, m)),
{
    reveal_strlit("desde ");
    reveal_strlit("de ");
    reveal_strlit("from ");
    reveal_strlit(" : ");
    let t = p + n + pm_sep() + m;
    lemma_word_plain(n);
    lemma_trim_id(m);
    assert(t[0] == p[0]);
    assert(t.last() == m.last());
    lemma_trim_id(t);
    assert(t.subrange(0, p.len() as int) =~= p);
    lemma_ci_at_exact(t, 0, p);
    let k: int = (p.len() + n.len()) as int;
    assert(t.subrange(k, k + 3) =~= pm_sep());
    lemma_ci_at_exact(t, k, pm_sep());
    assert(t.subrange(k + 3, t.len() as int) =~= m);
    assert(sep_at(Sep::Pm, t, k));
    assert(t.subrange(p.len() as int, k) =~= n);
    lemma_cut_after_word(Sep::Pm, t, p.len() as int, k);
    assert(pm_capture_with(t, p) == Some((n, m)));
    if p != pm_desde() && ci_at(t, 0, pm_desde()) {
        if p == pm_de() {
            assert(ci_match(pm_desde()[2], t[2]));
        } else {
            assert(ci_match(pm_desde()[0], t[0]));
        }
        assert(false);
    }
    if p == pm_from() && ci_at(t, 0, pm_de()) {
        assert(ci_match(pm_de()[0], t[0]));
        assert(false);
    }
    assert(pm_capture(t) == Some((n, m)));
    law_clean_html_plain(m);
}

/// Window titles: `<name> - Dofus Retro v<version>` names `<name>`, for a
/// version made of digits and dots.
pub proof fn law_title(n: Seq<char>, version: Seq<char>)
    requires
        word_name(n),
        version.len() > 0,
        forall|i: int| 0 <= i < version.len() ==> is_decimal_digit(#[trigger] version[i]) || version[i] == '.',
    ensures
        extract_title_spec(n + title_sep() + version) == Some(n),
{
    reveal_strlit(" - Dofus Retro v");
    let t = n + title_sep() + version;
    lemma_word_plain(n);
    assert(t[0] == n[0]);
    assert(t.last() == version[version.len() - 1]);
    assert(is_decimal_digit(version[version.len() - 1]) || version[version.len() - 1] == '.');
    lemma_trim_id(t);
    let k = n.len() as int;
    assert(t.subrange(k, k + title_sep().len()) =~= title_sep());
    assert forall|i: int| k + title_sep().len() <= i < t.len() implies (is_decimal_digit(#[trigger] t[i])
        || t[i] == '.') by {
        assert(t[i] == version[i - k - title_sep().len()]);
    }
    assert(sep_at(Sep::Title, t, k));
    assert(t.subrange(0, k) =~= n);
    lemma_cut_after_word(Sep::Title, t, 0, k);
}

/// Some segment gives a value, so the search from the last segment finds one.
pub proof fn lemma_rev_find_some<X>(segs: Seq<Seq<char>>, f: spec_fn(Seq<char>) -> Option<X>, i: int)
    requires
        0 <= i < segs.len(),
        f(segs[i]) is Some,
    ensures
        rev_find(segs, f) is Some,
    decreases segs.len(),
{
    if f(segs.last()) is None {
        assert(i < segs.len() - 1);
        assert(segs.drop_last()[i] == segs[i]);
        lemma_rev_find_some(segs.drop_last(), f, i);
    }
}

/// No segment gives a value, so the search finds none.
pub proof fn lemma_rev_find_none<X>(segs: Seq<Seq<char>>, f: spec_fn(Seq<char>) -> Option<X>)
    requires
        forall|i: int| 0 <= i < segs.len() ==> (#[trigger] f(segs[i])) is None,
    ensures
        rev_find(segs, f) is None,
    decreases segs.len(),
{
    if segs.len() > 0 {
        assert(f(segs[segs.len() - 1]) is None);
        assert forall|i: int| 0 <= i < segs.drop_last().len() implies (#[trigger] f(segs.drop_last()[i])) is None by {
            assert(segs.drop_last()[i] == segs[i]);
            assert(f(segs[i]) is None);
        }
        lemma_rev_find_none(segs.drop_last(), f);
    }
}

/// Events are ranked turn first: when any segment announces a turn, the
/// notification is a turn.
pub proof fn law_turn_first(segs: Seq<Seq<char>>, i: int)
    requires
        0 <= i < segs.len(),
        parse_turn_spec(segs[i]) is Some,
    ensures
        parse_game_event_spec(segs) matches Some(EventView::Turn { .. }),
{
    assert(turn_f()(segs[i]) is Some);
    lemma_rev_find_some(segs, turn_f(), i);
}

/// Without a turn, a notification that names its receiver in a window title
/// and holds a group invite is a group invite, whatever else it holds.
pub proof fn law_invite_before_trade_and_pm(segs: Seq<Seq<char>>, title: int, invite: int)
    requires
        forall|i: int| 0 <= i < segs.len() ==> parse_turn_spec(#[trigger] segs[i]) is None,
        0 <= title < segs.len(),
        extract_title_spec(segs[title]) is Some,
        0 <= invite < segs.len(),
        parse_group_invite_spec(segs[invite]) is Some,
    ensures
        parse_game_event_spec(segs) matches Some(EventView::GroupInvite { .. }),
{
    assert forall|i: int| 0 <= i < segs.len() implies (#[trigger] turn_f()(segs[i])) is None by {
        assert(parse_turn_spec(segs[i]) is None);
    }
    lemma_rev_find_none(segs, turn_f());
    assert(title_f()(segs[title]) is Some);
    lemma_rev_find_some(segs, title_f(), title);
    assert(invite_f()(segs[invite]) is Some);
    lemma_rev_find_some(segs, invite_f(), invite);
}

/// Without a turn or a group invite, a notification that names its receiver
/// in a window title and holds a trade request is a trade request.
pub proof fn law_trade_before_pm(segs: Seq<Seq<char>>, title: int, trade: int)
    requires
        forall|i: int| 0 <= i < segs.len() ==> parse_turn_spec(#[trigger] segs[i]) is None,
        forall|i: int| 0 <= i < segs.len() ==> parse_group_invite_spec(#[trigger] segs[i]) is None,
        0 <= title < segs.len(),
        extract_title_spec(segs[title]) is Some,
        0 <= trade < segs.len(),
        parse_trade_spec(segs[trade]) is Some,
    ensures
        parse_game_event_spec(segs) matches Some(EventView::Trade { .. }),
{
    assert forall|i: int| 0 <= i < segs.len() implies (#[trigger] turn_f()(segs[i])) is None by {
        assert(parse_turn_spec(segs[i]) is None);
    }
    lemma_rev_find_none(segs, turn_f());
    assert forall|i: int| 0 <= i < segs.len() implies (#[trigger] invite_f()(segs[i])) is None by {
        assert(parse_group_invite_spec(segs[i]) is None);
    }
    lemma_rev_find_none(segs, invite_f());
    assert(title_f()(segs[title]) is Some);
    lemma_rev_find_some(segs, title_f(), title);
    assert(trade_f()(segs[trade]) is Some);
    lemma_rev_find_some(segs, trade_f(), trade);
}

/// Without a turn, a group invite or a trade request, a notification that
/// names its receiver in a window title and holds a private message is a
/// private message.
pub proof fn law_pm_last(segs: Seq<Seq<char>>, title: int, pm: int)
    requires
        forall|i: int| 0 <= i < segs.len() ==> parse_turn_spec(#[trigger] segs[i]) is None,
        forall|i: int| 0 <= i < segs.len() ==> parse_group_invite_spec(#[trigger] segs[i]) is None,
        forall|i: int| 0 <= i < segs.len() ==> parse_trade_spec(#[trigger] segs[i]) is None,
        0 <= title < segs.len(),
        extract_title_spec(segs[title]) is Some,
        0 <= pm < segs.len(),
        parse_pm_spec(segs[pm]) is Some,
    ensures
        parse_game_event_spec(segs) matches Some(EventView::PrivateMessage { .. }),
{
    assert forall|i: int| 0 <= i < segs.len() implies (#[trigger] turn_f()(segs[i])) is None by {
        assert(parse_turn_spec(segs[i]) is None);
    }
    lemma_rev_find_none(segs, turn_f());
    assert forall|i: int| 0 <= i < segs.len() implies (#[trigger] invite_f()(segs[i])) is None by {
        assert(parse_group_invite_spec(segs[i]) is None);
    }
    lemma_rev_find_none(segs, invite_f());
    assert forall|i: int| 0 <= i < segs.len() implies (#[trigger] trade_f()(segs[i])) is None by {
        assert(parse_trade_spec(segs[i]) is None);
    }
    lemma_rev_find_none(segs, trade_f());
    assert(title_f()(segs[title]) is Some);
    lemma_rev_find_some(segs, title_f(), title);
    assert(pm_f()(segs[pm]) is Some);
    lemma_rev_find_some(segs, pm_f(), pm);
}

/// What `nonblank` gives is trimmed and not empty.
proof fn lemma_nonblank(n: Seq<char>)
    ensures
        nonblank(n) matches Some(m) ==> m.len() > 0 && trim(m) == m,
{
    lemma_trim_idempotent(n);
}

/// Every name read from a notification or a window title is trimmed and not
/// empty, and so is the sender of a private message; its message is trimmed.
pub proof fn law_names_trimmed(text: Seq<char>)
    ensures
        parse_turn_spec(text) matches Some(n) ==> n.len() > 0 && trim(n) == n,
        parse_group_invite_spec(text) matches Some(n) ==> n.len() > 0 && trim(n) == n,
        parse_trade_spec(text) matches Some(n) ==> n.len() > 0 && trim(n) == n,
        extract_title_spec(text) matches Some(n) ==> n.len() > 0 && trim(n) == n,
        parse_pm_spec(text) matches Some((s, m)) ==> s.len() > 0 && trim(s) == s && trim(m) == m,
{
    let t = trim(text);
    if let Some(n) = turn_capture(t) {
        lemma_nonblank(n);
    }
    if let Some(n) = invite_capture(t) {
        lemma_nonblank(n);
    }
    if let Some(k) = cut(Sep::Trade, t, 0) {
        lemma_nonblank(t.subrange(0, k));
    }
    if let Some(k) = cut(Sep::Title, t, 0) {
        lemma_nonblank(t.subrange(0, k));
    }
    if let Some((s, m)) = pm_capture(t) {
        lemma_trim_idempotent(s);
        lemma_trim_idempotent(strip_tags_from(replace_links_from(trim(m), 0), 0));
    }
}

} // verus!
