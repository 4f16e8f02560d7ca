//! Laws of the account bookkeeping: what detecting windows keeps and adds,
//! what reordering moves, and where cycling lands.
use vstd::prelude::*;
use crate::text::{eq_ic, lemma_eq_ic_equiv};
use crate::search::{first_index, lemma_first_index, lemma_first_index_is};
use crate::platform::GameWindow;
use crate::state::{
    AccountProfile, AppState, add_profiles, with_principal, open_accounts, has_profile, has_window,
    window_index, window_named, profile_index, profile_named, profile_for, skipped, next_pred,
    prev_pred, cycle_next_index, cycle_prev_index, StoredMessage, TraceEntry, HotkeyBinding,
    BindingView, messages_after, traces_after, hotkeys_after_set, binding_index,
    binding_for, MESSAGE_CAP, MESSAGE_DRAIN, TRACE_CAP, merge_defaults, initial_bindings,
    default_bindings, synced_with_foreground, profiles_with_skipped, bindings_view, loaded_from,
    saved_from, Preferences, principal_window, language_of_locale, reordered, open_names,
};
use crate::text::ascii_lower;

verus! {

/// Detecting windows keeps the profiles there were, in their order: the old
/// profiles come first, unchanged but for the principal mark, which changes
/// only when no profile was principal.
pub proof fn lemma_add_profiles_prefix(ps: Seq<AccountProfile>, ws: Seq<GameWindow>)
    ensures
        add_profiles(ps, ws).len() >= ps.len(),
        forall|i: int| 0 <= i < ps.len() ==> #[trigger] add_profiles(ps, ws)[i] == ps[i],
    decreases ws.len(),
{
    if ws.len() > 0 {
        lemma_add_profiles_prefix(ps, ws.drop_last());
    }
}

/// Having a profile for a name survives appending profiles.
proof fn lemma_has_profile_prefix(q: Seq<AccountProfile>, r: Seq<AccountProfile>, name: Seq<char>)
    requires
        r.len() >= q.len(),
        forall|i: int| 0 <= i < q.len() ==> #[trigger] r[i] == q[i],
        has_profile(q, name),
    ensures
        has_profile(r, name),
{
    let i = choose|i: int| 0 <= i < q.len() && eq_ic(#[trigger] q[i].character_name@, name);
    assert(r[i] == q[i]);
}

/// After detection every detected character has a profile.
pub proof fn lemma_add_profiles_cover(ps: Seq<AccountProfile>, ws: Seq<GameWindow>)
    ensures
        forall|j: int| 0 <= j < ws.len() ==> has_profile(add_profiles(ps, ws), #[trigger] ws[j].character_name@),
    decreases ws.len(),
{
    if ws.len() > 0 {
        let q = add_profiles(ps, ws.drop_last());
        let r = add_profiles(ps, ws);
        lemma_add_profiles_cover(ps, ws.drop_last());
        assert(r.len() >= q.len() && forall|i: int| 0 <= i < q.len() ==> #[trigger] r[i] == q[i]);
        assert forall|j: int| 0 <= j < ws.len() implies has_profile(r, #[trigger] ws[j].character_name@) by {
            if j < ws.len() - 1 {
                assert(ws.drop_last()[j] == ws[j]);
                lemma_has_profile_prefix(q, r, ws[j].character_name@);
            } else if !has_profile(q, ws.last().character_name@) {
                lemma_eq_ic_equiv(ws.last().character_name@, ws.last().character_name@, ws.last().character_name@);
                assert(r[q.len() as int] == profile_for(ws.last()));
                assert(eq_ic(r[q.len() as int].character_name@, ws[j].character_name@));
            }
        }
    }
}

/// Marking a principal changes no name and no length.
proof fn lemma_with_principal_shape(ps: Seq<AccountProfile>)
    ensures
        with_principal(ps).len() == ps.len(),
        forall|i: int| 0 <= i < ps.len() ==> #[trigger] with_principal(ps)[i] == (AccountProfile {
            is_principal: with_principal(ps)[i].is_principal,
            ..ps[i]
        }),
        (exists|i: int| 0 <= i < ps.len() && (#[trigger] ps[i]).is_principal) ==> with_principal(ps) == ps,
        ps.len() > 0 ==> exists|i: int| 0 <= i < ps.len() && (#[trigger] with_principal(ps)[i]).is_principal,
{
    if ps.len() > 0 && !(exists|i: int| 0 <= i < ps.len() && (#[trigger] ps[i]).is_principal) {
        assert(with_principal(ps)[0].is_principal);
    }
    if ps.len() > 0 && (exists|i: int| 0 <= i < ps.len() && (#[trigger] ps[i]).is_principal) {
        let i = choose|i: int| 0 <= i < ps.len() && (#[trigger] ps[i]).is_principal;
        assert(with_principal(ps)[i].is_principal);
    }
}

/// Detecting windows keeps every profile there was, in place and in order;
/// only the principal mark of the first profile may be set, and only when no
/// profile was principal.
pub proof fn law_update_keeps_profiles(ps: Seq<AccountProfile>, ws: Seq<GameWindow>)
    ensures
        with_principal(add_profiles(ps, ws)).len() >= ps.len(),
        forall|i: int| 0 <= i < ps.len() ==> #[trigger] with_principal(add_profiles(ps, ws))[i] == (AccountProfile {
            is_principal: with_principal(add_profiles(ps, ws))[i].is_principal,
            ..ps[i]
        }),
        (exists|i: int| 0 <= i < ps.len() && (#[trigger] ps[i]).is_principal) ==> forall|i: int|
            0 <= i < ps.len() ==> #[trigger] with_principal(add_profiles(ps, ws))[i] == ps[i],
{
    let a = add_profiles(ps, ws);
    lemma_add_profiles_prefix(ps, ws);
    lemma_with_principal_shape(a);
    if exists|i: int| 0 <= i < ps.len() && (#[trigger] ps[i]).is_principal {
        let i = choose|i: int| 0 <= i < ps.len() && (#[trigger] ps[i]).is_principal;
        assert(a[i].is_principal);
    }
}

/// After detecting windows, every detected character has a profile, some
/// profile is principal when there is any, and every detected character is
/// among the open accounts.
pub proof fn law_update_covers_windows(ps: Seq<AccountProfile>, ws: Seq<GameWindow>)
    ensures
        forall|j: int| 0 <= j < ws.len() ==> has_profile(
            with_principal(add_profiles(ps, ws)),
            #[trigger] ws[j].character_name@,
        ),
        with_principal(add_profiles(ps, ws)).len() > 0 ==> exists|i: int|
            0 <= i < with_principal(add_profiles(ps, ws)).len() && (#[trigger] with_principal(
                add_profiles(ps, ws),
            )[i]).is_principal,
        forall|j: int| 0 <= j < ws.len() ==> has_window(
            open_accounts(add_profiles(ps, ws), ws),
            #[trigger] ws[j].character_name@,
        ),
{
    let a = add_profiles(ps, ws);
    let p = with_principal(a);
    lemma_add_profiles_cover(ps, ws);
    lemma_with_principal_shape(a);
    assert forall|j: int| 0 <= j < ws.len() implies has_profile(p, #[trigger] ws[j].character_name@) by {
        assert(has_profile(a, ws[j].character_name@));
        let k = choose|k: int| 0 <= k < a.len() && eq_ic(#[trigger] a[k].character_name@, ws[j].character_name@);
        assert(p[k].character_name == a[k].character_name);
    }
    assert forall|j: int| 0 <= j < ws.len() implies has_window(open_accounts(a, ws), #[trigger] ws[j].character_name@) by {
        let name = ws[j].character_name@;
        assert(has_profile(a, name));
        let k = choose|k: int| 0 <= k < a.len() && eq_ic(#[trigger] a[k].character_name@, name);
        lemma_eq_ic_equiv(a[k].character_name@, name, name);
        assert(window_named(ws, a[k].character_name@)(j));
        lemma_first_index(ws.len() as int, window_named(ws, a[k].character_name@));
        let i = window_index(ws, a[k].character_name@)->0;
        lemma_open_accounts_has(a, ws, k);
        let m = choose|m: int| 0 <= m < open_accounts(a, ws).len() && #[trigger] open_accounts(a, ws)[m] == ws[i];
        lemma_eq_ic_equiv(ws[i].character_name@, a[k].character_name@, name);
        assert(eq_ic(open_accounts(a, ws)[m].character_name@, name));
    }
}

/// The open accounts list the first window of every profile that has one.
proof fn lemma_open_accounts_has(ps: Seq<AccountProfile>, ws: Seq<GameWindow>, k: int)
    requires
        0 <= k < ps.len(),
        window_index(ws, ps[k].character_name@) is Some,
    ensures
        exists|m: int|
            0 <= m < open_accounts(ps, ws).len() && #[trigger] open_accounts(ps, ws)[m] == ws[window_index(
                ws,
                ps[k].character_name@,
            )->0],
    decreases ps.len(),
{
    let rest = open_accounts(ps.drop_last(), ws);
    let i = window_index(ws, ps[k].character_name@)->0;
    if k < ps.len() - 1 {
        assert(ps.drop_last()[k] == ps[k]);
        lemma_open_accounts_has(ps.drop_last(), ws, k);
        let m = choose|m: int| 0 <= m < rest.len() && #[trigger] rest[m] == ws[i];
        assert(open_accounts(ps, ws)[m] == ws[i]);
    } else {
        assert(open_accounts(ps, ws)[rest.len() as int] == ws[i]);
    }
}

/// `w` is one of the windows `ws`.
pub open spec fn is_detected(w: GameWindow, ws: Seq<GameWindow>) -> bool {
    exists|j: int| 0 <= j < ws.len() && ws[j] == w
}

/// Every open account is one of the detected windows.
pub proof fn law_accounts_are_detected(ps: Seq<AccountProfile>, ws: Seq<GameWindow>)
    ensures
        forall|m: int| 0 <= m < open_accounts(ps, ws).len() ==> is_detected(#[trigger] open_accounts(ps, ws)[m], ws),
    decreases ps.len(),
{
    if ps.len() > 0 {
        law_accounts_are_detected(ps.drop_last(), ws);
        let rest = open_accounts(ps.drop_last(), ws);
        assert forall|m: int| 0 <= m < open_accounts(ps, ws).len() implies is_detected(
            #[trigger] open_accounts(ps, ws)[m],
            ws,
        ) by {
            if m < rest.len() {
                assert(open_accounts(ps, ws)[m] == rest[m]);
                assert(is_detected(rest[m], ws));
            } else {
                let i = window_index(ws, ps.last().character_name@)->0;
                lemma_first_index(ws.len() as int, window_named(ws, ps.last().character_name@));
                assert(open_accounts(ps, ws)[m] == ws[i]);
            }
        }
    }
}

/// With a profile for every detected character, detection adds nothing.
proof fn lemma_add_profiles_covered(ps: Seq<AccountProfile>, ws: Seq<GameWindow>)
    requires
        forall|j: int| 0 <= j < ws.len() ==> has_profile(ps, #[trigger] ws[j].character_name@),
    ensures
        add_profiles(ps, ws) == ps,
    decreases ws.len(),
{
    if ws.len() > 0 {
        assert forall|j: int| 0 <= j < ws.drop_last().len() implies has_profile(ps, #[trigger] ws.drop_last()[j].character_name@) by {
            assert(ws.drop_last()[j] == ws[j]);
        }
        lemma_add_profiles_covered(ps, ws.drop_last());
        assert(has_profile(ps, ws[ws.len() - 1].character_name@));
    }
}

/// The open accounts depend on the profiles' names alone.
proof fn lemma_open_accounts_names(ps: Seq<AccountProfile>, qs: Seq<AccountProfile>, ws: Seq<GameWindow>)
    requires
        ps.len() == qs.len(),
        forall|i: int| 0 <= i < ps.len() ==> (#[trigger] ps[i]).character_name == qs[i].character_name,
    ensures
        open_accounts(ps, ws) == open_accounts(qs, ws),
    decreases ps.len(),
{
    if ps.len() > 0 {
        assert forall|i: int| 0 <= i < ps.drop_last().len() implies (#[trigger] ps.drop_last()[i]).character_name
            == qs.drop_last()[i].character_name by {
            assert(ps.drop_last()[i] == ps[i]);
            assert(qs.drop_last()[i] == qs[i]);
        }
        lemma_open_accounts_names(ps.drop_last(), qs.drop_last(), ws);
        assert(ps.last().character_name == qs.last().character_name);
    }
}

/// Detecting the same windows again changes nothing: no profile is added, the
/// profiles stay as they are, and the open accounts stay as they are.
pub proof fn law_update_idempotent(ps: Seq<AccountProfile>, ws: Seq<GameWindow>)
    ensures
        add_profiles(with_principal(add_profiles(ps, ws)), ws) == with_principal(add_profiles(ps, ws)),
        with_principal(add_profiles(with_principal(add_profiles(ps, ws)), ws)) == with_principal(
            add_profiles(ps, ws),
        ),
        open_accounts(add_profiles(with_principal(add_profiles(ps, ws)), ws), ws) == open_accounts(
            add_profiles(ps, ws),
            ws,
        ),
{
    let a = add_profiles(ps, ws);
    let p = with_principal(a);
    law_update_covers_windows(ps, ws);
    lemma_add_profiles_covered(p, ws);
    lemma_with_principal_shape(a);
    lemma_with_principal_shape(p);
    lemma_open_accounts_names(p, a, ws);
}

/// Moving a profile by dragging its account keeps the same profiles: the new
/// order is a permutation of the old one.
pub proof fn law_reorder_permutes(
    ps: Seq<AccountProfile>,
    accs: Seq<GameWindow>,
    name: Seq<char>,
    pos: int,
)
    requires
        crate::state::reordered(ps, accs, name, pos) is Some,
    ensures
        crate::state::reordered(ps, accs, name, pos)->0.to_multiset() == ps.to_multiset(),
        crate::state::reordered(ps, accs, name, pos)->0.len() == ps.len(),
{
    broadcast use vstd::seq_lib::group_to_multiset_ensures;
    broadcast use vstd::multiset::group_multiset_axioms;
    let src = profile_index(ps, name)->0;
    lemma_first_index(ps.len() as int, profile_named(ps, name));
    let rem = ps.remove(src);
    let ins = crate::state::reorder_target(rem, accs, pos)->0;
    lemma_reorder_target_in(rem, accs, pos);
    let q = rem.insert(ins, ps[src]);
    vstd::seq_lib::to_multiset_remove(ps, src);
    vstd::seq_lib::to_multiset_insert(rem, ins, ps[src]);
    vstd::seq_lib::to_multiset_contains(ps, ps[src]);
    assert(q.to_multiset() =~= ps.to_multiset());
}

/// The insertion point of a move lies within the remaining profiles.
proof fn lemma_reorder_target_in(rem: Seq<AccountProfile>, accs: Seq<GameWindow>, pos: int)
    ensures
        crate::state::reorder_target(rem, accs, pos) matches Some(ins) ==> 0 <= ins <= rem.len(),
{
    let open = crate::state::open_names(rem, accs);
    if pos < open.len() {
        lemma_first_index(rem.len() as int, profile_named(rem, open[pos]));
    }
}

/// The names of the non-skipped open profiles are profile names.
proof fn lemma_open_names_from(ps: Seq<AccountProfile>, accs: Seq<GameWindow>)
    ensures
        forall|m: int| 0 <= m < crate::state::open_names(ps, accs).len() ==> exists|k: int|
            0 <= k < ps.len() && (#[trigger] crate::state::open_names(ps, accs)[m]) == ps[k].character_name@,
    decreases ps.len(),
{
    if ps.len() > 0 {
        lemma_open_names_from(ps.drop_last(), accs);
        let rest = crate::state::open_names(ps.drop_last(), accs);
        assert forall|m: int| 0 <= m < crate::state::open_names(ps, accs).len() implies exists|k: int|
            0 <= k < ps.len() && (#[trigger] crate::state::open_names(ps, accs)[m]) == ps[k].character_name@ by {
            if m < rest.len() {
                let k = choose|k: int| 0 <= k < ps.drop_last().len() && (#[trigger] rest[m]) == ps.drop_last()[k].character_name@;
                assert(ps.drop_last()[k] == ps[k]);
            } else {
                assert(crate::state::open_names(ps, accs)[m] == ps[ps.len() - 1].character_name@);
            }
        }
    }
}

/// Dragging the account of any character that has a profile succeeds,
/// whatever position it is dropped at.
pub proof fn law_reorder_succeeds(
    ps: Seq<AccountProfile>,
    accs: Seq<GameWindow>,
    name: Seq<char>,
    pos: int,
)
    requires
        has_profile(ps, name),
        0 <= pos,
    ensures
        crate::state::reordered(ps, accs, name, pos) is Some,
{
    let k = choose|k: int| 0 <= k < ps.len() && eq_ic(#[trigger] ps[k].character_name@, name);
    assert(profile_named(ps, name)(k));
    lemma_first_index(ps.len() as int, profile_named(ps, name));
    let src = profile_index(ps, name)->0;
    let rem = ps.remove(src);
    let open = crate::state::open_names(rem, accs);
    if pos < open.len() {
        lemma_open_names_from(rem, accs);
        let j = choose|j: int| 0 <= j < rem.len() && open[pos] == rem[j].character_name@;
        lemma_eq_ic_equiv(open[pos], open[pos], open[pos]);
        assert(profile_named(rem, open[pos])(j));
        lemma_first_index(rem.len() as int, profile_named(rem, open[pos]));
    }
}

/// `x` taken modulo `n` lies in `0..n`.
proof fn lemma_mod_range(x: int, n: int)
    requires
        n > 0,
    ensures
        0 <= x % n < n,
{
    vstd::arithmetic::div_mod::lemma_mod_bound(x, n);
}

/// Position `a` is reached from `cur` by a forward offset in `1..=n`.
proof fn lemma_forward_offset(cur: int, a: int, n: int) -> (k: int)
    requires
        n > 0,
        0 <= a < n,
    ensures
        0 <= k < n,
        (cur + k + 1) % n == a,
{
    let d = a - cur - 1;
    let k = d % n;
    lemma_mod_range(d, n);
    vstd::arithmetic::div_mod::lemma_fundamental_div_mod(d, n);
    let q = d / n;
    assert(cur + k + 1 == n * (-q) + a) by (nonlinear_arith)
        requires
            d == n * q + k,
            d == a - cur - 1,
    ;
    vstd::arithmetic::div_mod::lemma_mod_multiples_vanish(-q, a, n);
    vstd::arithmetic::div_mod::lemma_small_mod(a as nat, n as nat);
    k
}

/// Position `a` is reached from `cur` by a backward offset in `1..=n`.
proof fn lemma_backward_offset(cur: int, a: int, n: int) -> (k: int)
    requires
        n > 0,
        0 <= a < n,
    ensures
        0 <= k < n,
        (cur + n - (k + 1)) % n == a,
{
    let d = cur + n - 1 - a;
    let k = d % n;
    lemma_mod_range(d, n);
    vstd::arithmetic::div_mod::lemma_fundamental_div_mod(d, n);
    let q = d / n;
    assert(cur + n - (k + 1) == n * q + a) by (nonlinear_arith)
        requires
            d == n * q + k,
            d == cur + n - 1 - a,
    ;
    vstd::arithmetic::div_mod::lemma_mod_multiples_vanish(q, a, n);
    vstd::arithmetic::div_mod::lemma_small_mod(a as nat, n as nat);
    k
}

/// Cycling forward lands on an open account; when some open account is not
/// skipped, it lands on one that is not skipped.
pub proof fn law_cycle_next_avoids_skipped(s: AppState, a: int)
    requires
        0 <= a < s.accounts@.len(),
    ensures
        0 <= cycle_next_index(s) < s.accounts@.len(),
        !skipped(s.profiles@, s.accounts@[a].character_name@) ==> !skipped(
            s.profiles@,
            s.accounts@[cycle_next_index(s)].character_name@,
        ),
{
    let n = s.accounts@.len() as int;
    let pred = next_pred(s);
    lemma_first_index(n, pred);
    lemma_mod_range(s.current_index + 1, n);
    if let Some(k0) = crate::search::first_index(n, pred) {
        lemma_mod_range(s.current_index + k0 + 1, n);
        assert(pred(k0));
    }
    if !skipped(s.profiles@, s.accounts@[a].character_name@) {
        let k = lemma_forward_offset(s.current_index as int, a, n);
        assert(pred(k));
    }
}

/// Cycling backward lands on an open account (from a position at most the
/// number of accounts); when some open account is not skipped, it lands on one
/// that is not skipped.
pub proof fn law_cycle_prev_avoids_skipped(s: AppState, a: int)
    requires
        0 <= a < s.accounts@.len(),
        s.current_index <= s.accounts@.len(),
    ensures
        0 <= cycle_prev_index(s) < s.accounts@.len(),
        !skipped(s.profiles@, s.accounts@[a].character_name@) ==> !skipped(
            s.profiles@,
            s.accounts@[cycle_prev_index(s)].character_name@,
        ),
{
    let n = s.accounts@.len() as int;
    let pred = prev_pred(s);
    lemma_first_index(n, pred);
    if let Some(k0) = crate::search::first_index(n, pred) {
        lemma_mod_range(s.current_index + n - (k0 + 1), n);
        assert(pred(k0));
    }
    if !skipped(s.profiles@, s.accounts@[a].character_name@) {
        let k = lemma_backward_offset(s.current_index as int, a, n);
        assert(pred(k));
    }
}

/// Shifting a residue shifts the value it stands for.
proof fn lemma_mod_shift(x: int, c: int, n: int)
    requires
        n > 0,
    ensures
        ((x % n) + c) % n == (x + c) % n,
{
    vstd::arithmetic::div_mod::lemma_fundamental_div_mod(x, n);
    let q = x / n;
    assert((x % n) + c == n * (-q) + (x + c)) by (nonlinear_arith)
        requires
            x == n * q + x % n,
    ;
    vstd::arithmetic::div_mod::lemma_mod_multiples_vanish(-q, x + c, n);
}

/// Cycling back undoes cycling forward: from an account that is not skipped,
/// moving to the next account and then to the previous one returns to it.
pub proof fn law_cycle_prev_undoes_next(s: AppState)
    requires
        s.current_index < s.accounts@.len(),
        !skipped(s.profiles@, s.accounts@[s.current_index as int].character_name@),
    ensures
        cycle_prev_index(AppState { current_index: cycle_next_index(s) as usize, ..s }) == s.current_index,
{
    let n = s.accounts@.len() as int;
    let cur = s.current_index as int;
    let pred = next_pred(s);
    lemma_first_index(n, pred);
    vstd::arithmetic::div_mod::lemma_mod_multiples_vanish(1, cur, n);
    vstd::arithmetic::div_mod::lemma_small_mod(cur as nat, n as nat);
    assert(pred(n - 1));
    let k0 = first_index(n, pred)->0;
    let j = (cur + k0 + 1) % n;
    lemma_mod_range(cur + k0 + 1, n);
    let s2 = AppState { current_index: j as usize, ..s };
    assert(s.accounts.len() == n);
    assert(s2.current_index as int == j);
    let back = prev_pred(s2);
    assert forall|m: int| 0 <= m < k0 implies !#[trigger] back(m) by {
        lemma_mod_shift(cur + k0 + 1, n - (m + 1), n);
        let o = k0 - m - 1;
        vstd::arithmetic::div_mod::lemma_mod_multiples_vanish(1, cur + o + 1, n);
        assert(cur + k0 + 1 + (n - (m + 1)) == n * 1 + (cur + o + 1));
        assert(!pred(o));
    }
    lemma_mod_shift(cur + k0 + 1, n - (k0 + 1), n);
    assert(cur + k0 + 1 + (n - (k0 + 1)) == n * 1 + cur);
    assert(back(k0));
    crate::search::lemma_first_index_is(n, back, k0);
}

/// The stored messages never exceed the cap: storing one keeps at most 500,
/// the newest last, and what is kept is the most recent part of the history.
pub proof fn law_message_cap(msgs: Seq<StoredMessage>, m: StoredMessage)
    requires
        msgs.len() <= MESSAGE_CAP,
    ensures
        messages_after(msgs, m).len() <= MESSAGE_CAP,
        messages_after(msgs, m).last() == m,
        exists|d: int| 0 <= d <= msgs.len() && messages_after(msgs, m) == #[trigger] msgs.push(m).skip(d),
        msgs.len() < MESSAGE_CAP ==> messages_after(msgs, m) == msgs.push(m),
{
    if msgs.len() + 1 > MESSAGE_CAP {
        assert(msgs.push(m).skip(MESSAGE_DRAIN as int) == msgs.push(m).skip(MESSAGE_DRAIN as int));
    } else {
        assert(msgs.push(m).skip(0) =~= msgs.push(m));
    }
}

/// The traces never exceed the cap: recording one keeps at most 100, the
/// newest last, and what is kept is the most recent part of the history.
pub proof fn law_trace_cap(ts: Seq<TraceEntry>, e: TraceEntry)
    requires
        ts.len() <= TRACE_CAP,
    ensures
        traces_after(ts, e).len() <= TRACE_CAP,
        traces_after(ts, e).last() == e,
        exists|d: int| 0 <= d <= ts.len() && traces_after(ts, e) == #[trigger] ts.push(e).skip(d),
{
    if ts.len() >= TRACE_CAP {
        assert(ts.drop_first().push(e) =~= ts.push(e).skip(1));
    } else {
        assert(ts.push(e).skip(0) =~= ts.push(e));
    }
}

/// Binding a key to an action reads back: afterwards the first binding of the
/// action is the new one, bindings of other actions are unchanged, and at
/// most one binding is added.
pub proof fn law_set_hotkey_reads_back(hs: Seq<HotkeyBinding>, b: BindingView)
    ensures
        ({
            let after = hotkeys_after_set(hs, b);
            &&& exists|i: int|
                0 <= i < after.len() && #[trigger] after[i] == b && forall|j: int|
                    0 <= j < i ==> (#[trigger] after[j]).action != b.action
            &&& hs.len() <= after.len() <= hs.len() + 1
            &&& forall|j: int| 0 <= j < hs.len() && (#[trigger] hs[j]).action@ != b.action ==> after[j] == hs[j]@
        }),
{
    let after = hotkeys_after_set(hs, b);
    crate::search::lemma_first_index(hs.len() as int, binding_for(hs, b.action));
    match binding_index(hs, b.action) {
        Some(i) => {
            assert(after[i] == b);
            assert forall|j: int| 0 <= j < i implies (#[trigger] after[j]).action != b.action by {
                assert(!binding_for(hs, b.action)(j));
            }
        },
        None => {
            let i = hs.len() as int;
            assert(after[i] == b);
            assert forall|j: int| 0 <= j < i implies (#[trigger] after[j]).action != b.action by {
                assert(!binding_for(hs, b.action)(j));
            }
        },
    }
}

/// Merging defaults keeps the bindings there were, first and in order, and
/// binds every action of the defaults.
proof fn lemma_merge_defaults(base: Seq<BindingView>, defaults: Seq<BindingView>)
    ensures
        merge_defaults(base, defaults).len() >= base.len(),
        forall|i: int| 0 <= i < base.len() ==> #[trigger] merge_defaults(base, defaults)[i] == base[i],
        forall|d: int| 0 <= d < defaults.len() ==> exists|i: int|
            0 <= i < merge_defaults(base, defaults).len() && (#[trigger] merge_defaults(base, defaults)[i]).action
                == (#[trigger] defaults[d]).action,
    decreases defaults.len(),
{
    if defaults.len() > 0 {
        let m = merge_defaults(base, defaults.drop_last());
        let r = merge_defaults(base, defaults);
        lemma_merge_defaults(base, defaults.drop_last());
        assert forall|d: int| 0 <= d < defaults.len() implies exists|i: int|
            0 <= i < r.len() && (#[trigger] r[i]).action == (#[trigger] defaults[d]).action by {
            if d < defaults.len() - 1 {
                assert(defaults.drop_last()[d] == defaults[d]);
                let i = choose|i: int| 0 <= i < m.len() && (#[trigger] m[i]).action == defaults.drop_last()[d].action;
                assert(r[i] == m[i]);
            } else if exists|i: int| 0 <= i < m.len() && (#[trigger] m[i]).action == defaults.last().action {
                let i = choose|i: int| 0 <= i < m.len() && (#[trigger] m[i]).action == defaults.last().action;
                assert(r[i] == m[i]);
            } else {
                assert(r[m.len() as int] == defaults.last());
            }
        }
    }
}

/// A state built from saved preferences keeps the saved bindings first and in
/// order, and has a binding for every default action (previous, next,
/// principal, radial).
pub proof fn law_initial_bindings(saved: Seq<BindingView>)
    ensures
        forall|i: int| 0 <= i < saved.len() ==> #[trigger] initial_bindings(saved)[i] == saved[i],
        forall|d: int| 0 <= d < default_bindings().len() ==> exists|i: int|
            0 <= i < initial_bindings(saved).len() && (#[trigger] initial_bindings(saved)[i]).action
                == (#[trigger] default_bindings()[d]).action,
{
    let base = if saved.len() == 0 { default_bindings() } else { saved };
    lemma_merge_defaults(base, default_bindings());
    let r = initial_bindings(saved);
    assert(r == merge_defaults(base, default_bindings()));
    assert forall|d: int| 0 <= d < default_bindings().len() implies exists|i: int|
        0 <= i < r.len() && (#[trigger] r[i]).action == (#[trigger] default_bindings()[d]).action by {
        let dd = default_bindings()[d];
        let i = choose|i: int| 0 <= i < r.len() && (#[trigger] r[i]).action == dd.action;
        assert(r[i].action == dd.action);
    }
}

/// `b` binds every action that has a default binding.
pub open spec fn binds_every_default(b: Seq<BindingView>) -> bool {
    forall|d: int| 0 <= d < default_bindings().len() ==> exists|i: int|
        0 <= i < b.len() && (#[trigger] b[i]).action == (#[trigger] default_bindings()[d]).action
}

/// `b` has a binding for `action`.
pub open spec fn binds(b: Seq<BindingView>, action: Seq<char>) -> bool {
    exists|i: int| 0 <= i < b.len() && (#[trigger] b[i]).action == action
}

/// Merging defaults into bindings that already bind each of their actions
/// changes nothing.
proof fn lemma_merge_covered(base: Seq<BindingView>, defaults: Seq<BindingView>)
    requires
        forall|d: int| 0 <= d < defaults.len() ==> binds(base, (#[trigger] defaults[d]).action),
    ensures
        merge_defaults(base, defaults) == base,
    decreases defaults.len(),
{
    if defaults.len() > 0 {
        let rest = defaults.drop_last();
        assert forall|d: int| 0 <= d < rest.len() implies binds(base, (#[trigger] rest[d]).action) by {
            assert(rest[d] == defaults[d]);
        }
        lemma_merge_covered(base, rest);
        let last = defaults.len() - 1;
        assert(defaults[last] == defaults.last());
        assert(binds(base, defaults[last].action));
    }
}

/// Saving the preferences and starting again from them restores every saved
/// setting and profile; the bindings come back as they were whenever every
/// default action is bound, and otherwise come back completed with the
/// defaults, so that a second save and start changes nothing.
pub proof fn law_preferences_round_trip(s: AppState, p: Preferences, r: AppState)
    requires
        saved_from(p, s),
        loaded_from(r, p),
    ensures
        r.autoswitch_enabled == s.autoswitch_enabled,
        r.group_invite_enabled == s.group_invite_enabled,
        r.trade_enabled == s.trade_enabled,
        r.pm_enabled == s.pm_enabled,
        r.auto_accept_enabled == s.auto_accept_enabled,
        r.show_debug == s.show_debug,
        r.profiles@ == s.profiles@,
        r.language == s.language,
        r.theme == s.theme,
        r.update_check_consent == s.update_check_consent,
        r.close_to_tray == s.close_to_tray,
        r.close_behavior_prompted == s.close_behavior_prompted,
        r.taskbar_ungroup_enabled == s.taskbar_ungroup_enabled,
        binds_every_default(bindings_view(r.hotkeys@)),
        binds_every_default(bindings_view(s.hotkeys@)) ==> bindings_view(r.hotkeys@) == bindings_view(
            s.hotkeys@,
        ),
        initial_bindings(bindings_view(r.hotkeys@)) == bindings_view(r.hotkeys@),
{
    let saved = bindings_view(s.hotkeys@);
    assert(bindings_view(p.hotkeys@) == saved);
    law_initial_bindings(saved);
    let got = initial_bindings(saved);
    assert(bindings_view(r.hotkeys@) == got);
    assert(got.len() > 0) by {
        assert(default_bindings().len() > 0);
        let i = choose|i: int| 0 <= i < got.len() && (#[trigger] got[i]).action == (#[trigger] default_bindings()[0]).action;
    }
    assert forall|d: int| 0 <= d < default_bindings().len() implies binds(got, (#[trigger] default_bindings()[d]).action) by {
        let i = choose|i: int| 0 <= i < got.len() && (#[trigger] got[i]).action == (#[trigger] default_bindings()[d]).action;
        assert(got[i].action == default_bindings()[d].action);
    }
    lemma_merge_covered(got, default_bindings());
    if binds_every_default(saved) {
        assert forall|d: int| 0 <= d < default_bindings().len() implies binds(saved, (#[trigger] default_bindings()[d]).action) by {
            let i = choose|i: int| 0 <= i < saved.len() && (#[trigger] saved[i]).action == (#[trigger] default_bindings()[d]).action;
            assert(saved[i].action == default_bindings()[d].action);
        }
        assert(saved.len() > 0) by {
            let i = choose|i: int| 0 <= i < saved.len() && (#[trigger] saved[i]).action == (#[trigger] default_bindings()[0]).action;
        }
        lemma_merge_covered(saved, default_bindings());
    }
}

/// The principal lookup (F3) picks the window of the first principal profile
/// when that account is open, and otherwise falls back to the first open
/// account: it finds an account exactly when one is open, and what it finds is
/// one of the open accounts.
pub proof fn law_principal_falls_back(ps: Seq<AccountProfile>, ws: Seq<GameWindow>)
    ensures
        principal_window(ps, ws) is Some <==> ws.len() > 0,
        principal_window(ps, ws) matches Some(w) ==> exists|j: int| 0 <= j < ws.len() && ws[j] == w,
        forall|k: int|
            0 <= k < ps.len() && #[trigger] ps[k].is_principal && (forall|i: int| 0 <= i < k ==> !ps[i].is_principal)
                ==> if has_window(ws, ps[k].character_name@) {
                principal_window(ps, ws) matches Some(w) && eq_ic(w.character_name@, ps[k].character_name@)
            } else {
                ws.len() > 0 ==> principal_window(ps, ws) == Some(ws[0])
            },
        (forall|i: int| 0 <= i < ps.len() ==> !ps[i].is_principal) ==> (ws.len() > 0 ==> principal_window(
            ps,
            ws,
        ) == Some(ws[0])),
{
    let pp = crate::state::principal_pred(ps);
    lemma_first_index(ps.len() as int, pp);
    match first_index(ps.len() as int, pp) {
        Some(k) => {
            let wn = window_named(ws, ps[k].character_name@);
            lemma_first_index(ws.len() as int, wn);
            assert forall|k2: int|
                0 <= k2 < ps.len() && #[trigger] ps[k2].is_principal && (forall|i: int| 0 <= i < k2 ==> !ps[i].is_principal)
                    implies k2 == k by {
                if k2 < k {
                    assert(!pp(k2));
                } else if k < k2 {
                    assert(pp(k));
                }
            }
            match first_index(ws.len() as int, wn) {
                Some(j) => {
                    assert(wn(j));
                },
                None => {
                    assert forall|i: int| 0 <= i < ws.len() implies !eq_ic(
                        #[trigger] ws[i].character_name@,
                        ps[k].character_name@,
                    ) by {
                        assert(!wn(i));
                    }
                },
            }
            assert(pp(k));
        },
        None => {
            assert forall|k2: int| 0 <= k2 < ps.len() implies !#[trigger] ps[k2].is_principal by {
                assert(!pp(k2));
            }
        },
    }
}

/// A locale with its ASCII letters in lower case.
pub open spec fn lowercase_locale(s: Seq<char>) -> Seq<char> {
    s.map_values(|c: char| ascii_lower(c))
}

/// The interface language ignores the case of the locale, and is French for a
/// locale starting with `fr`, Spanish for one starting with `es`, English
/// otherwise.
pub proof fn law_language_ignores_case(s: Seq<char>)
    ensures
        language_of_locale(s) == language_of_locale(lowercase_locale(s)),
        ({
            let low = lowercase_locale(s);
            &&& low.len() >= 2 && low[0] == 'f' && low[1] == 'r' ==> language_of_locale(s) == "fr"@
            &&& low.len() >= 2 && low[0] == 'e' && low[1] == 's' ==> language_of_locale(s) == "es"@
            &&& !(low.len() >= 2 && low[0] == 'f' && low[1] == 'r') && !(low.len() >= 2 && low[0] == 'e'
                && low[1] == 's') ==> language_of_locale(s) == "en"@
        }),
{
    let low = lowercase_locale(s);
    if s.len() >= 2 {
        assert(low[0] == ascii_lower(s[0]));
        assert(low[1] == ascii_lower(s[1]));
        assert(ascii_lower(low[0]) == low[0]);
        assert(ascii_lower(low[1]) == low[1]);
    }
}

/// A profile that appears as an open account: not skipped, with a window open
/// for its character.
pub open spec fn open_account(accs: Seq<GameWindow>) -> spec_fn(AccountProfile) -> bool {
    |p: AccountProfile|
        !p.is_skipped && exists|j: int| 0 <= j < accs.len() && eq_ic(#[trigger] accs[j].character_name@, p.character_name@)
}

/// No two profiles are for the same character (ASCII case ignored).
pub open spec fn names_distinct(ps: Seq<AccountProfile>) -> bool {
    forall|i: int, j: int| 0 <= i < j < ps.len() ==> !eq_ic(#[trigger] ps[i].character_name@, #[trigger] ps[j].character_name@)
}

/// The `k`-th element that `p` keeps sits in `s` after exactly `k` kept elements.
proof fn lemma_filter_position<A>(s: Seq<A>, p: spec_fn(A) -> bool, k: int)
    requires
        0 <= k < s.filter(p).len(),
    ensures
        exists|q: int| 0 <= q < s.len() && s[q] == s.filter(p)[k] && #[trigger] s.take(q).filter(p).len() == k,
    decreases s.len(),
{
    reveal(Seq::filter);
    let d = s.drop_last();
    let fd = d.filter(p);
    if p(s.last()) && k == fd.len() {
        let q = s.len() - 1;
        assert(s.take(q) =~= d);
        assert(s[q] == s.filter(p)[k]);
    } else {
        assert(k < fd.len());
        assert(s.filter(p)[k] == fd[k]);
        lemma_filter_position(d, p, k);
        let q = choose|q: int| 0 <= q < d.len() && d[q] == fd[k] && #[trigger] d.take(q).filter(p).len() == k;
        assert(s.take(q) =~= d.take(q));
        assert(s[q] == d[q]);
    }
}

/// The names of the open accounts, in profile order, are those of the
/// profiles that `open_account` keeps.
proof fn lemma_open_names_filter(ps: Seq<AccountProfile>, accs: Seq<GameWindow>)
    ensures
        open_names(ps, accs) == ps.filter(open_account(accs)).map_values(|p: AccountProfile| p.character_name@),
    decreases ps.len(),
{
    reveal(Seq::filter);
    if ps.len() > 0 {
        lemma_open_names_filter(ps.drop_last(), accs);
        let f = ps.drop_last().filter(open_account(accs));
        let m = |p: AccountProfile| p.character_name@;
        if open_account(accs)(ps.last()) {
            assert(f.push(ps.last()).map_values(m) =~= f.map_values(m).push(ps.last().character_name@));
        }
    }
}

/// In profiles without duplicate names, the profile found for the name of the
/// `q`-th profile is the `q`-th.
proof fn lemma_profile_index_distinct(ps: Seq<AccountProfile>, q: int, name: Seq<char>)
    requires
        names_distinct(ps),
        0 <= q < ps.len(),
        eq_ic(ps[q].character_name@, name),
    ensures
        profile_index(ps, name) == Some(q),
{
    assert forall|j: int| 0 <= j < q implies !#[trigger] profile_named(ps, name)(j) by {
        lemma_eq_ic_equiv(ps[j].character_name@, name, ps[q].character_name@);
        lemma_eq_ic_equiv(ps[q].character_name@, name, ps[j].character_name@);
        lemma_eq_ic_equiv(name, ps[q].character_name@, ps[j].character_name@);
    }
    lemma_first_index_is(ps.len() as int, profile_named(ps, name), q);
}

/// Dragging an account to visual position `pos` puts it there: counted among
/// the accounts shown (not skipped, with an open window), exactly `pos` of
/// them come before it in the new order, and the other profiles keep their
/// order. This holds for every position below the number of the other shown
/// accounts, when no two profiles share a name; `k` is where the profile lands.
pub proof fn law_reorder_lands_at_position(
    ps: Seq<AccountProfile>,
    accs: Seq<GameWindow>,
    src: int,
    name: Seq<char>,
    pos: int,
) -> (k: int)
    requires
        names_distinct(ps),
        0 <= src < ps.len(),
        eq_ic(ps[src].character_name@, name),
        0 <= pos < ps.remove(src).filter(open_account(accs)).len(),
    ensures
        reordered(ps, accs, name, pos) is Some,
        ({
            let after = reordered(ps, accs, name, pos)->0;
            &&& 0 <= k < after.len()
            &&& after[k] == ps[src]
            &&& after.take(k).filter(open_account(accs)).len() == pos
            &&& after.remove(k) == ps.remove(src)
        }),
{
    let vis = open_account(accs);
    lemma_profile_index_distinct(ps, src, name);
    let rem = ps.remove(src);
    assert forall|i: int, j: int| 0 <= i < j < rem.len() implies !eq_ic(
        #[trigger] rem[i].character_name@,
        #[trigger] rem[j].character_name@,
    ) by {
        let i2 = if i < src { i } else { i + 1 };
        let j2 = if j < src { j } else { j + 1 };
        assert(rem[i] == ps[i2]);
        assert(rem[j] == ps[j2]);
    }
    let f = rem.filter(vis);
    lemma_open_names_filter(rem, accs);
    let open = open_names(rem, accs);
    assert(open.len() == f.len());
    assert(open[pos] == f[pos].character_name@);
    lemma_filter_position(rem, vis, pos);
    let q = choose|q: int| 0 <= q < rem.len() && rem[q] == f[pos] && #[trigger] rem.take(q).filter(vis).len() == pos;
    lemma_eq_ic_equiv(rem[q].character_name@, rem[q].character_name@, rem[q].character_name@);
    lemma_profile_index_distinct(rem, q, open[pos]);
    let after = rem.insert(q, ps[src]);
    assert(reordered(ps, accs, name, pos) == Some(after));
    assert(after[q] == ps[src]);
    assert(after.take(q) =~= rem.take(q));
    assert(after.take(q).filter(vis).len() == pos);
    assert(after.remove(q) =~= rem);
    q
}

/// Following the same foreground window twice changes nothing the second time.
pub proof fn law_sync_focus_once(s: AppState, fg: u64)
    ensures
        synced_with_foreground(synced_with_foreground(s, fg).0, fg) == (
            synced_with_foreground(s, fg).0,
            None::<Seq<char>>,
        ),
{
}

/// Which profile is found for a name depends on the profiles' names alone.
proof fn lemma_profile_index_names(ps: Seq<AccountProfile>, qs: Seq<AccountProfile>, name: Seq<char>)
    requires
        ps.len() == qs.len(),
        forall|i: int| 0 <= i < ps.len() ==> (#[trigger] ps[i]).character_name == qs[i].character_name,
    ensures
        profile_index(ps, name) == profile_index(qs, name),
{
    let n = ps.len() as int;
    lemma_first_index(n, profile_named(ps, name));
    lemma_first_index(n, profile_named(qs, name));
    match profile_index(ps, name) {
        Some(k) => {
            assert forall|j: int| 0 <= j < k implies !#[trigger] profile_named(qs, name)(j) by {
                assert(!profile_named(ps, name)(j));
            }
            assert(profile_named(qs, name)(k));
            crate::search::lemma_first_index_is(n, profile_named(qs, name), k);
        },
        None => {
            assert forall|j: int| 0 <= j < n implies !#[trigger] profile_named(qs, name)(j) by {
                assert(!profile_named(ps, name)(j));
            }
            crate::search::lemma_first_index_none(n, profile_named(qs, name));
        },
    }
}

/// Marking a character skipped reads back: afterwards it is skipped exactly
/// as marked, and every character whose profile is another one is unaffected.
pub proof fn law_set_skipped_reads_back(ps: Seq<AccountProfile>, name: Seq<char>, b: bool, other: Seq<char>)
    requires
        has_profile(ps, name),
    ensures
        skipped(profiles_with_skipped(ps, name, b), name) == b,
        profile_index(ps, other) != profile_index(ps, name) ==> skipped(profiles_with_skipped(ps, name, b), other)
            == skipped(ps, other),
{
    let k = choose|k: int| 0 <= k < ps.len() && eq_ic(#[trigger] ps[k].character_name@, name);
    assert(profile_named(ps, name)(k));
    lemma_first_index(ps.len() as int, profile_named(ps, name));
    let q = profiles_with_skipped(ps, name, b);
    lemma_profile_index_names(ps, q, name);
    lemma_profile_index_names(ps, q, other);
}

} // verus!
