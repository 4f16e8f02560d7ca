//! Windows taskbar bookkeeping: the application id that ungroups each game
//! window, which windows still need one, which remembered windows are gone,
//! and which buttons take part in a reordering.
use vstd::prelude::*;
use std::collections::HashSet;
use crate::platform::GameWindow;
use crate::text::{chars_of, string_from};
use crate::parser::append_chars;

verus! {

broadcast use vstd::std_specs::hash::group_hash_axioms;

/// The application id prefix of the game windows.
pub open spec fn aumid_prefix() -> Seq<char> {
    "focusretro.dofus."@
}

/// The application id that gives `name`'s window a taskbar group of its own.
pub fn aumid_for(name: &str) -> (r: String)
    ensures
        r@ == aumid_prefix() + name@,
{
    let mut v = chars_of("focusretro.dofus.");
    let n = chars_of(name);
    append_chars(&mut v, &n);
    string_from(&v)
}

/// The taskbar handle of a window.
pub open spec fn handle_of(w: GameWindow) -> isize {
    w.window_id as isize
}

/// Some window of `ws` has handle `h`.
pub open spec fn has_handle(ws: Seq<GameWindow>, h: isize) -> bool {
    exists|i: int| 0 <= i < ws.len() && handle_of(#[trigger] ws[i]) == h
}

/// The windows of `ws` whose handle satisfies `keep`, in order.
pub open spec fn windows_with(ws: Seq<GameWindow>, keep: spec_fn(isize) -> bool) -> Seq<GameWindow>
    decreases ws.len(),
{
    if ws.len() == 0 {
        Seq::empty()
    } else if keep(handle_of(ws.last())) {
        windows_with(ws.drop_last(), keep).push(ws.last())
    } else {
        windows_with(ws.drop_last(), keep)
    }
}

/// The handles of `hs` that satisfy `keep`, in order.
pub open spec fn handles_with(hs: Seq<isize>, keep: spec_fn(isize) -> bool) -> Seq<isize>
    decreases hs.len(),
{
    if hs.len() == 0 {
        Seq::empty()
    } else if keep(hs.last()) {
        handles_with(hs.drop_last(), keep).push(hs.last())
    } else {
        handles_with(hs.drop_last(), keep)
    }
}

fn window_handle(w: &GameWindow) -> (r: isize)
    ensures
        r == handle_of(*w),
{
    w.window_id as isize
}

fn has_handle_exec(ws: &[GameWindow], h: isize) -> (r: bool)
    ensures
        r == has_handle(ws@, h),
{
    let mut i: usize = 0;
    while i < ws.len()
        invariant
            i <= ws.len(),
            forall|j: int| 0 <= j < i ==> handle_of(#[trigger] ws@[j]) != h,
        decreases ws.len() - i,
    {
        if window_handle(&ws[i]) == h {
            return true;
        }
        i += 1;
    }
    false
}

/// The remembered handles whose window is no longer among `windows`, in the
/// order given.
pub fn stale_handles(remembered: &[isize], windows: &[GameWindow]) -> (r: Vec<isize>)
    ensures
        r@ == handles_with(remembered@, |h: isize| !has_handle(windows@, h)),
{
    let ghost keep = |h: isize| !has_handle(windows@, h);
    let mut out: Vec<isize> = Vec::new();
    let mut i: usize = 0;
    while i < remembered.len()
        invariant
            i <= remembered.len(),
            keep == (|h: isize| !has_handle(windows@, h)),
            out@ == handles_with(remembered@.take(i as int), keep),
        decreases remembered.len() - i,
    {
        assert(remembered@.take(i + 1).drop_last() =~= remembered@.take(i as int));
        if !has_handle_exec(windows, remembered[i]) {
            out.push(remembered[i]);
        }
        i += 1;
    }
    assert(remembered@.take(remembered.len() as int) =~= remembered@);
    out
}

/// The windows that have no application id yet (not in `done`), in order.
pub fn windows_needing_id(windows: &[GameWindow], done: &HashSet<isize>) -> (r: Vec<GameWindow>)
    ensures
        r@ == windows_with(windows@, |h: isize| !done@.contains(h)),
{
    let ghost keep = |h: isize| !done@.contains(h);
    let mut out: Vec<GameWindow> = Vec::new();
    let mut i: usize = 0;
    while i < windows.len()
        invariant
            i <= windows.len(),
            keep == (|h: isize| !done@.contains(h)),
            out@ == windows_with(windows@.take(i as int), keep),
        decreases windows.len() - i,
    {
        assert(windows@.take(i + 1).drop_last() =~= windows@.take(i as int));
        let h = window_handle(&windows[i]);
        if !done.contains(&h) {
            out.push(windows[i].clone());
        }
        i += 1;
    }
    assert(windows@.take(windows.len() as int) =~= windows@);
    out
}

/// The taskbar buttons to put back in the order of `windows`: those whose
/// window already has its application id (in `done`); `None` when fewer than
/// two take part, as there is nothing to reorder.
pub fn buttons_to_reorder(windows: &[GameWindow], done: &HashSet<isize>) -> (r: Option<Vec<GameWindow>>)
    ensures
        match r {
            Some(v) => v@ == windows_with(windows@, |h: isize| done@.contains(h)) && v@.len() >= 2,
            None => windows_with(windows@, |h: isize| done@.contains(h)).len() < 2,
        },
{
    let ghost keep = |h: isize| done@.contains(h);
    let mut out: Vec<GameWindow> = Vec::new();
    let mut i: usize = 0;
    while i < windows.len()
        invariant
            i <= windows.len(),
            keep == (|h: isize| done@.contains(h)),
            out@ == windows_with(windows@.take(i as int), keep),
        decreases windows.len() - i,
    {
        assert(windows@.take(i + 1).drop_last() =~= windows@.take(i as int));
        let h = window_handle(&windows[i]);
        if done.contains(&h) {
            out.push(windows[i].clone());
        }
        i += 1;
    }
    assert(windows@.take(windows.len() as int) =~= windows@);
    if out.len() < 2 {
        None
    } else {
        Some(out)
    }
}

} // verus!
