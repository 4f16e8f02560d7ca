//! Platform-independent parts of the window handling: game windows, the
//! window-title convention, the tiling layouts, taskbar icon pixels, and what
//! the library reports on a host without a native window backend.
use vstd::prelude::*;
use crate::text::{chars_of, trim_bounds, string_from_range};
use crate::grammar::{at, at_exec};
use crate::parser::{nonblank, view_opt};

verus! {

/// A detected game client window.
#[derive(Debug)]
pub struct GameWindow {
    pub character_name: String,
    pub window_id: u64,
    pub pid: u32,
    pub title: String,
}

impl Clone for GameWindow {
    fn clone(&self) -> (r: Self)
        ensures
            r == *self,
    {
        GameWindow {
            character_name: self.character_name.clone(),
            window_id: self.window_id,
            pid: self.pid,
            title: self.title.clone(),
        }
    }
}

/// The permissions the application depends on.
#[derive(Debug, Clone, Copy)]
pub struct PermissionStatus {
    pub accessibility: bool,
    pub screen_recording: bool,
    pub input_monitoring: bool,
}

/// One entry of the window server's list of on-screen windows.
#[derive(Debug)]
pub struct WindowInfo {
    /// The window's title, when it has one.
    pub title: Option<String>,
    /// The window number (macOS) or handle (Windows).
    pub window_id: u64,
    /// The owning process.
    pub pid: u32,
}

// ---------------------------------------------------------------------------
// The window-title convention `<name> - Dofus Retro …`
// ---------------------------------------------------------------------------

pub open spec fn title_marker() -> Seq<char> {
    " - Dofus Retro"@
}

/// `i` is the first position where `pat` occurs in `s`.
pub open spec fn is_first_at(s: Seq<char>, pat: Seq<char>, i: int) -> bool {
    at(s, i, pat) && forall|j: int| 0 <= j < i ==> !at(s, j, pat)
}

/// The first position where `pat` occurs in `s` (what `str::find` returns).
pub open spec fn find_first(s: Seq<char>, pat: Seq<char>) -> Option<int> {
    if exists|i: int| is_first_at(s, pat, i) {
        Some(choose|i: int| is_first_at(s, pat, i))
    } else {
        None
    }
}

/// The character a game window title names: the text before the first
/// ` - Dofus Retro`, trimmed, when not blank.
pub open spec fn character_of_title(title: Seq<char>) -> Option<Seq<char>> {
    match find_first(title, title_marker()) {
        Some(i) => nonblank(title.subrange(0, i)),
        None => None,
    }
}

/// The first position where `pat` occurs in `s`.
pub fn find_first_exec(s: &Vec<char>, pat: &Vec<char>) -> (r: Option<usize>)
    ensures
        match r {
            Some(i) => find_first(s@, pat@) == Some(i as int),
            None => find_first(s@, pat@) is None,
        },
{
    let mut i: usize = 0;
    while i < s.len()
        invariant
            i <= s.len(),
            forall|j: int| 0 <= j < i ==> !at(s@, j, pat@),
        decreases s.len() - i,
    {
        if at_exec(s, i, pat) {
            proof {
                let c = choose|c: int| is_first_at(s@, pat@, c);
                assert(is_first_at(s@, pat@, i as int));
                assert(is_first_at(s@, pat@, c));
                if c < i {
                    assert(!at(s@, c, pat@));
                }
                if i < c {
                    assert(!at(s@, i as int, pat@));
                }
            }
            return Some(i);
        }
        i += 1;
    }
    if at_exec(s, s.len(), pat) {
        proof {
            let c = choose|c: int| is_first_at(s@, pat@, c);
            assert(is_first_at(s@, pat@, s.len() as int));
            if c < s.len() {
                assert(!at(s@, c, pat@));
            }
            if s.len() < c {
                assert(!at(s@, s.len() as int, pat@));
            }
        }
        return Some(s.len());
    }
    proof {
        if exists|c: int| is_first_at(s@, pat@, c) {
            let c = choose|c: int| is_first_at(s@, pat@, c);
            assert(at(s@, c, pat@));
            assert(c <= s@.len());
        }
    }
    None
}

pub struct MacWindowManager;

impl MacWindowManager {
    pub fn new() -> (r: Self)
        ensures
            r == MacWindowManager,
    {
        MacWindowManager
    }

    /// The character a game window title names.
    pub fn parse_character_name(title: &str) -> (r: Option<String>)
        ensures
            view_opt(r) == character_of_title(title@),
    {
        character_of_title_exec(title)
    }
}

pub struct WinWindowManager;

impl WinWindowManager {
    pub fn new() -> (r: Self)
        ensures
            r == WinWindowManager,
    {
        WinWindowManager
    }
}

/// The character a game window title names.
pub fn character_of_title_exec(title: &str) -> (r: Option<String>)
    ensures
        view_opt(r) == character_of_title(title@),
{
    let t = chars_of(title);
    let marker = chars_of(" - Dofus Retro");
    match find_first_exec(&t, &marker) {
        Some(i) => {
            let (lo, hi) = trim_bounds(&t, 0, i);
            if lo < hi {
                Some(string_from_range(&t, lo, hi))
            } else {
                None
            }
        },
        None => None,
    }
}

/// The game windows among `windows`: those whose title names a character, in order.
pub open spec fn dofus_windows_spec(windows: Seq<WindowInfo>) -> Seq<(Seq<char>, u64, u32, Seq<char>)>
    decreases windows.len(),
{
    if windows.len() == 0 {
        Seq::empty()
    } else {
        let w = windows.last();
        let rest = dofus_windows_spec(windows.drop_last());
        match w.title {
            Some(t) => match character_of_title(t@) {
                Some(name) => rest.push((name, w.window_id, w.pid, t@)),
                None => rest,
            },
            None => rest,
        }
    }
}

/// A game window as (character, id, pid, title).
pub open spec fn window_view(w: GameWindow) -> (Seq<char>, u64, u32, Seq<char>) {
    (w.character_name@, w.window_id, w.pid, w.title@)
}

/// The game windows among the listed windows, in listing order.
pub fn dofus_windows(windows: &[WindowInfo]) -> (r: Vec<GameWindow>)
    ensures
        r@.map_values(|w: GameWindow| window_view(w)) == dofus_windows_spec(windows@),
{
    let mut out: Vec<GameWindow> = Vec::new();
    let mut i: usize = 0;
    while i < windows.len()
        invariant
            i <= windows.len(),
            out@.map_values(|w: GameWindow| window_view(w)) == dofus_windows_spec(
                windows@.take(i as int),
            ),
        decreases windows.len() - i,
    {
        assert(windows@.take(i + 1).drop_last() =~= windows@.take(i as int));
        let w = &windows[i];
        match &w.title {
            Some(t) => {
                match character_of_title_exec(t.as_str()) {
                    Some(name) => {
                        let ghost before = out@.map_values(|w: GameWindow| window_view(w));
                        out.push(
                            GameWindow {
                                character_name: name,
                                window_id: w.window_id,
                                pid: w.pid,
                                title: t.clone(),
                            },
                        );
                        assert(out@.map_values(|w: GameWindow| window_view(w)) =~= before.push(
                            window_view(out@.last()),
                        ));
                    },
                    None => {},
                }
            },
            None => {},
        }
        i += 1;
    }
    assert(windows@.take(windows.len() as int) =~= windows@);
    out
}

/// The number of the first listed window of process `pid` titled `title`, or 0.
pub open spec fn foreground_id_spec(windows: Seq<WindowInfo>, pid: u32, title: Seq<char>) -> u64
    decreases windows.len(),
{
    if windows.len() == 0 {
        0
    } else {
        let w = windows[0];
        if w.pid == pid && view_opt(w.title) == Some(title) {
            w.window_id
        } else {
            foreground_id_spec(windows.drop_first(), pid, title)
        }
    }
}

/// The window whose owner is the frontmost process `pid` and whose title is
/// that process's main window title, as found in the window list; 0 when none is.
pub fn foreground_window_id_in(windows: &[WindowInfo], pid: u32, title: &str) -> (r: u64)
    ensures
        r == foreground_id_spec(windows@, pid, title@),
{
    let mut i: usize = 0;
    assert(windows@.skip(0) =~= windows@);
    while i < windows.len()
        invariant
            i <= windows.len(),
            foreground_id_spec(windows@, pid, title@) == foreground_id_spec(
                windows@.skip(i as int),
                pid,
                title@,
            ),
        decreases windows.len() - i,
    {
        assert(windows@.skip(i as int).drop_first() =~= windows@.skip(i + 1));
        let w = &windows[i];
        if w.pid == pid {
            match &w.title {
                Some(t) => {
                    if crate::text::str_eq(t.as_str(), title) {
                        return w.window_id;
                    }
                },
                None => {},
            }
        }
        i += 1;
    }
    0
}

// ---------------------------------------------------------------------------
// What a host without a native window backend reports
// ---------------------------------------------------------------------------

/// The foreground window on a host without a native window backend: none (0).
pub fn get_foreground_window_id() -> (r: u64)
    ensures
        r == 0,
{
    0
}

/// Accessibility permission on a host without a native backend: not granted.
pub fn check_accessibility_permission() -> (r: bool)
    ensures
        r == false,
{
    false
}

/// Screen-recording permission outside macOS: nothing to grant, so granted.
pub fn check_screen_recording_permission() -> (r: bool)
    ensures
        r == true,
{
    true
}

/// Input-monitoring permission outside macOS: nothing to grant, so granted.
pub fn check_input_monitoring_permission() -> (r: bool)
    ensures
        r == true,
{
    true
}

// ---------------------------------------------------------------------------
// Tiling layouts on a Windows work area
// ---------------------------------------------------------------------------

/// Width of the invisible resize border that every tile is widened by.
pub const RESIZE_BORDER: i32 = 8;

/// A tile `(x, y, width, height)` widened by the invisible resize border on
/// the left, right and bottom.
pub open spec fn expand(x: int, y: int, cw: int, ch: int) -> (int, int, int, int) {
    (x - 8, y, cw + 16, ch + 8)
}

/// The tiles of `layout` on the work area at `(l, t)` of size `w × h`, in
/// window order; `None` for a layout other than the split and grid layouts.
pub open spec fn layout_tiles(layout: Seq<char>, l: int, t: int, w: int, h: int) -> Option<
    Seq<(int, int, int, int)>,
> {
    if layout == "split-h"@ {
        Some(seq![expand(l, t, w / 2, h), expand(l + w / 2, t, w - w / 2, h)])
    } else if layout == "split-v"@ {
        Some(seq![expand(l, t, w, h / 2), expand(l, t + h / 2, w, h - h / 2)])
    } else if layout == "grid-2x2"@ {
        Some(
            seq![
                expand(l, t, w / 2, h / 2),
                expand(l + w / 2, t, w - w / 2, h / 2),
                expand(l, t + h / 2, w / 2, h - h / 2),
                expand(l + w / 2, t + h / 2, w - w / 2, h - h / 2),
            ],
        )
    } else if layout == "grid-3x2"@ {
        let cw = w / 3;
        let rh = h / 2;
        Some(
            seq![
                expand(l, t, cw, rh),
                expand(l + cw, t, cw, rh),
                expand(l + cw * 2, t, w - cw * 2, rh),
                expand(l, t + rh, cw, h - rh),
                expand(l + cw, t + rh, cw, h - rh),
                expand(l + cw * 2, t + rh, w - cw * 2, h - rh),
            ],
        )
    } else if layout == "grid-4x2"@ {
        let cw = w / 4;
        let rh = h / 2;
        Some(
            seq![
                expand(l, t, cw, rh),
                expand(l + cw, t, cw, rh),
                expand(l + cw * 2, t, cw, rh),
                expand(l + cw * 3, t, w - cw * 3, rh),
                expand(l, t + rh, cw, h - rh),
                expand(l + cw, t + rh, cw, h - rh),
                expand(l + cw * 2, t + rh, cw, h - rh),
                expand(l + cw * 3, t + rh, w - cw * 3, h - rh),
            ],
        )
    } else {
        None
    }
}

/// A tile as integers.
pub open spec fn tile_view(s: (i32, i32, i32, i32)) -> (int, int, int, int) {
    (s.0 as int, s.1 as int, s.2 as int, s.3 as int)
}

/// A work area whose tiles all fit in `i32`.
pub open spec fn work_area_fits(l: int, t: int, w: int, h: int) -> bool {
    &&& 0 <= w && 0 <= h
    &&& i32::MIN + 8 <= l && l + w + 16 <= i32::MAX
    &&& i32::MIN <= t && t + h + 8 <= i32::MAX
    &&& w + 16 <= i32::MAX && h + 8 <= i32::MAX
}

fn tile(x: i32, y: i32, cw: i32, ch: i32) -> (r: (i32, i32, i32, i32))
    requires
        i32::MIN + 8 <= x,
        cw + 16 <= i32::MAX,
        ch + 8 <= i32::MAX,
    ensures
        tile_view(r) == expand(x as int, y as int, cw as int, ch as int),
{
    (x - RESIZE_BORDER, y, cw + RESIZE_BORDER * 2, ch + RESIZE_BORDER)
}

/// The tiles of a split or grid layout on the work area at `(l, t)` of size
/// `w × h`; `None` when `layout` is not one of them.
pub fn layout_tiles_exec(layout: &str, l: i32, t: i32, w: i32, h: i32) -> (r: Option<
    Vec<(i32, i32, i32, i32)>,
>)
    requires
        work_area_fits(l as int, t as int, w as int, h as int),
    ensures
        match r {
            Some(v) => layout_tiles(layout@, l as int, t as int, w as int, h as int) == Some(
                v@.map_values(|s: (i32, i32, i32, i32)| tile_view(s)),
            ),
            None => layout_tiles(layout@, l as int, t as int, w as int, h as int) is None,
        },
{
    let mut v: Vec<(i32, i32, i32, i32)> = Vec::new();
    if crate::text::str_eq(layout, "split-h") {
        v.push(tile(l, t, w / 2, h));
        v.push(tile(l + w / 2, t, w - w / 2, h));
    } else if crate::text::str_eq(layout, "split-v") {
        v.push(tile(l, t, w, h / 2));
        v.push(tile(l, t + h / 2, w, h - h / 2));
    } else if crate::text::str_eq(layout, "grid-2x2") {
        v.push(tile(l, t, w / 2, h / 2));
        v.push(tile(l + w / 2, t, w - w / 2, h / 2));
        v.push(tile(l, t + h / 2, w / 2, h - h / 2));
        v.push(tile(l + w / 2, t + h / 2, w - w / 2, h - h / 2));
    } else if crate::text::str_eq(layout, "grid-3x2") {
        let cw = w / 3;
        let rh = h / 2;
        v.push(tile(l, t, cw, rh));
        v.push(tile(l + cw, t, cw, rh));
        v.push(tile(l + cw * 2, t, w - cw * 2, rh));
        v.push(tile(l, t + rh, cw, h - rh));
        v.push(tile(l + cw, t + rh, cw, h - rh));
        v.push(tile(l + cw * 2, t + rh, w - cw * 2, h - rh));
    } else if crate::text::str_eq(layout, "grid-4x2") {
        let cw = w / 4;
        let rh = h / 2;
        v.push(tile(l, t, cw, rh));
        v.push(tile(l + cw, t, cw, rh));
        v.push(tile(l + cw * 2, t, cw, rh));
        v.push(tile(l + cw * 3, t, w - cw * 3, rh));
        v.push(tile(l, t + rh, cw, h - rh));
        v.push(tile(l + cw, t + rh, cw, h - rh));
        v.push(tile(l + cw * 2, t + rh, cw, h - rh));
        v.push(tile(l + cw * 3, t + rh, w - cw * 3, h - rh));
    } else {
        return None;
    }
    assert(v@.map_values(|s: (i32, i32, i32, i32)| tile_view(s)) =~= layout_tiles(
        layout@,
        l as int,
        t as int,
        w as int,
        h as int,
    )->0);
    Some(v)
}

// ---------------------------------------------------------------------------
// Taskbar icon pixels
// ---------------------------------------------------------------------------

/// Channel `c` premultiplied by alpha `a`, rounded to nearest.
pub open spec fn premultiply(c: u8, a: u8) -> u8 {
    ((c as int * a as int + 127) / 255) as u8
}

/// The premultiplied BGRA form of RGBA pixels: per pixel, blue, green and red
/// premultiplied by alpha, then alpha.
pub open spec fn bgra_of(rgba: Seq<u8>) -> Seq<u8> {
    Seq::new(
        rgba.len(),
        |i: int|
            {
                let p = i - i % 4;
                let a = rgba[p + 3];
                if i % 4 == 0 {
                    premultiply(rgba[p + 2], a)
                } else if i % 4 == 1 {
                    premultiply(rgba[p + 1], a)
                } else if i % 4 == 2 {
                    premultiply(rgba[p], a)
                } else {
                    a
                }
            },
    )
}

fn premultiply_exec(c: u8, a: u8) -> (r: u8)
    ensures
        r == premultiply(c, a),
{
    let cc = c as u32;
    let aa = a as u32;
    assert(cc * aa <= 255 * 255) by (nonlinear_arith)
        requires
            cc <= 255,
            aa <= 255,
    ;
    let prod = cc * aa;
    ((prod + 127) / 255) as u8
}

/// RGBA pixels of a `size × size` icon converted to premultiplied BGRA, in the
/// same top-down order.
pub fn rgba_to_premultiplied_bgra(rgba: &[u8], size: u32) -> (r: Vec<u8>)
    requires
        size as int * size as int * 4 <= u32::MAX,
        rgba@.len() == size as int * size as int * 4,
    ensures
        r@ == bgra_of(rgba@),
{
    let n = rgba.len();
    let mut out: Vec<u8> = Vec::new();
    let mut i: usize = 0;
    while i < n
        invariant
            n == rgba@.len(),
            n % 4 == 0,
            i % 4 == 0,
            i <= n,
            out@.len() == i,
            forall|k: int| 0 <= k < i ==> out@[k] == #[trigger] bgra_of(rgba@)[k],
        decreases n - i,
    {
        let a = rgba[i + 3];
        out.push(premultiply_exec(rgba[i + 2], a));
        out.push(premultiply_exec(rgba[i + 1], a));
        out.push(premultiply_exec(rgba[i], a));
        out.push(a);
        proof {
            assert forall|k: int| 0 <= k < i + 4 implies out@[k] == #[trigger] bgra_of(rgba@)[k] by {
                if k >= i {
                    assert(k - k % 4 == i) by (nonlinear_arith)
                        requires
                            i <= k < i + 4,
                            i % 4 == 0,
                    ;
                }
            }
        }
        i += 4;
    }
    assert(out@ =~= bgra_of(rgba@));
    out
}


/// Point `(x, y)` lies in tile `r` as it is before being widened by the
/// resize border.
pub open spec fn in_tile(r: (int, int, int, int), x: int, y: int) -> bool {
    r.0 + 8 <= x < r.0 + r.2 - 8 && r.1 <= y < r.1 + r.3 - 8
}

/// Point `(x, y)` lies in one of the tiles `ts` (see `in_tile`).
pub open spec fn covered(ts: Seq<(int, int, int, int)>, x: int, y: int) -> bool {
    exists|i: int| 0 <= i < ts.len() && #[trigger] in_tile(ts[i], x, y)
}

/// The tiles of a layout share out the work area: before the resize border
/// widens them, every tile lies inside the work area, no two tiles overlap,
/// and every point of the work area lies in a tile.
#[verifier::rlimit(50)]
pub proof fn law_layout_tiles_partition(layout: Seq<char>, l: int, t: int, w: int, h: int)
    requires
        0 <= w,
        0 <= h,
        layout_tiles(layout, l, t, w, h) is Some,
    ensures
        ({
            let ts = layout_tiles(layout, l, t, w, h)->0;
            &&& forall|i: int, x: int, y: int|
                0 <= i < ts.len() && #[trigger] in_tile(ts[i], x, y) ==> l <= x < l + w && t <= y < t + h
            &&& forall|i: int, j: int, x: int, y: int|
                0 <= i < j < ts.len() && #[trigger] in_tile(ts[i], x, y) ==> !#[trigger] in_tile(ts[j], x, y)
            &&& forall|x: int, y: int|
                l <= x < l + w && t <= y < t + h ==> #[trigger] covered(ts, x, y)
        }),
{
    if layout == "split-h"@ {
        let ts = layout_tiles(layout, l, t, w, h)->0;
        assert(ts.len() == 2);
        assert(l <= l + w / 2);
        assert(l + w / 2 <= l + w);
        assert(t <= t + h);
        assert(ts[0] == expand(l, t, (l + w / 2) - (l), (t + h) - (t)));
        assert(ts[1] == expand(l + w / 2, t, (l + w) - (l + w / 2), (t + h) - (t)));
        assert forall|i: int, x: int, y: int| 0 <= i < ts.len() && #[trigger] in_tile(ts[i], x, y) implies l <= x < l + w && t <= y < t + h by {
            if i == 0 {} else {}
        }
        assert forall|i: int, j: int, x: int, y: int| 0 <= i < j < ts.len() && #[trigger] in_tile(ts[i], x, y) implies !#[trigger] in_tile(ts[j], x, y) by {
        }
        assert forall|x: int, y: int| l <= x < l + w && t <= y < t + h implies covered(ts, x, y) by {
            if l <= x < l + w / 2 && t <= y < t + h {
                assert(in_tile(ts[0], x, y));
            } else if l + w / 2 <= x < l + w && t <= y < t + h {
                assert(in_tile(ts[1], x, y));
            }
        }
    } else if layout == "split-v"@ {
        let ts = layout_tiles(layout, l, t, w, h)->0;
        assert(ts.len() == 2);
        assert(l <= l + w);
        assert(t <= t + h / 2);
        assert(t + h / 2 <= t + h);
        assert(ts[0] == expand(l, t, (l + w) - (l), (t + h / 2) - (t)));
        assert(ts[1] == expand(l, t + h / 2, (l + w) - (l), (t + h) - (t + h / 2)));
        assert forall|i: int, x: int, y: int| 0 <= i < ts.len() && #[trigger] in_tile(ts[i], x, y) implies l <= x < l + w && t <= y < t + h by {
            if i == 0 {} else {}
        }
        assert forall|i: int, j: int, x: int, y: int| 0 <= i < j < ts.len() && #[trigger] in_tile(ts[i], x, y) implies !#[trigger] in_tile(ts[j], x, y) by {
        }
        assert forall|x: int, y: int| l <= x < l + w && t <= y < t + h implies covered(ts, x, y) by {
            if l <= x < l + w && t <= y < t + h / 2 {
                assert(in_tile(ts[0], x, y));
            } else if l <= x < l + w && t + h / 2 <= y < t + h {
                assert(in_tile(ts[1], x, y));
            }
        }
    } else if layout == "grid-2x2"@ {
        let ts = layout_tiles(layout, l, t, w, h)->0;
        assert(ts.len() == 4);
        assert(l <= l + w / 2);
        assert(l + w / 2 <= l + w);
        assert(t <= t + h / 2);
        assert(t + h / 2 <= t + h);
        assert(ts[0] == expand(l, t, (l + w / 2) - (l), (t + h / 2) - (t)));
        assert(ts[1] == expand(l + w / 2, t, (l + w) - (l + w / 2), (t + h / 2) - (t)));
        assert(ts[2] == expand(l, t + h / 2, (l + w / 2) - (l), (t + h) - (t + h / 2)));
        assert(ts[3] == expand(l + w / 2, t + h / 2, (l + w) - (l + w / 2), (t + h) - (t + h / 2)));
        assert forall|i: int, x: int, y: int| 0 <= i < ts.len() && #[trigger] in_tile(ts[i], x, y) implies l <= x < l + w && t <= y < t + h by {
            if i == 0 {} else if i == 1 {} else if i == 2 {} else {}
        }
        assert forall|i: int, j: int, x: int, y: int| 0 <= i < j < ts.len() && #[trigger] in_tile(ts[i], x, y) implies !#[trigger] in_tile(ts[j], x, y) by {
            if i == 0 && j == 1 {} else if i == 0 && j == 2 {} else if i == 0 && j == 3 {} else if i == 1 && j == 2 {} else if i == 1 && j == 3 {} else {}
        }
        assert forall|x: int, y: int| l <= x < l + w && t <= y < t + h implies covered(ts, x, y) by {
            if l <= x < l + w / 2 && t <= y < t + h / 2 {
                assert(in_tile(ts[0], x, y));
            } else if l + w / 2 <= x < l + w && t <= y < t + h / 2 {
                assert(in_tile(ts[1], x, y));
            } else if l <= x < l + w / 2 && t + h / 2 <= y < t + h {
                assert(in_tile(ts[2], x, y));
            } else if l + w / 2 <= x < l + w && t + h / 2 <= y < t + h {
                assert(in_tile(ts[3], x, y));
            }
        }
    } else if layout == "grid-3x2"@ {
        let cw = w / 3;
        let rh = h / 2;
        let ts = layout_tiles(layout, l, t, w, h)->0;
        assert(ts.len() == 6);
        assert(l <= l + cw);
        assert(l + cw <= l + cw * 2);
        assert(l + cw * 2 <= l + w);
        assert(t <= t + rh);
        assert(t + rh <= t + h);
        assert(ts[0] == expand(l, t, (l + cw) - (l), (t + rh) - (t)));
        assert(ts[1] == expand(l + cw, t, (l + cw * 2) - (l + cw), (t + rh) - (t)));
        assert(ts[2] == expand(l + cw * 2, t, (l + w) - (l + cw * 2), (t + rh) - (t)));
        assert(ts[3] == expand(l, t + rh, (l + cw) - (l), (t + h) - (t + rh)));
        assert(ts[4] == expand(l + cw, t + rh, (l + cw * 2) - (l + cw), (t + h) - (t + rh)));
        assert(ts[5] == expand(l + cw * 2, t + rh, (l + w) - (l + cw * 2), (t + h) - (t + rh)));
        assert forall|i: int, x: int, y: int| 0 <= i < ts.len() && #[trigger] in_tile(ts[i], x, y) implies l <= x < l + w && t <= y < t + h by {
            if i == 0 {} else if i == 1 {} else if i == 2 {} else if i == 3 {} else if i == 4 {} else {}
        }
        assert forall|i: int, j: int, x: int, y: int| 0 <= i < j < ts.len() && #[trigger] in_tile(ts[i], x, y) implies !#[trigger] in_tile(ts[j], x, y) by {
            if i == 0 && j == 1 {} else if i == 0 && j == 2 {} else if i == 0 && j == 3 {} else if i == 0 && j == 4 {} else if i == 0 && j == 5 {} else if i == 1 && j == 2 {} else if i == 1 && j == 3 {} else if i == 1 && j == 4 {} else if i == 1 && j == 5 {} else if i == 2 && j == 3 {} else if i == 2 && j == 4 {} else if i == 2 && j == 5 {} else if i == 3 && j == 4 {} else if i == 3 && j == 5 {} else {}
        }
        assert forall|x: int, y: int| l <= x < l + w && t <= y < t + h implies covered(ts, x, y) by {
            if l <= x < l + cw && t <= y < t + rh {
                assert(in_tile(ts[0], x, y));
            } else if l + cw <= x < l + cw * 2 && t <= y < t + rh {
                assert(in_tile(ts[1], x, y));
            } else if l + cw * 2 <= x < l + w && t <= y < t + rh {
                assert(in_tile(ts[2], x, y));
            } else if l <= x < l + cw && t + rh <= y < t + h {
                assert(in_tile(ts[3], x, y));
            } else if l + cw <= x < l + cw * 2 && t + rh <= y < t + h {
                assert(in_tile(ts[4], x, y));
            } else if l + cw * 2 <= x < l + w && t + rh <= y < t + h {
                assert(in_tile(ts[5], x, y));
            }
        }
    } else if layout == "grid-4x2"@ {
        let cw = w / 4;
        let rh = h / 2;
        let ts = layout_tiles(layout, l, t, w, h)->0;
        assert(ts.len() == 8);
        assert(l <= l + cw);
        assert(l + cw <= l + cw * 2);
        assert(l + cw * 2 <= l + cw * 3);
        assert(l + cw * 3 <= l + w);
        assert(t <= t + rh);
        assert(t + rh <= t + h);
        assert(ts[0] == expand(l, t, (l + cw) - (l), (t + rh) - (t)));
        assert(ts[1] == expand(l + cw, t, (l + cw * 2) - (l + cw), (t + rh) - (t)));
        assert(ts[2] == expand(l + cw * 2, t, (l + cw * 3) - (l + cw * 2), (t + rh) - (t)));
        assert(ts[3] == expand(l + cw * 3, t, (l + w) - (l + cw * 3), (t + rh) - (t)));
        assert(ts[4] == expand(l, t + rh, (l + cw) - (l), (t + h) - (t + rh)));
        assert(ts[5] == expand(l + cw, t + rh, (l + cw * 2) - (l + cw), (t + h) - (t + rh)));
        assert(ts[6] == expand(l + cw * 2, t + rh, (l + cw * 3) - (l + cw * 2), (t + h) - (t + rh)));
        assert(ts[7] == expand(l + cw * 3, t + rh, (l + w) - (l + cw * 3), (t + h) - (t + rh)));
        assert forall|i: int, x: int, y: int| 0 <= i < ts.len() && #[trigger] in_tile(ts[i], x, y) implies l <= x < l + w && t <= y < t + h by {
            if i == 0 {} else if i == 1 {} else if i == 2 {} else if i == 3 {} else if i == 4 {} else if i == 5 {} else if i == 6 {} else {}
        }
        assert forall|i: int, j: int, x: int, y: int| 0 <= i < j < ts.len() && #[trigger] in_tile(ts[i], x, y) implies !#[trigger] in_tile(ts[j], x, y) by {
            if i == 0 && j == 1 {} else if i == 0 && j == 2 {} else if i == 0 && j == 3 {} else if i == 0 && j == 4 {} else if i == 0 && j == 5 {} else if i == 0 && j == 6 {} else if i == 0 && j == 7 {} else if i == 1 && j == 2 {} else if i == 1 && j == 3 {} else if i == 1 && j == 4 {} else if i == 1 && j == 5 {} else if i == 1 && j == 6 {} else if i == 1 && j == 7 {} else if i == 2 && j == 3 {} else if i == 2 && j == 4 {} else if i == 2 && j == 5 {} else if i == 2 && j == 6 {} else if i == 2 && j == 7 {} else if i == 3 && j == 4 {} else if i == 3 && j == 5 {} else if i == 3 && j == 6 {} else if i == 3 && j == 7 {} else if i == 4 && j == 5 {} else if i == 4 && j == 6 {} else if i == 4 && j == 7 {} else if i == 5 && j == 6 {} else if i == 5 && j == 7 {} else {}
        }
        assert forall|x: int, y: int| l <= x < l + w && t <= y < t + h implies covered(ts, x, y) by {
            if l <= x < l + cw && t <= y < t + rh {
                assert(in_tile(ts[0], x, y));
            } else if l + cw <= x < l + cw * 2 && t <= y < t + rh {
                assert(in_tile(ts[1], x, y));
            } else if l + cw * 2 <= x < l + cw * 3 && t <= y < t + rh {
                assert(in_tile(ts[2], x, y));
            } else if l + cw * 3 <= x < l + w && t <= y < t + rh {
                assert(in_tile(ts[3], x, y));
            } else if l <= x < l + cw && t + rh <= y < t + h {
                assert(in_tile(ts[4], x, y));
            } else if l + cw <= x < l + cw * 2 && t + rh <= y < t + h {
                assert(in_tile(ts[5], x, y));
            } else if l + cw * 2 <= x < l + cw * 3 && t + rh <= y < t + h {
                assert(in_tile(ts[6], x, y));
            } else if l + cw * 3 <= x < l + w && t + rh <= y < t + h {
                assert(in_tile(ts[7], x, y));
            }
        }
    } else {
    }
}

} // verus!
