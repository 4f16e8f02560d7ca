//! Building blocks of the notification and window-title grammars: literal
//! matching (exact and case-insensitive), line-break-free spans, Unicode
//! decimal digits, and the shortest-name cut used by the lazy name fields.
use vstd::prelude::*;
use crate::text::{ascii_lower, chars_of, to_ascii_lower};

verus! {

/// No line feed occurs in `s` (what a run of `.` may cover).
pub open spec fn no_nl(s: Seq<char>) -> bool {
    forall|i: int| 0 <= i < s.len() ==> s[i] != '\n'
}

/// `c` matches the literal character `lit` when case is ignored.
///
/// The notification phrases use ASCII letters, `à` and `é`, and other
/// characters that have no case. Simple Unicode case folding relates each ASCII
/// letter to its other case, and additionally `k` to KELVIN SIGN (U+212A) and
/// `s` to LATIN SMALL LETTER LONG S (U+017F).
pub open spec fn ci_match(lit: char, c: char) -> bool {
    ||| c == lit
    ||| (('a' <= ascii_lower(lit) && ascii_lower(lit) <= 'z') && ascii_lower(c) == ascii_lower(lit))
    ||| (ascii_lower(lit) == 'k' && c == '\u{212A}')
    ||| (ascii_lower(lit) == 's' && c == '\u{17F}')
    ||| ((lit == '\u{E0}' || lit == '\u{C0}') && (c == '\u{E0}' || c == '\u{C0}'))
    ||| ((lit == '\u{E9}' || lit == '\u{C9}') && (c == '\u{E9}' || c == '\u{C9}'))
}

/// `lit` occurs in `s` at position `at`, case ignored.
pub open spec fn ci_at(s: Seq<char>, at: int, lit: Seq<char>) -> bool {
    0 <= at && at + lit.len() <= s.len() && forall|j: int|
        0 <= j < lit.len() ==> ci_match(#[trigger] lit[j], s[at + j])
}

/// `lit` occurs in `s` at position `at`, exactly.
pub open spec fn at(s: Seq<char>, at: int, lit: Seq<char>) -> bool {
    0 <= at && at + lit.len() <= s.len() && s.subrange(at, at + lit.len()) == lit
}

/// Characters of the Unicode general category `Nd` (decimal numbers): the `\d`
/// class of the pattern syntax (Unicode 16.0).
pub open spec fn is_decimal_digit(c: char) -> bool {
    let u = c as u32;
    ||| (0x30 <= u && u <= 0x39) || (0x660 <= u && u <= 0x669) || (0x6F0 <= u && u <= 0x6F9)
    ||| (0x7C0 <= u && u <= 0x7C9) || (0x966 <= u && u <= 0x96F) || (0x9E6 <= u && u <= 0x9EF)
    ||| (0xA66 <= u && u <= 0xA6F) || (0xAE6 <= u && u <= 0xAEF) || (0xB66 <= u && u <= 0xB6F)
    ||| (0xBE6 <= u && u <= 0xBEF) || (0xC66 <= u && u <= 0xC6F) || (0xCE6 <= u && u <= 0xCEF)
    ||| (0xD66 <= u && u <= 0xD6F) || (0xDE6 <= u && u <= 0xDEF) || (0xE50 <= u && u <= 0xE59)
    ||| (0xED0 <= u && u <= 0xED9) || (0xF20 <= u && u <= 0xF29) || (0x1040 <= u && u <= 0x1049)
    ||| (0x1090 <= u && u <= 0x1099) || (0x17E0 <= u && u <= 0x17E9) || (0x1810 <= u && u <= 0x1819)
    ||| (0x1946 <= u && u <= 0x194F) || (0x19D0 <= u && u <= 0x19D9) || (0x1A80 <= u && u <= 0x1A89)
    ||| (0x1A90 <= u && u <= 0x1A99) || (0x1B50 <= u && u <= 0x1B59) || (0x1BB0 <= u && u <= 0x1BB9)
    ||| (0x1C40 <= u && u <= 0x1C49) || (0x1C50 <= u && u <= 0x1C59) || (0xA620 <= u && u <= 0xA629)
    ||| (0xA8D0 <= u && u <= 0xA8D9) || (0xA900 <= u && u <= 0xA909) || (0xA9D0 <= u && u <= 0xA9D9)
    ||| (0xA9F0 <= u && u <= 0xA9F9) || (0xAA50 <= u && u <= 0xAA59) || (0xABF0 <= u && u <= 0xABF9)
    ||| (0xFF10 <= u && u <= 0xFF19) || (0x104A0 <= u && u <= 0x104A9) || (0x10D30 <= u && u <= 0x10D39)
    ||| (0x10D40 <= u && u <= 0x10D49) || (0x11066 <= u && u <= 0x1106F) || (0x110F0 <= u && u <= 0x110F9)
    ||| (0x11136 <= u && u <= 0x1113F) || (0x111D0 <= u && u <= 0x111D9) || (0x112F0 <= u && u <= 0x112F9)
    ||| (0x11450 <= u && u <= 0x11459) || (0x114D0 <= u && u <= 0x114D9) || (0x11650 <= u && u <= 0x11659)
    ||| (0x116C0 <= u && u <= 0x116C9) || (0x116D0 <= u && u <= 0x116E3) || (0x11730 <= u && u <= 0x11739)
    ||| (0x118E0 <= u && u <= 0x118E9) || (0x11950 <= u && u <= 0x11959) || (0x11BF0 <= u && u <= 0x11BF9)
    ||| (0x11C50 <= u && u <= 0x11C59) || (0x11D50 <= u && u <= 0x11D59) || (0x11DA0 <= u && u <= 0x11DA9)
    ||| (0x11F50 <= u && u <= 0x11F59) || (0x16130 <= u && u <= 0x16139) || (0x16A60 <= u && u <= 0x16A69)
    ||| (0x16AC0 <= u && u <= 0x16AC9) || (0x16B50 <= u && u <= 0x16B59) || (0x16D70 <= u && u <= 0x16D79)
    ||| (0x1CCF0 <= u && u <= 0x1CCF9) || (0x1D7CE <= u && u <= 0x1D7FF) || (0x1E140 <= u && u <= 0x1E149)
    ||| (0x1E2F0 <= u && u <= 0x1E2F9) || (0x1E4F0 <= u && u <= 0x1E4F9) || (0x1E5F1 <= u && u <= 0x1E5FA)
    ||| (0x1E950 <= u && u <= 0x1E959) || (0x1FBF0 <= u && u <= 0x1FBF9)
}

// ---------------------------------------------------------------------------
// Executable matchers
// ---------------------------------------------------------------------------

/// Whether `c` matches the literal character `lit` when case is ignored.
pub fn ci_match_char(lit: char, c: char) -> (r: bool)
    ensures
        r == ci_match(lit, c),
{
    let ll = to_ascii_lower(lit);
    let lc = to_ascii_lower(c);
    let lu = lit as u32;
    let cu = c as u32;
    c == lit || ('a' <= ll && ll <= 'z' && lc == ll) || (ll == 'k' && cu == 0x212A) || (ll == 's'
        && cu == 0x17F) || ((lu == 0xE0 || lu == 0xC0) && (cu == 0xE0 || cu == 0xC0)) || ((lu
        == 0xE9 || lu == 0xC9) && (cu == 0xE9 || cu == 0xC9))
}

/// Whether `lit` occurs in `s` at `pos`, case ignored.
pub fn ci_at_exec(s: &Vec<char>, pos: usize, lit: &Vec<char>) -> (r: bool)
    ensures
        r == ci_at(s@, pos as int, lit@),
{
    if pos > s.len() || lit.len() > s.len() - pos {
        return false;
    }
    let mut j: usize = 0;
    while j < lit.len()
        invariant
            pos + lit.len() <= s.len(),
            j <= lit.len(),
            forall|m: int| 0 <= m < j ==> ci_match(#[trigger] lit@[m], s@[pos + m]),
        decreases lit.len() - j,
    {
        if !ci_match_char(lit[j], s[pos + j]) {
            return false;
        }
        j += 1;
    }
    true
}

/// Whether `lit` occurs in `s` at `pos`, exactly.
pub fn at_exec(s: &Vec<char>, pos: usize, lit: &Vec<char>) -> (r: bool)
    ensures
        r == at(s@, pos as int, lit@),
{
    if pos > s.len() || lit.len() > s.len() - pos {
        return false;
    }
    let mut j: usize = 0;
    while j < lit.len()
        invariant
            pos + lit.len() <= s.len(),
            j <= lit.len(),
            forall|m: int| 0 <= m < j ==> lit@[m] == s@[pos + m],
        decreases lit.len() - j,
    {
        if lit[j] != s[pos + j] {
            assert(s@.subrange(pos as int, pos + lit.len())[j as int] != lit@[j as int]);
            return false;
        }
        j += 1;
    }
    assert(s@.subrange(pos as int, pos + lit.len()) =~= lit@);
    true
}

/// Whether `s[from..to]` is free of line feeds.
pub fn no_nl_exec(s: &Vec<char>, from: usize, to: usize) -> (r: bool)
    requires
        from <= to <= s.len(),
    ensures
        r == no_nl(s@.subrange(from as int, to as int)),
{
    let mut i = from;
    while i < to
        invariant
            from <= i <= to <= s.len(),
            forall|m: int| from <= m < i ==> s@[m] != '\n',
        decreases to - i,
    {
        if s[i] == '\n' {
            assert(s@.subrange(from as int, to as int)[i - from] == '\n');
            return false;
        }
        i += 1;
    }
    assert forall|m: int| 0 <= m < to - from implies s@.subrange(from as int, to as int)[m] != '\n' by {
        assert(s@.subrange(from as int, to as int)[m] == s@[from + m]);
    }
    true
}

/// Whether `c` is a Unicode decimal digit.
pub fn is_decimal_digit_exec(c: char) -> (r: bool)
    ensures
        r == is_decimal_digit(c),
{
    let u = c as u32;
    (0x30 <= u && u <= 0x39) || (0x660 <= u && u <= 0x669) || (0x6F0 <= u && u <= 0x6F9)
    || (0x7C0 <= u && u <= 0x7C9) || (0x966 <= u && u <= 0x96F) || (0x9E6 <= u && u <= 0x9EF)
    || (0xA66 <= u && u <= 0xA6F) || (0xAE6 <= u && u <= 0xAEF) || (0xB66 <= u && u <= 0xB6F)
    || (0xBE6 <= u && u <= 0xBEF) || (0xC66 <= u && u <= 0xC6F) || (0xCE6 <= u && u <= 0xCEF)
    || (0xD66 <= u && u <= 0xD6F) || (0xDE6 <= u && u <= 0xDEF) || (0xE50 <= u && u <= 0xE59)
    || (0xED0 <= u && u <= 0xED9) || (0xF20 <= u && u <= 0xF29) || (0x1040 <= u && u <= 0x1049)
    || (0x1090 <= u && u <= 0x1099) || (0x17E0 <= u && u <= 0x17E9) || (0x1810 <= u && u <= 0x1819)
    || (0x1946 <= u && u <= 0x194F) || (0x19D0 <= u && u <= 0x19D9) || (0x1A80 <= u && u <= 0x1A89)
    || (0x1A90 <= u && u <= 0x1A99) || (0x1B50 <= u && u <= 0x1B59) || (0x1BB0 <= u && u <= 0x1BB9)
    || (0x1C40 <= u && u <= 0x1C49) || (0x1C50 <= u && u <= 0x1C59) || (0xA620 <= u && u <= 0xA629)
    || (0xA8D0 <= u && u <= 0xA8D9) || (0xA900 <= u && u <= 0xA909) || (0xA9D0 <= u && u <= 0xA9D9)
    || (0xA9F0 <= u && u <= 0xA9F9) || (0xAA50 <= u && u <= 0xAA59) || (0xABF0 <= u && u <= 0xABF9)
    || (0xFF10 <= u && u <= 0xFF19) || (0x104A0 <= u && u <= 0x104A9) || (0x10D30 <= u && u <= 0x10D39)
    || (0x10D40 <= u && u <= 0x10D49) || (0x11066 <= u && u <= 0x1106F) || (0x110F0 <= u && u <= 0x110F9)
    || (0x11136 <= u && u <= 0x1113F) || (0x111D0 <= u && u <= 0x111D9) || (0x112F0 <= u && u <= 0x112F9)
    || (0x11450 <= u && u <= 0x11459) || (0x114D0 <= u && u <= 0x114D9) || (0x11650 <= u && u <= 0x11659)
    || (0x116C0 <= u && u <= 0x116C9) || (0x116D0 <= u && u <= 0x116E3) || (0x11730 <= u && u <= 0x11739)
    || (0x118E0 <= u && u <= 0x118E9) || (0x11950 <= u && u <= 0x11959) || (0x11BF0 <= u && u <= 0x11BF9)
    || (0x11C50 <= u && u <= 0x11C59) || (0x11D50 <= u && u <= 0x11D59) || (0x11DA0 <= u && u <= 0x11DA9)
    || (0x11F50 <= u && u <= 0x11F59) || (0x16130 <= u && u <= 0x16139) || (0x16A60 <= u && u <= 0x16A69)
    || (0x16AC0 <= u && u <= 0x16AC9) || (0x16B50 <= u && u <= 0x16B59) || (0x16D70 <= u && u <= 0x16D79)
    || (0x1CCF0 <= u && u <= 0x1CCF9) || (0x1D7CE <= u && u <= 0x1D7FF) || (0x1E140 <= u && u <= 0x1E149)
    || (0x1E2F0 <= u && u <= 0x1E2F9) || (0x1E4F0 <= u && u <= 0x1E4F9) || (0x1E5F1 <= u && u <= 0x1E5FA)
    || (0x1E950 <= u && u <= 0x1E959) || (0x1FBF0 <= u && u <= 0x1FBF9)
}

// ---------------------------------------------------------------------------
// The lazy name field: the shortest non-empty line-free run that a separator follows
// ---------------------------------------------------------------------------

/// The separators that end a lazily matched name in the notification grammar.
pub enum Sep {
    /// French or Spanish group-invite phrase.
    Invite,
    /// `'s group` after the English invite prefix.
    InviteEn,
    /// French, English or Spanish trade phrase.
    Trade,
    /// ` : ` followed by a non-empty line-free message running to the end.
    Pm,
    /// ` - Dofus Retro v` followed by a non-empty run of digits and dots to the end.
    Title,
}

pub open spec fn invite_fr() -> Seq<char> { " t'invite à rejoindre son groupe"@ }
pub open spec fn invite_es() -> Seq<char> { " te invita a unirte a su grupo"@ }
pub open spec fn invite_en_suffix() -> Seq<char> { "'s group"@ }
pub open spec fn trade_fr() -> Seq<char> { " te propose de faire un échange"@ }
pub open spec fn trade_en() -> Seq<char> { " offers a trade"@ }
pub open spec fn trade_es() -> Seq<char> { " te propone realizar un intercambio"@ }
pub open spec fn pm_sep() -> Seq<char> { " : "@ }
pub open spec fn title_sep() -> Seq<char> { " - Dofus Retro v"@ }

/// The separator `sep` starts at position `k` of `t` (and, for the anchored
/// separators, the rest of `t` has the required shape).
pub open spec fn sep_at(sep: Sep, t: Seq<char>, k: int) -> bool {
    match sep {
        Sep::Invite => ci_at(t, k, invite_fr()) || ci_at(t, k, invite_es()),
        Sep::InviteEn => ci_at(t, k, invite_en_suffix()),
        Sep::Trade => ci_at(t, k, trade_fr()) || ci_at(t, k, trade_en()) || ci_at(t, k, trade_es()),
        Sep::Pm => ci_at(t, k, pm_sep()) && k + pm_sep().len() < t.len() && no_nl(
            t.subrange(k + pm_sep().len(), t.len() as int),
        ),
        Sep::Title => at(t, k, title_sep()) && k + title_sep().len() < t.len() && forall|i: int|
            k + title_sep().len() <= i < t.len() ==> (is_decimal_digit(#[trigger] t[i]) || t[i]
                == '.'),
    }
}

/// `t[start..k]` is the name that a lazy `(.+?)` at `start` captures before `sep`:
/// non-empty, free of line feeds, followed by `sep`, and no shorter run is.
pub open spec fn is_cut(sep: Sep, t: Seq<char>, start: int, k: int) -> bool {
    &&& start < k
    &&& no_nl(t.subrange(start, k))
    &&& sep_at(sep, t, k)
    &&& forall|j: int| start < j < k ==> !sep_at(sep, t, j)
}

/// The end of the lazily matched name at `start`, if the pattern can match.
pub open spec fn cut(sep: Sep, t: Seq<char>, start: int) -> Option<int> {
    if exists|k: int| is_cut(sep, t, start, k) {
        Some(choose|k: int| is_cut(sep, t, start, k))
    } else {
        None
    }
}

pub proof fn lemma_cut_unique(sep: Sep, t: Seq<char>, start: int, k: int)
    requires
        is_cut(sep, t, start, k),
    ensures
        cut(sep, t, start) == Some(k),
{
    let c = choose|k: int| is_cut(sep, t, start, k);
    assert(is_cut(sep, t, start, c));
    if c < k {
        assert(!sep_at(sep, t, c));
    }
    if k < c {
        assert(!sep_at(sep, t, k));
    }
}

/// Whether `sep` starts at position `k` of `t`.
pub fn sep_at_exec(sep: &Sep, t: &Vec<char>, k: usize) -> (r: bool)
    ensures
        r == sep_at(*sep, t@, k as int),
{
    match sep {
        Sep::Invite => {
            let fr = chars_of(" t'invite à rejoindre son groupe");
            let es = chars_of(" te invita a unirte a su grupo");
            ci_at_exec(t, k, &fr) || ci_at_exec(t, k, &es)
        },
        Sep::InviteEn => {
            let en = chars_of("'s group");
            ci_at_exec(t, k, &en)
        },
        Sep::Trade => {
            let fr = chars_of(" te propose de faire un échange");
            let en = chars_of(" offers a trade");
            let es = chars_of(" te propone realizar un intercambio");
            ci_at_exec(t, k, &fr) || ci_at_exec(t, k, &en) || ci_at_exec(t, k, &es)
        },
        Sep::Pm => {
            let s = chars_of(" : ");
            if !ci_at_exec(t, k, &s) {
                return false;
            }
            if k > t.len() || s.len() > t.len() - k {
                return false;
            }
            let rest = k + s.len();
            rest < t.len() && no_nl_exec(t, rest, t.len())
        },
        Sep::Title => {
            let s = chars_of(" - Dofus Retro v");
            if !at_exec(t, k, &s) {
                return false;
            }
            if k > t.len() || s.len() > t.len() - k {
                return false;
            }
            let rest = k + s.len();
            if rest >= t.len() {
                return false;
            }
            let mut i = rest;
            while i < t.len()
                invariant
                    *sep is Title,
                    rest <= i <= t.len(),
                    rest == k + title_sep().len(),
                    forall|m: int| rest <= m < i ==> (is_decimal_digit(#[trigger] t@[m]) || t@[m]
                        == '.'),
                decreases t.len() - i,
            {
                if !(is_decimal_digit_exec(t[i]) || t[i] == '.') {
                    assert(!(is_decimal_digit(t@[i as int]) || t@[i as int] == '.'));
                    assert(*sep is Title);
                    assert(!sep_at(*sep, t@, k as int));
                    return false;
                }
                i += 1;
            }
            true
        },
    }
}

/// The end of the lazily matched name at `start`, if the pattern can match.
pub fn find_cut(sep: &Sep, t: &Vec<char>, start: usize) -> (r: Option<usize>)
    ensures
        match r {
            Some(k) => cut(*sep, t@, start as int) == Some(k as int),
            None => cut(*sep, t@, start as int) is None,
        },
{
    if start >= t.len() {
        proof {
            if exists|k: int| is_cut(*sep, t@, start as int, k) {
                let k = choose|k: int| is_cut(*sep, t@, start as int, k);
                lemma_sep_in_bounds(*sep, t@, k);
            }
        }
        return None;
    }
    let mut k = start + 1;
    while k < t.len()
        invariant
            start < k <= t.len(),
            start < t.len(),
            no_nl(t@.subrange(start as int, k - 1)),
            forall|j: int| start < j < k ==> !sep_at(*sep, t@, j),
        decreases t.len() - k,
    {
        if t[k - 1] == '\n' {
            proof {
                if exists|c: int| is_cut(*sep, t@, start as int, c) {
                    let c = choose|c: int| is_cut(*sep, t@, start as int, c);
                    if c >= k {
                        assert(t@.subrange(start as int, c)[k - 1 - start] == '\n');
                    }
                }
            }
            return None;
        }
        assert(no_nl(t@.subrange(start as int, k as int))) by {
            assert forall|m: int| 0 <= m < k - start implies t@.subrange(start as int, k as int)[m]
                != '\n' by {
                if m < k - 1 - start {
                    assert(t@.subrange(start as int, k as int)[m] == t@.subrange(start as int, k - 1)[m]);
                }
            }
        }
        if sep_at_exec(sep, t, k) {
            proof {
                lemma_cut_unique(*sep, t@, start as int, k as int);
            }
            return Some(k);
        }
        k += 1;
    }
    proof {
        if exists|c: int| is_cut(*sep, t@, start as int, c) {
            let c = choose|c: int| is_cut(*sep, t@, start as int, c);
            lemma_sep_in_bounds(*sep, t@, c);
        }
    }
    None
}

/// Every separator needs at least one character of `t` at or after `k`.
pub proof fn lemma_sep_in_bounds(sep: Sep, t: Seq<char>, k: int)
    requires
        sep_at(sep, t, k),
    ensures
        0 <= k < t.len(),
{
    reveal_strlit(" t'invite à rejoindre son groupe");
    reveal_strlit(" te invita a unirte a su grupo");
    reveal_strlit("'s group");
    reveal_strlit(" te propose de faire un échange");
    reveal_strlit(" offers a trade");
    reveal_strlit(" te propone realizar un intercambio");
    reveal_strlit(" : ");
    reveal_strlit(" - Dofus Retro v");
}

} // verus!
