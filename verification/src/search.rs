//! First-match search over an index range, the shape of every "find the first
//! element that…" in the account bookkeeping.
use vstd::prelude::*;

verus! {

/// `i` is the first index below `n` at which `p` holds.
pub open spec fn is_first(n: int, p: spec_fn(int) -> bool, i: int) -> bool {
    0 <= i < n && p(i) && forall|j: int| 0 <= j < i ==> !#[trigger] p(j)
}

/// The first index below `n` at which `p` holds.
pub open spec fn first_index(n: int, p: spec_fn(int) -> bool) -> Option<int> {
    if exists|i: int| is_first(n, p, i) {
        Some(choose|i: int| is_first(n, p, i))
    } else {
        None
    }
}

pub proof fn lemma_first_index_is(n: int, p: spec_fn(int) -> bool, i: int)
    requires
        is_first(n, p, i),
    ensures
        first_index(n, p) == Some(i),
{
    let c = choose|c: int| is_first(n, p, c);
    assert(is_first(n, p, c));
    if c < i {
        assert(!p(c));
    }
    if i < c {
        assert(!p(i));
    }
}

pub proof fn lemma_first_index_none(n: int, p: spec_fn(int) -> bool)
    requires
        forall|j: int| 0 <= j < n ==> !#[trigger] p(j),
    ensures
        first_index(n, p) is None,
{
}

/// Whatever the first index is, it satisfies `p`; and there is one exactly when
/// `p` holds somewhere below `n`.
pub proof fn lemma_first_index(n: int, p: spec_fn(int) -> bool)
    ensures
        match first_index(n, p) {
            Some(i) => is_first(n, p, i),
            None => forall|j: int| 0 <= j < n ==> !#[trigger] p(j),
        },
{
    if first_index(n, p) is None {
        assert forall|j: int| 0 <= j < n implies !#[trigger] p(j) by {
            if p(j) {
                lemma_exists_first(n, p, j);
            }
        }
    }
}

proof fn lemma_exists_first(n: int, p: spec_fn(int) -> bool, k: int)
    requires
        0 <= k < n,
        p(k),
    ensures
        exists|i: int| is_first(n, p, i),
    decreases k,
{
    if exists|j: int| 0 <= j < k && #[trigger] p(j) {
        let j = choose|j: int| 0 <= j < k && #[trigger] p(j);
        lemma_exists_first(n, p, j);
    } else {
        assert(is_first(n, p, k));
    }
}

/// An optional index as an integer.
pub open spec fn opt_int(r: Option<usize>) -> Option<int> {
    match r {
        Some(i) => Some(i as int),
        None => None,
    }
}

} // verus!
