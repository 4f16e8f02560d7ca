//! Bookkeeping of the Windows notification sources: which notifications are
//! new, what segments a toast yields, how far the database poll has read, and
//! when its connection is reopened.
use vstd::prelude::*;
use std::collections::HashSet;
use crate::parser::{toast_texts, toast_texts_from, toast_segments, toast_segments_spec, views};

verus! {

broadcast use vstd::std_specs::hash::group_hash_axioms;

/// The ids of `ids` that are neither in `seen` nor earlier in `ids`, in order.
pub open spec fn fresh_ids(seen: Set<u32>, ids: Seq<u32>) -> Seq<u32>
    decreases ids.len(),
{
    if ids.len() == 0 {
        Seq::empty()
    } else {
        let rest = fresh_ids(seen, ids.drop_last());
        if seen.contains(ids.last()) || ids.drop_last().contains(ids.last()) {
            rest
        } else {
            rest.push(ids.last())
        }
    }
}

/// The ids of `ids` as a set.
pub open spec fn id_set(ids: Seq<u32>) -> Set<u32> {
    Set::new(|x: u32| ids.contains(x))
}

/// Records the listed notification ids as seen and returns those not seen
/// before, in listing order, each once.
pub fn take_new_ids(seen: &mut HashSet<u32>, ids: &[u32]) -> (r: Vec<u32>)
    ensures
        final(seen)@ == old(seen)@.union(id_set(ids@)),
        r@ == fresh_ids(old(seen)@, ids@),
{
    let ghost seen0 = seen@;
    let mut out: Vec<u32> = Vec::new();
    let mut i: usize = 0;
    assert(id_set(ids@.take(0)) =~= Set::<u32>::empty());
    assert(seen0.union(Set::<u32>::empty()) =~= seen0);
    while i < ids.len()
        invariant
            i <= ids.len(),
            seen@ == seen0.union(id_set(ids@.take(i as int))),
            out@ == fresh_ids(seen0, ids@.take(i as int)),
        decreases ids.len() - i,
    {
        let id = ids[i];
        let ghost before = ids@.take(i as int);
        assert(ids@.take(i + 1).drop_last() =~= before);
        assert(ids@.take(i + 1).last() == id);
        let added = seen.insert(id);
        proof {
            assert(before.contains(id) <==> id_set(before).contains(id));
        }
        if added {
            out.push(id);
        }
        proof {
            let after = ids@.take(i + 1);
            assert forall|x: u32| id_set(after).contains(x) <==> (id_set(before).contains(x) || x == id) by {
                if after.contains(x) {
                    let k = choose|k: int| 0 <= k < after.len() && #[trigger] after[k] == x;
                    if k < i {
                        assert(before[k] == x);
                    }
                }
                if before.contains(x) {
                    let k = choose|k: int| 0 <= k < before.len() && #[trigger] before[k] == x;
                    assert(after[k] == x);
                }
                if x == id {
                    assert(after[i as int] == x);
                }
            }
            assert(seen@ =~= seen0.union(id_set(ids@.take(i + 1))));
        }
        i += 1;
    }
    assert(ids@.take(ids.len() as int) =~= ids@);
    out
}

/// The strings of `texts` that are not empty, in order.
pub open spec fn nonempty(texts: Seq<Seq<char>>) -> Seq<Seq<char>>
    decreases texts.len(),
{
    if texts.len() == 0 {
        Seq::empty()
    } else if texts.last().len() == 0 {
        nonempty(texts.drop_last())
    } else {
        nonempty(texts.drop_last()).push(texts.last())
    }
}

/// The segments of a toast read element by element: its empty texts are
/// dropped, the rest (title first) make the segments; `None` when none is left.
pub fn toast_text_segments(texts: &[String]) -> (r: Option<Vec<String>>)
    ensures
        match r {
            Some(v) => toast_segments_spec(nonempty(views(texts@))) == Some(views(v@)),
            None => toast_segments_spec(nonempty(views(texts@))) is None,
        },
{
    let mut kept: Vec<String> = Vec::new();
    let mut i: usize = 0;
    while i < texts.len()
        invariant
            i <= texts.len(),
            views(kept@) == nonempty(views(texts@.take(i as int))),
        decreases texts.len() - i,
    {
        assert(views(texts@.take(i + 1)).drop_last() =~= views(texts@.take(i as int)));
        assert(views(texts@.take(i + 1)).last() == texts@[i as int]@);
        if texts[i].as_str().unicode_len() > 0 {
            let ghost before = views(kept@);
            kept.push(crate::text::copy_string(&texts[i]));
            assert(views(kept@) =~= before.push(texts@[i as int]@));
        }
        i += 1;
    }
    assert(texts@.take(texts.len() as int) =~= texts@);
    toast_segments(&kept)
}

/// What one row of the notification database yields: the read position moves
/// past `id`, and a payload with text elements yields the segments of its toast.
pub fn poll_row(last_id: u64, id: u64, payload: &str) -> (r: (u64, Option<Vec<String>>))
    ensures
        r.0 == if id > last_id { id } else { last_id },
        match r.1 {
            Some(v) => toast_segments_spec(toast_texts_from(payload@, 0)) == Some(views(v@)),
            None => toast_segments_spec(toast_texts_from(payload@, 0)) is None,
        },
{
    let texts = toast_texts(payload);
    let segments = toast_segments(&texts);
    let next = if id > last_id {
        id
    } else {
        last_id
    };
    (next, segments)
}

/// Failed database polls in a row after a poll that `succeeded` or not
/// (saturating), and whether the connection should be reopened (from the
/// third failure in a row on).
pub fn poll_failures(failures: u32, succeeded: bool) -> (r: (u32, bool))
    ensures
        r.0 == if succeeded {
            0
        } else if failures == u32::MAX {
            u32::MAX
        } else {
            (failures + 1) as u32
        },
        r.1 == (r.0 >= 3),
{
    let next = if succeeded {
        0
    } else {
        failures.saturating_add(1)
    };
    (next, next >= 3)
}

} // verus!
