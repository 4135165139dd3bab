//! Rows in the order of a text that ranks them, rows of equal rank staying
//! in the order in which they came.

use vstd::prelude::*;
use vstd::seq_lib::*;
use crate::records::{
    lemma_rows_push, rows, AssistantRow, Keyed, MessageRow, Record, SyncAssistant, SyncMessage,
};
use crate::stamp::{is_after, lemma_stamp_order, stamp_after};

verus! {

/// A row that is ranked by a text. Texts are ordered as timestamps are: by
/// their UTF-8 bytes.
pub trait Ranked {
    spec fn rank(&self) -> Seq<char>;
}

/// An assistant is ranked by its identity.
impl Ranked for AssistantRow {
    open spec fn rank(&self) -> Seq<char> {
        self.id
    }
}

/// A message is ranked by the time of its creation.
impl Ranked for MessageRow {
    open spec fn rank(&self) -> Seq<char> {
        self.timestamp
    }
}

/// An executable row whose view is ranked.
pub trait RankedRecord: View + Sized where Self::V: Ranked {
    fn rank_text(&self) -> (r: &String)
        ensures
            r@ == self@.rank(),
    ;
}

impl RankedRecord for SyncAssistant {
    fn rank_text(&self) -> (r: &String) {
        &self.id
    }
}

impl RankedRecord for SyncMessage {
    fn rank_text(&self) -> (r: &String) {
        &self.timestamp
    }
}

/// Where a row of rank `k` goes into `sorted`: before the first row whose
/// rank is strictly later than `k`, or at the end.
pub open spec fn slot<R: Ranked>(sorted: Seq<R>, k: Seq<char>) -> int
    decreases sorted.len(),
{
    if sorted.len() == 0 {
        0
    } else if stamp_after(sorted[0].rank(), k) {
        0
    } else {
        1 + slot(sorted.skip(1), k)
    }
}

/// The rows of `items` by ascending rank, rows of equal rank in the order
/// in which they stand in `items`.
pub open spec fn ordered<R: Ranked>(items: Seq<R>) -> Seq<R>
    decreases items.len(),
{
    if items.len() == 0 {
        Seq::empty()
    } else {
        let init = ordered(items.drop_last());
        init.insert(slot(init, items.last().rank()), items.last())
    }
}

/// No row of `items` is ranked strictly later than a row behind it.
pub open spec fn ascending<R: Ranked>(items: Seq<R>) -> bool {
    forall|i: int, j: int|
        0 <= i < j < items.len() ==> !stamp_after(
            (#[trigger] items[i]).rank(),
            (#[trigger] items[j]).rank(),
        )
}

/// The slot lies within the sequence; no row before it is ranked strictly
/// later than `k`, and the row at it is.
pub proof fn lemma_slot<R: Ranked>(sorted: Seq<R>, k: Seq<char>)
    ensures
        0 <= slot(sorted, k) <= sorted.len(),
        forall|i: int| 0 <= i < slot(sorted, k) ==> !stamp_after((#[trigger] sorted[i]).rank(), k),
        slot(sorted, k) < sorted.len() ==> stamp_after(sorted[slot(sorted, k)].rank(), k),
    decreases sorted.len(),
{
    if sorted.len() > 0 && !stamp_after(sorted[0].rank(), k) {
        let rest = sorted.skip(1);
        lemma_slot(rest, k);
        assert forall|i: int| 0 <= i < slot(sorted, k) implies !stamp_after(
            (#[trigger] sorted[i]).rank(),
            k,
        ) by {
            if i > 0 {
                assert(sorted[i] == rest[i - 1]);
            }
        }
        if slot(sorted, k) < sorted.len() {
            assert(sorted[slot(sorted, k)] == rest[slot(rest, k)]);
        }
    }
}

/// The ordered rows are ascending, and they are the rows of `items`, each
/// as often as it stands there.
pub proof fn lemma_ordered<R: Ranked>(items: Seq<R>)
    ensures
        ascending(ordered(items)),
        ordered(items).to_multiset() == items.to_multiset(),
        ordered(items).len() == items.len(),
    decreases items.len(),
{
    if items.len() == 0 {
        assert(items =~= Seq::<R>::empty());
    } else {
        let init = ordered(items.drop_last());
        let last = items.last();
        let at = slot(init, last.rank());
        let out = ordered(items);
        lemma_ordered(items.drop_last());
        lemma_slot(init, last.rank());
        init.insert_ensures(at, last);
        assert forall|i: int, j: int| 0 <= i < j < out.len() implies !stamp_after(
            (#[trigger] out[i]).rank(),
            (#[trigger] out[j]).rank(),
        ) by {
            if j < at {
                assert(out[i] == init[i] && out[j] == init[j]);
            } else if j == at {
                assert(out[i] == init[i]);
            } else if i < at {
                assert(out[i] == init[i] && out[j] == init[j - 1]);
            } else if i == at {
                assert(out[j] == init[j - 1]);
                assert(!stamp_after(init[at].rank(), init[j - 1].rank()) || at == j - 1);
                lemma_stamp_order(last.rank(), init[j - 1].rank(), init[at].rank());
                lemma_stamp_order(init[at].rank(), last.rank(), init[j - 1].rank());
            } else {
                assert(out[i] == init[i - 1] && out[j] == init[j - 1]);
            }
        }
        to_multiset_insert(init, at, last);
        to_multiset_build(items.drop_last(), last);
        assert(items.drop_last().push(last) =~= items);
    }
}

/// The ordered rows hold a row exactly when `items` holds it.
pub proof fn lemma_ordered_contains<R: Ranked>(items: Seq<R>)
    ensures
        forall|x: R| #[trigger] ordered(items).contains(x) <==> items.contains(x),
{
    lemma_ordered(items);
    ordered(items).to_multiset_ensures();
    items.to_multiset_ensures();
    assert forall|x: R| #[trigger] ordered(items).contains(x) <==> items.contains(x) by {
        assert(ordered(items).to_multiset().count(x) == items.to_multiset().count(x));
    }
}

/// Copies of the rows of `items` by ascending rank, rows of equal rank in
/// the order in which they stand in `items`.
pub fn sort_by_rank<T: RankedRecord + Record>(items: &Vec<T>) -> (out: Vec<T>) where
    T::V: Ranked + Keyed,

    ensures
        rows(out@) == ordered(rows(items@)),
{
    let mut out: Vec<T> = Vec::new();
    let mut i: usize = 0;
    proof {
        assert(rows(items@.take(0)) =~= Seq::<T::V>::empty());
        assert(rows(out@) =~= Seq::<T::V>::empty());
    }
    while i < items.len()
        invariant
            i <= items.len(),
            rows(out@) == ordered(rows(items@.take(i as int))),
        decreases items.len() - i,
    {
        let ghost sorted = rows(out@);
        let ghost k = items@[i as int]@.rank();
        let mut at: usize = 0;
        proof {
            assert(sorted.skip(0) == sorted);
        }
        while at < out.len() && !is_after(out[at].rank_text().as_str(), items[i].rank_text().as_str())
            invariant
                at <= out.len(),
                i < items.len(),
                sorted == rows(out@),
                k == items@[i as int]@.rank(),
                slot(sorted, k) == at + slot(sorted.skip(at as int), k),
            decreases out.len() - at,
        {
            proof {
                assert(sorted.skip(at as int)[0] == sorted[at as int]);
                assert(sorted.skip(at as int).skip(1) == sorted.skip(at + 1));
            }
            at += 1;
        }
        proof {
            if at < out.len() {
                assert(sorted.skip(at as int)[0] == sorted[at as int]);
            }
            assert(slot(sorted, k) == at);
        }
        let ghost before = out@;
        let item = items[i].duplicate();
        out.insert(at, item);
        proof {
            assert(items@.take(i + 1) == items@.take(i as int).push(items@[i as int]));
            lemma_rows_push(items@.take(i as int), items@[i as int]);
            assert(rows(items@.take(i + 1)).drop_last() =~= rows(items@.take(i as int)));
            assert(rows(out@) =~= sorted.insert(at as int, item@));
        }
        i += 1;
    }
    proof {
        assert(items@.take(items.len() as int) == items@);
    }
    out
}

} // verus!
