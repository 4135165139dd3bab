//! Tables of rows found by identity: lookup, the rows changed since a
//! watermark, and the upsert by which incoming rows are written.

use vstd::prelude::*;
use crate::records::{lemma_rows_push, rows, Keyed, Record};
use crate::stamp::{is_after, lemma_stamp_order, stamp_after};

verus! {

/// How a row that arrives is weighed against the local row of its identity.
#[derive(Clone, Copy, Debug, PartialEq, Eq, Structural)]
pub enum ConflictPolicy {
    /// The row that arrives replaces the local row, whatever their timestamps.
    RemoteWins,
    /// The row that arrives replaces the local row unless the local row was
    /// modified strictly later.
    NewerWins,
}

/// Some row of `table` has the identity `key`.
pub open spec fn holds<R: Keyed>(table: Seq<R>, key: Seq<char>) -> bool {
    exists|i: int| 0 <= i < table.len() && #[trigger] table[i].key() == key
}

/// The index of a row of `table` with the identity `key` (the only one where
/// the identities are distinct).
pub open spec fn index_of<R: Keyed>(table: Seq<R>, key: Seq<char>) -> int {
    choose|i: int| 0 <= i < table.len() && #[trigger] table[i].key() == key
}

/// No two rows of `table` share an identity.
pub open spec fn distinct<R: Keyed>(table: Seq<R>) -> bool {
    forall|i: int, j: int|
        0 <= i < j < table.len() ==> #[trigger] table[i].key() != #[trigger] table[j].key()
}

/// The rows of `table` modified strictly later than `mark`, in the order of
/// the table.
pub open spec fn changed_since<R: Keyed>(table: Seq<R>, mark: Seq<char>) -> Seq<R> {
    table.filter(|r: R| stamp_after(r.stamp(), mark))
}

/// Whether `incoming` replaces `local` under `policy`.
pub open spec fn prevails<R: Keyed>(policy: ConflictPolicy, local: R, incoming: R) -> bool {
    match policy {
        ConflictPolicy::RemoteWins => true,
        ConflictPolicy::NewerWins => !stamp_after(local.stamp(), incoming.stamp()),
    }
}

/// Whether writing `row` changes `table`: its identity is new, or it
/// prevails over the local row of its identity.
pub open spec fn is_written<R: Keyed>(policy: ConflictPolicy, table: Seq<R>, row: R) -> bool {
    !holds(table, row.key()) || prevails(policy, table[index_of(table, row.key())], row)
}

/// `table` after `row` is written: appended where its identity is new, put
/// in the place of the local row where it prevails, and dropped otherwise.
pub open spec fn upsert<R: Keyed>(policy: ConflictPolicy, table: Seq<R>, row: R) -> Seq<R> {
    if !holds(table, row.key()) {
        table.push(row)
    } else if prevails(policy, table[index_of(table, row.key())], row) {
        table.update(index_of(table, row.key()), row)
    } else {
        table
    }
}

/// The owner that `row` names is a row of `owners`. A row that names no
/// owner misses none.
pub open spec fn owner_present<P: Keyed, R: Keyed>(owners: Seq<P>, row: R) -> bool {
    match row.owner() {
        Some(o) => holds(owners, o),
        None => true,
    }
}

/// Every row of `table` has its owner in `owners`.
pub open spec fn all_owned<P: Keyed, R: Keyed>(owners: Seq<P>, table: Seq<R>) -> bool {
    forall|i: int| 0 <= i < table.len() ==> owner_present(owners, #[trigger] table[i])
}

/// One write: `None` where the row would be written while its owner is
/// missing, else the table after the upsert.
pub open spec fn write_row<P: Keyed, R: Keyed>(
    policy: ConflictPolicy,
    owners: Seq<P>,
    table: Seq<R>,
    row: R,
) -> Option<Seq<R>> {
    if is_written(policy, table, row) && !owner_present(owners, row) {
        None
    } else {
        Some(upsert(policy, table, row))
    }
}

/// The writes of `incoming` in order, first to last: `None` as soon as one
/// of them is refused.
pub open spec fn write_rows<P: Keyed, R: Keyed>(
    policy: ConflictPolicy,
    owners: Seq<P>,
    table: Seq<R>,
    incoming: Seq<R>,
) -> Option<Seq<R>>
    decreases incoming.len(),
{
    if incoming.len() == 0 {
        Some(table)
    } else {
        match write_rows(policy, owners, table, incoming.drop_last()) {
            Some(t) => write_row(policy, owners, t, incoming.last()),
            None => None,
        }
    }
}

/// The index of the first row of `incoming` whose write is refused.
pub open spec fn first_refused<P: Keyed, R: Keyed>(
    policy: ConflictPolicy,
    owners: Seq<P>,
    table: Seq<R>,
    incoming: Seq<R>,
) -> int {
    choose|i: int| refused_at(policy, owners, table, incoming, i)
}

/// The writes of the first `i` rows of `incoming` pass and the next one is
/// refused.
pub open spec fn refused_at<P: Keyed, R: Keyed>(
    policy: ConflictPolicy,
    owners: Seq<P>,
    table: Seq<R>,
    incoming: Seq<R>,
    i: int,
) -> bool {
    &&& 0 <= i < incoming.len()
    &&& write_rows(policy, owners, table, incoming.take(i)) is Some
    &&& write_rows(policy, owners, table, incoming.take(i + 1)) is None
}

/// The row of `table` with the identity `key`.
pub open spec fn row_with<R: Keyed>(table: Seq<R>, key: Seq<char>) -> R {
    table[index_of(table, key)]
}

/// Row `i` of `incoming` is the last one of its identity there.
pub open spec fn last_of_its_identity<R: Keyed>(incoming: Seq<R>, i: int) -> bool {
    &&& 0 <= i < incoming.len()
    &&& forall|j: int| i < j < incoming.len() ==> (#[trigger] incoming[j]).key() != incoming[i].key()
}

/// In a table of distinct identities a row is found at one index only.
pub proof fn lemma_index_of<R: Keyed>(table: Seq<R>, i: int)
    requires
        distinct(table),
        0 <= i < table.len(),
    ensures
        holds(table, table[i].key()),
        index_of(table, table[i].key()) == i,
{
    let k = table[i].key();
    assert(table[i].key() == k);
    let j = index_of(table, k);
    if j < i {
        assert(table[j].key() != table[i].key());
    } else if i < j {
        assert(table[i].key() != table[j].key());
    }
}

/// An upsert keeps the identities distinct, keeps every identity that was
/// there, and adds at most the identity of the row.
pub proof fn lemma_upsert<R: Keyed>(policy: ConflictPolicy, table: Seq<R>, row: R)
    requires
        distinct(table),
    ensures
        distinct(upsert(policy, table, row)),
        forall|k: Seq<char>| holds(table, k) ==> holds(upsert(policy, table, row), k),
        forall|k: Seq<char>|
            holds(upsert(policy, table, row), k) ==> holds(table, k) || k == row.key(),
        holds(upsert(policy, table, row), row.key()),
        upsert(policy, table, row).len() >= table.len(),
        forall|i: int|
            0 <= i < table.len() ==> (#[trigger] upsert(policy, table, row)[i]).key()
                == table[i].key(),
{
    let after = upsert(policy, table, row);
    if !holds(table, row.key()) {
        assert forall|i: int, j: int| 0 <= i < j < after.len() implies #[trigger] after[i].key()
            != #[trigger] after[j].key() by {
            if j == table.len() {
                assert(table[i].key() != row.key());
            }
        }
        assert(after[table.len() as int].key() == row.key());
        assert forall|k: Seq<char>| holds(table, k) implies holds(after, k) by {
            let i = index_of(table, k);
            assert(after[i].key() == k);
        }
        assert forall|k: Seq<char>| holds(after, k) implies holds(table, k) || k == row.key() by {
            let i = index_of(after, k);
            if i < table.len() {
                assert(table[i].key() == k);
            }
        }
    } else {
        let at = index_of(table, row.key());
        assert(table[at].key() == row.key());
        assert forall|i: int| 0 <= i < after.len() implies #[trigger] after[i].key()
            == table[i].key() by {}
        assert forall|k: Seq<char>| holds(table, k) implies holds(after, k) by {
            let i = index_of(table, k);
            assert(after[i].key() == k);
        }
        assert forall|k: Seq<char>| holds(after, k) implies holds(table, k) || k == row.key() by {
            let i = index_of(after, k);
            assert(table[i].key() == k);
        }
        assert(after[at].key() == row.key());
    }
}

/// A write that passes leaves every row with its owner, where every row had
/// its owner before.
pub proof fn lemma_write_row_owned<P: Keyed, R: Keyed>(
    policy: ConflictPolicy,
    owners: Seq<P>,
    table: Seq<R>,
    row: R,
)
    requires
        all_owned(owners, table),
        write_row(policy, owners, table, row) is Some,
    ensures
        all_owned(owners, write_row(policy, owners, table, row)->0),
{
    let after = upsert(policy, table, row);
    assert forall|i: int| 0 <= i < after.len() implies owner_present(
        owners,
        #[trigger] after[i],
    ) by {
        if i < table.len() && after[i] == table[i] {
            assert(owner_present(owners, table[i]));
        }
    }
}

/// Writes that pass leave every row with its owner, where every row had its
/// owner before.
pub proof fn lemma_write_rows_owned<P: Keyed, R: Keyed>(
    policy: ConflictPolicy,
    owners: Seq<P>,
    table: Seq<R>,
    incoming: Seq<R>,
)
    requires
        all_owned(owners, table),
        write_rows(policy, owners, table, incoming) is Some,
    ensures
        all_owned(owners, write_rows(policy, owners, table, incoming)->0),
    decreases incoming.len(),
{
    if incoming.len() > 0 {
        let init = incoming.drop_last();
        lemma_write_rows_owned(policy, owners, table, init);
        lemma_write_row_owned(
            policy,
            owners,
            write_rows(policy, owners, table, init)->0,
            incoming.last(),
        );
    }
}

/// Once a write is refused, the writes of every longer prefix are refused.
pub proof fn lemma_refusal_lasts<P: Keyed, R: Keyed>(
    policy: ConflictPolicy,
    owners: Seq<P>,
    table: Seq<R>,
    incoming: Seq<R>,
    i: int,
    j: int,
)
    requires
        0 <= i <= j <= incoming.len(),
        write_rows(policy, owners, table, incoming.take(i)) is None,
    ensures
        write_rows(policy, owners, table, incoming.take(j)) is None,
    decreases j - i,
{
    if i < j {
        lemma_refusal_lasts(policy, owners, table, incoming, i, j - 1);
        assert(incoming.take(j).drop_last() == incoming.take(j - 1));
    }
}

/// The first refused write is the only index at which the writes before
/// pass and the next is refused.
pub proof fn lemma_first_refused<P: Keyed, R: Keyed>(
    policy: ConflictPolicy,
    owners: Seq<P>,
    table: Seq<R>,
    incoming: Seq<R>,
    i: int,
)
    requires
        refused_at(policy, owners, table, incoming, i),
    ensures
        first_refused(policy, owners, table, incoming) == i,
        write_rows(policy, owners, table, incoming) is None,
{
    let f = first_refused(policy, owners, table, incoming);
    assert(refused_at(policy, owners, table, incoming, f));
    if f < i {
        lemma_refusal_lasts(policy, owners, table, incoming, f + 1, i);
    } else if i < f {
        lemma_refusal_lasts(policy, owners, table, incoming, i + 1, f);
    }
    lemma_refusal_lasts(policy, owners, table, incoming, i + 1, incoming.len() as int);
    assert(incoming.take(incoming.len() as int) == incoming);
}

/// Where the writes of `incoming` all pass, the table that results has
/// distinct identities, and its identities are those of `table` and those of
/// `incoming`.
pub proof fn lemma_write_rows<P: Keyed, R: Keyed>(
    policy: ConflictPolicy,
    owners: Seq<P>,
    table: Seq<R>,
    incoming: Seq<R>,
)
    requires
        distinct(table),
        write_rows(policy, owners, table, incoming) is Some,
    ensures
        distinct(write_rows(policy, owners, table, incoming)->0),
        forall|k: Seq<char>|
            holds(write_rows(policy, owners, table, incoming)->0, k) <==> holds(table, k) || holds(
                incoming,
                k,
            ),
    decreases incoming.len(),
{
    let after = write_rows(policy, owners, table, incoming)->0;
    if incoming.len() == 0 {
        assert forall|k: Seq<char>| !holds(incoming, k) by {}
    } else {
        let init = incoming.drop_last();
        let mid = write_rows(policy, owners, table, init)->0;
        lemma_write_rows(policy, owners, table, init);
        lemma_upsert(policy, mid, incoming.last());
        assert forall|k: Seq<char>| holds(after, k) <==> holds(table, k) || holds(
            incoming,
            k,
        ) by {
            if holds(init, k) {
                let i = index_of(init, k);
                assert(incoming[i].key() == k);
            }
            if holds(incoming, k) {
                let i = index_of(incoming, k);
                if i < init.len() {
                    assert(init[i].key() == k);
                } else {
                    assert(k == incoming.last().key());
                }
            }
            assert(incoming[incoming.len() - 1].key() == incoming.last().key());
        }
    }
}

/// Rows that name no owner are never refused.
pub proof fn lemma_unowned_pass<P: Keyed, R: Keyed>(
    policy: ConflictPolicy,
    owners: Seq<P>,
    table: Seq<R>,
    incoming: Seq<R>,
)
    requires
        forall|i: int| 0 <= i < incoming.len() ==> (#[trigger] incoming[i]).owner() is None,
    ensures
        write_rows(policy, owners, table, incoming) is Some,
    decreases incoming.len(),
{
    if incoming.len() > 0 {
        lemma_unowned_pass(policy, owners, table, incoming.drop_last());
        assert(incoming.last() == incoming[incoming.len() - 1]);
    }
}

/// Rows that have their owners in `fewer` have them in any table that holds
/// every identity of `fewer`.
pub proof fn lemma_owned_by_more<P: Keyed, R: Keyed>(fewer: Seq<P>, more: Seq<P>, table: Seq<R>)
    requires
        all_owned(fewer, table),
        forall|k: Seq<char>| holds(fewer, k) ==> holds(more, k),
    ensures
        all_owned(more, table),
{
    assert forall|i: int| 0 <= i < table.len() implies owner_present(more, #[trigger] table[i]) by {
        assert(owner_present(fewer, table[i]));
    }
}

/// Where every incoming row has its owner, no write is refused, under
/// either policy.
pub proof fn lemma_owned_rows_pass<P: Keyed, R: Keyed>(
    policy: ConflictPolicy,
    owners: Seq<P>,
    table: Seq<R>,
    incoming: Seq<R>,
)
    requires
        all_owned(owners, incoming),
    ensures
        write_rows(policy, owners, table, incoming) is Some,
    decreases incoming.len(),
{
    if incoming.len() > 0 {
        let init = incoming.drop_last();
        assert forall|i: int| 0 <= i < init.len() implies owner_present(
            owners,
            #[trigger] init[i],
        ) by {
            assert(init[i] == incoming[i]);
        }
        lemma_owned_rows_pass(policy, owners, table, init);
        assert(owner_present(owners, incoming[incoming.len() - 1]));
    }
}

/// Where the incoming row always wins, the writes pass exactly when every
/// incoming row has its owner.
pub proof fn lemma_remote_wins_pass_iff_owned<P: Keyed, R: Keyed>(
    owners: Seq<P>,
    table: Seq<R>,
    incoming: Seq<R>,
)
    ensures
        write_rows(ConflictPolicy::RemoteWins, owners, table, incoming) is Some <==> all_owned(
            owners,
            incoming,
        ),
    decreases incoming.len(),
{
    let policy = ConflictPolicy::RemoteWins;
    if all_owned(owners, incoming) {
        lemma_owned_rows_pass(policy, owners, table, incoming);
    }
    if write_rows(policy, owners, table, incoming) is Some {
        if incoming.len() > 0 {
            let init = incoming.drop_last();
            lemma_remote_wins_pass_iff_owned(owners, table, init);
            assert forall|i: int| 0 <= i < incoming.len() implies owner_present(
                owners,
                #[trigger] incoming[i],
            ) by {
                if i < init.len() {
                    assert(init[i] == incoming[i]);
                    assert(owner_present(owners, init[i]));
                } else {
                    assert(incoming[i] == incoming.last());
                }
            }
        }
    }
}

/// Where the incoming row always wins and the writes pass, the table ends
/// up holding, under each incoming identity, the last incoming row of that
/// identity, field for field.
pub proof fn lemma_last_write_stays<P: Keyed, R: Keyed>(
    owners: Seq<P>,
    table: Seq<R>,
    incoming: Seq<R>,
    i: int,
)
    requires
        distinct(table),
        write_rows(ConflictPolicy::RemoteWins, owners, table, incoming) is Some,
        last_of_its_identity(incoming, i),
    ensures
        holds(
            write_rows(ConflictPolicy::RemoteWins, owners, table, incoming)->0,
            incoming[i].key(),
        ),
        row_with(
            write_rows(ConflictPolicy::RemoteWins, owners, table, incoming)->0,
            incoming[i].key(),
        ) == incoming[i],
    decreases incoming.len(),
{
    let policy = ConflictPolicy::RemoteWins;
    let init = incoming.drop_last();
    let last = incoming.last();
    let mid = write_rows(policy, owners, table, init)->0;
    let after = upsert(policy, mid, last);
    let k = incoming[i].key();
    lemma_write_rows(policy, owners, table, init);
    lemma_upsert(policy, mid, last);
    if i == incoming.len() - 1 {
        if !holds(mid, last.key()) {
            assert(after[mid.len() as int] == last);
            lemma_index_of(after, mid.len() as int);
        } else {
            let at = index_of(mid, last.key());
            assert(mid[at].key() == last.key());
            assert(after[at] == last);
            lemma_index_of(after, at);
        }
    } else {
        assert forall|j: int| i < j < init.len() implies (#[trigger] init[j]).key()
            != init[i].key() by {
            assert(init[j] == incoming[j]);
        }
        assert(init[i] == incoming[i]);
        lemma_last_write_stays(owners, table, init, i);
        let at = index_of(mid, k);
        assert(mid[at].key() == k);
        assert(incoming[incoming.len() - 1].key() != k);
        if holds(mid, last.key()) {
            let other = index_of(mid, last.key());
            assert(mid[other].key() == last.key());
        }
        assert(after[at] == mid[at]);
        lemma_index_of(after, at);
    }
}

/// Where the writes pass, a row whose identity is not among the incoming
/// rows stays as it was, under either policy.
pub proof fn lemma_other_rows_stay<P: Keyed, R: Keyed>(
    policy: ConflictPolicy,
    owners: Seq<P>,
    table: Seq<R>,
    incoming: Seq<R>,
    key: Seq<char>,
)
    requires
        distinct(table),
        write_rows(policy, owners, table, incoming) is Some,
        holds(table, key),
        !holds(incoming, key),
    ensures
        holds(write_rows(policy, owners, table, incoming)->0, key),
        row_with(write_rows(policy, owners, table, incoming)->0, key) == row_with(table, key),
    decreases incoming.len(),
{
    if incoming.len() > 0 {
        let init = incoming.drop_last();
        let last = incoming.last();
        let mid = write_rows(policy, owners, table, init)->0;
        let after = upsert(policy, mid, last);
        lemma_write_rows(policy, owners, table, init);
        lemma_upsert(policy, mid, last);
        if holds(init, key) {
            let j = index_of(init, key);
            assert(incoming[j].key() == key);
        }
        lemma_other_rows_stay(policy, owners, table, init, key);
        let at = index_of(mid, key);
        assert(mid[at].key() == key);
        assert(incoming[incoming.len() - 1].key() != key);
        if holds(mid, last.key()) {
            let other = index_of(mid, last.key());
            assert(mid[other].key() == last.key());
        }
        assert(after[at] == mid[at]);
        lemma_index_of(after, at);
    }
}

/// Where the newer row wins and the writes pass, no row of the table ends
/// up with an earlier modification than it had.
pub proof fn lemma_newer_wins_never_older<P: Keyed, R: Keyed>(
    owners: Seq<P>,
    table: Seq<R>,
    incoming: Seq<R>,
    key: Seq<char>,
)
    requires
        distinct(table),
        write_rows(ConflictPolicy::NewerWins, owners, table, incoming) is Some,
        holds(table, key),
    ensures
        holds(write_rows(ConflictPolicy::NewerWins, owners, table, incoming)->0, key),
        !stamp_after(
            row_with(table, key).stamp(),
            row_with(
                write_rows(ConflictPolicy::NewerWins, owners, table, incoming)->0,
                key,
            ).stamp(),
        ),
    decreases incoming.len(),
{
    let policy = ConflictPolicy::NewerWins;
    if incoming.len() == 0 {
        lemma_stamp_order(
            row_with(table, key).stamp(),
            row_with(table, key).stamp(),
            row_with(table, key).stamp(),
        );
    } else {
        let init = incoming.drop_last();
        let last = incoming.last();
        let mid = write_rows(policy, owners, table, init)->0;
        let after = upsert(policy, mid, last);
        lemma_write_rows(policy, owners, table, init);
        lemma_upsert(policy, mid, last);
        lemma_newer_wins_never_older(owners, table, init, key);
        let at = index_of(mid, key);
        assert(mid[at].key() == key);
        if holds(mid, last.key()) {
            let other = index_of(mid, last.key());
            assert(mid[other].key() == last.key());
            if other != at {
                assert(mid[other].key() != mid[at].key());
            }
        }
        lemma_index_of(after, at);
        if after[at] != mid[at] {
            lemma_stamp_order(
                row_with(table, key).stamp(),
                last.stamp(),
                mid[at].stamp(),
            );
            lemma_stamp_order(
                mid[at].stamp(),
                last.stamp(),
                row_with(table, key).stamp(),
            );
        }
    }
}

/// A table whose rows were all modified strictly later than `mark` is
/// collected whole.
pub proof fn lemma_all_changed<R: Keyed>(table: Seq<R>, mark: Seq<char>)
    requires
        forall|i: int| 0 <= i < table.len() ==> stamp_after((#[trigger] table[i]).stamp(), mark),
    ensures
        changed_since(table, mark) == table,
    decreases table.len(),
{
    let later = |r: R| stamp_after(r.stamp(), mark);
    if table.len() == 0 {
        assert(table.filter(later) =~= table) by {
            reveal(Seq::filter);
        }
    } else {
        let init = table.drop_last();
        assert forall|i: int| 0 <= i < init.len() implies stamp_after(
            (#[trigger] init[i]).stamp(),
            mark,
        ) by {
            assert(init[i] == table[i]);
        }
        lemma_all_changed(init, mark);
        init.lemma_filter_push(table.last(), later);
        assert(init.push(table.last()) =~= table);
        assert(stamp_after(table[table.len() - 1].stamp(), mark));
    }
}

/// The index of the first row of `table` with the identity `id`, if there
/// is one.
pub fn find<T: Record>(table: &Vec<T>, id: &String) -> (r: Option<usize>) where T::V: Keyed
    ensures
        match r {
            Some(i) => {
                &&& i < table.len()
                &&& rows(table@)[i as int].key() == id@
                &&& forall|j: int| 0 <= j < i ==> (#[trigger] rows(table@)[j]).key() != id@
            },
            None => !holds(rows(table@), id@),
        },
{
    let mut i: usize = 0;
    while i < table.len()
        invariant
            i <= table.len(),
            forall|j: int| 0 <= j < i ==> (#[trigger] rows(table@)[j]).key() != id@,
        decreases table.len() - i,
    {
        if *table[i].id() == *id {
            return Some(i);
        }
        i += 1;
    }
    None
}

/// The rows of `table` modified strictly later than `mark`, copied in the
/// order of the table.
pub fn rows_changed_since<T: Record>(table: &Vec<T>, mark: &str) -> (out: Vec<T>) where
    T::V: Keyed,

    ensures
        rows(out@) == changed_since(rows(table@), mark@),
{
    let mut out: Vec<T> = Vec::new();
    let ghost later = |r: T::V| stamp_after(r.stamp(), mark@);
    let mut i: usize = 0;
    proof {
        assert(rows(table@.take(0)) =~= Seq::<T::V>::empty());
        assert(rows(out@) =~= Seq::<T::V>::empty());
        assert(Seq::<T::V>::empty().filter(later) =~= Seq::<T::V>::empty()) by {
            reveal(Seq::filter);
        }
    }
    while i < table.len()
        invariant
            i <= table.len(),
            later == |r: T::V| stamp_after(r.stamp(), mark@),
            rows(out@) == rows(table@.take(i as int)).filter(later),
        decreases table.len() - i,
    {
        let ghost before = out@;
        let ghost seen = rows(table@.take(i as int));
        proof {
            assert(table@.take(i + 1) == table@.take(i as int).push(table@[i as int]));
            lemma_rows_push(table@.take(i as int), table@[i as int]);
            seen.lemma_filter_push(table@[i as int]@, later);
        }
        if is_after(table[i].updated_at().as_str(), mark) {
            let item = table[i].duplicate();
            out.push(item);
            proof {
                lemma_rows_push(before, item);
            }
        }
        i += 1;
    }
    proof {
        assert(table@.take(table.len() as int) == table@);
    }
    out
}

/// Whether `incoming` replaces `local` under `policy`.
pub fn replaces<T: Record>(policy: ConflictPolicy, local: &T, incoming: &T) -> (r: bool) where
    T::V: Keyed,

    ensures
        r == prevails(policy, local@, incoming@),
{
    match policy {
        ConflictPolicy::RemoteWins => true,
        ConflictPolicy::NewerWins => !is_after(
            local.updated_at().as_str(),
            incoming.updated_at().as_str(),
        ),
    }
}

/// Writes `row` into `table`: in the place of the row of its identity, or
/// at the end where there is none.
pub(crate) fn put_row<T: Record>(table: &mut Vec<T>, row: T) where T::V: Keyed
    requires
        distinct(rows(old(table)@)),
    ensures
        rows(final(table)@) == upsert(ConflictPolicy::RemoteWins, rows(old(table)@), row@),
{
    let ghost before = table@;
    match find(table, row.id()) {
        None => {
            table.push(row);
            proof {
                lemma_rows_push(before, row);
            }
        },
        Some(at) => {
            proof {
                lemma_index_of(rows(before), at as int);
            }
            table[at] = row;
            proof {
                assert(rows(table@) =~= rows(before).update(at as int, row@));
            }
        },
    }
}

/// Writes the rows of `incoming` into `table`, first to last, each as an
/// upsert under `policy`, and stops at the first row that would be written
/// while the owner it names is not in `owners`. Returns the index of that
/// row; `table` then holds the writes before it.
pub(crate) fn write_all<P: Record, T: Record>(
    policy: ConflictPolicy,
    owners: &Vec<P>,
    table: &mut Vec<T>,
    incoming: &Vec<T>,
) -> (r: Option<usize>) where P::V: Keyed, T::V: Keyed
    requires
        distinct(rows(old(table)@)),
        all_owned(rows(owners@), rows(old(table)@)),
    ensures
        distinct(rows(final(table)@)),
        all_owned(rows(owners@), rows(final(table)@)),
        match r {
            None => write_rows(policy, rows(owners@), rows(old(table)@), rows(incoming@))
                == Some(rows(final(table)@)),
            Some(i) => {
                &&& refused_at(policy, rows(owners@), rows(old(table)@), rows(incoming@), i as int)
                &&& write_rows(
                    policy,
                    rows(owners@),
                    rows(old(table)@),
                    rows(incoming@).take(i as int),
                ) == Some(rows(final(table)@))
            },
        },
{
    let ghost start = rows(table@);
    let ghost own = rows(owners@);
    let ghost inc = rows(incoming@);
    let mut i: usize = 0;
    proof {
        assert(inc.take(0).len() == 0);
    }
    while i < incoming.len()
        invariant
            i <= incoming.len(),
            own == rows(owners@),
            inc == rows(incoming@),
            start == rows(old(table)@),
            distinct(rows(table@)),
            all_owned(own, rows(table@)),
            write_rows(policy, own, start, inc.take(i as int)) == Some(rows(table@)),
        decreases incoming.len() - i,
    {
        let ghost cur = rows(table@);
        let ghost before = table@;
        let row = &incoming[i];
        proof {
            assert(inc.take(i + 1).drop_last() == inc.take(i as int));
            assert(inc.take(i + 1).last() == row@);
            lemma_upsert(policy, cur, row@);
        }
        let found = find(table, row.id());
        let written = match found {
            None => true,
            Some(at) => {
                proof {
                    lemma_index_of(cur, at as int);
                }
                replaces(policy, &table[at], row)
            },
        };
        assert(written == is_written(policy, cur, row@));
        if written {
            let owned = match row.owner_id() {
                None => true,
                Some(o) => find(owners, o).is_some(),
            };
            assert(owned == owner_present(own, row@));
            if !owned {
                proof {
                    assert(write_row(policy, own, cur, row@) is None);
                    assert(write_rows(policy, own, start, inc.take(i + 1)) is None);
                }
                return Some(i);
            }
            let item = row.duplicate();
            match found {
                None => {
                    table.push(item);
                    proof {
                        lemma_rows_push(before, item);
                    }
                },
                Some(at) => {
                    table[at] = item;
                    proof {
                        assert(rows(table@) =~= cur.update(at as int, item@));
                    }
                },
            }
        }
        proof {
            assert(rows(table@) == upsert(policy, cur, row@));
            lemma_write_row_owned(policy, own, cur, row@);
        }
        i += 1;
    }
    proof {
        assert(inc.take(incoming.len() as int) == inc);
    }
    None
}

} // verus!
