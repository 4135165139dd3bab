//! What holds of the engine as a whole, proved from the definitions that
//! the contracts of its functions use.

use vstd::prelude::*;
use crate::chats::{
    deleted, fresh_assistant, lemma_buried_where, lemma_deleted_consistent,
    lemma_saved_branches, lemma_saved_consistent, live_messages_of, live_topics_of, loaded,
    message_of, saved, AssistantBranchView,
};
use crate::cycle::{is_terminal, lock_held_in, next, ActionView, CycleView, EventView, Phase};
use crate::errors::SyncErrorView;
use crate::order::{ascending, lemma_ordered, lemma_ordered_contains, ordered, Ranked};
use crate::records::{AssistantRow, BundleView, Keyed, MessageRow, TopicRow};
use crate::stamp::{
    in_layout, lemma_after_or_not, lemma_layout_order_is_time, moment, stamp_after,
    stamp_at_or_after,
};
use crate::store::{
    applied, assistants_applied, collected, consistent, epoch, lemma_epoch, mark_of, StoreView,
};
use crate::sync::{cycle_outcome, cycle_request, store_after_cycle, ReplyView};
use crate::table::{
    changed_since, holds, last_of_its_identity, lemma_all_changed, lemma_last_write_stays,
    lemma_newer_wins_never_older, lemma_other_rows_stay, lemma_owned_by_more,
    lemma_owned_rows_pass, lemma_remote_wins_pass_iff_owned, lemma_unowned_pass, lemma_upsert,
    lemma_write_rows, lemma_write_rows_owned, owner_present, row_with, upsert, write_rows,
    ConflictPolicy,
};

verus! {

/// A failed cycle changes nothing: where a cycle ends in an error, whether
/// the exchange failed, the body was malformed or a row was refused, the
/// store after it, watermark and rows, is the store before it.
pub proof fn law_failed_cycle_changes_nothing(
    pre: StoreView,
    push_only: bool,
    policy: ConflictPolicy,
    reply: ReplyView,
    now: Seq<char>,
)
    requires
        cycle_outcome(pre, push_only, policy, reply) is Err,
    ensures
        store_after_cycle(pre, push_only, policy, reply, now) == pre,
{
}

/// A failed cycle can be tried again as if it had not been: the cycle that
/// follows a failed one sends the request that the failed one sent, and
/// ends, whatever it is answered, as it would have ended in the place of
/// the failed one.
pub proof fn law_retry_after_failure(
    pre: StoreView,
    push_only: bool,
    policy: ConflictPolicy,
    token: Seq<char>,
    failed: ReplyView,
    failed_at: Seq<char>,
    reply: ReplyView,
    now: Seq<char>,
)
    requires
        cycle_outcome(pre, push_only, policy, failed) is Err,
    ensures
        cycle_request(store_after_cycle(pre, push_only, policy, failed, failed_at), token)
            == cycle_request(pre, token),
        cycle_outcome(
            store_after_cycle(pre, push_only, policy, failed, failed_at),
            push_only,
            policy,
            reply,
        ) == cycle_outcome(pre, push_only, policy, reply),
        store_after_cycle(
            store_after_cycle(pre, push_only, policy, failed, failed_at),
            push_only,
            policy,
            reply,
            now,
        ) == store_after_cycle(pre, push_only, policy, reply, now),
{
}

/// A cycle that completes records the time of its completion as the
/// watermark, whatever the rows hold.
pub proof fn law_watermark_is_completion_time(
    pre: StoreView,
    push_only: bool,
    policy: ConflictPolicy,
    reply: ReplyView,
    now: Seq<char>,
)
    requires
        cycle_outcome(pre, push_only, policy, reply) is Ok,
    ensures
        store_after_cycle(pre, push_only, policy, reply, now).watermark == Some(now),
{
}

/// The watermark does not go back: where the cycle completes at a time that
/// is not before the watermark it started from, the watermark after the
/// cycle is the watermark before it or later.
pub proof fn law_watermark_monotonic(
    pre: StoreView,
    push_only: bool,
    policy: ConflictPolicy,
    reply: ReplyView,
    now: Seq<char>,
)
    requires
        cycle_outcome(pre, push_only, policy, reply) is Ok,
        stamp_at_or_after(now, mark_of(pre.watermark)),
    ensures
        stamp_at_or_after(
            mark_of(store_after_cycle(pre, push_only, policy, reply, now).watermark),
            mark_of(pre.watermark),
        ),
{
}

/// The collection is an exact partition of a table: a row is collected
/// if and only if it is a row of the table modified strictly later than the
/// mark. A row of the table whose modification is at the mark or before it
/// is not collected.
pub proof fn law_collection_partitions<R: Keyed>(table: Seq<R>, mark: Seq<char>)
    ensures
        forall|r: R| #[trigger]
            changed_since(table, mark).contains(r) <==> table.contains(r) && stamp_after(
                r.stamp(),
                mark,
            ),
        forall|r: R|
            table.contains(r) && stamp_at_or_after(mark, r.stamp()) ==> !(
            #[trigger] changed_since(table, mark).contains(r)),
{
    let later = |r: R| stamp_after(r.stamp(), mark);
    let changed = table.filter(later);
    assert forall|r: R| #[trigger] changed.contains(r) <==> table.contains(r) && stamp_after(
        r.stamp(),
        mark,
    ) by {
        if changed.contains(r) {
            let i = choose|i: int| 0 <= i < changed.len() && changed[i] == r;
            table.lemma_filter_pred(later, i);
            table.lemma_filter_contains_rev(later, r);
        }
        if table.contains(r) && stamp_after(r.stamp(), mark) {
            let i = choose|i: int| 0 <= i < table.len() && table[i] == r;
            table.lemma_filter_contains(later, i);
        }
    }
    assert forall|r: R| table.contains(r) && stamp_at_or_after(mark, r.stamp()) implies !(
    #[trigger] changed.contains(r)) by {
        lemma_after_or_not(r.stamp(), mark);
    }
}

/// The bundle that the collector takes from a store against a mark holds,
/// of each of the three tables, exactly the rows modified strictly later
/// than the mark, and carries the mark.
pub proof fn law_collected_bundle(s: StoreView, mark: Seq<char>)
    ensures
        collected(s, mark).last_sync_time == mark,
        forall|r|
            #![auto]
            collected(s, mark).assistants.contains(r) <==> s.assistants.contains(r) && stamp_after(
                r.updated_at,
                mark,
            ),
        forall|r|
            #![auto]
            collected(s, mark).topics.contains(r) <==> s.topics.contains(r) && stamp_after(
                r.updated_at,
                mark,
            ),
        forall|r|
            #![auto]
            collected(s, mark).messages.contains(r) <==> s.messages.contains(r) && stamp_after(
                r.updated_at,
                mark,
            ),
{
    law_collection_partitions(s.assistants, mark);
    law_collection_partitions(s.topics, mark);
    law_collection_partitions(s.messages, mark);
}

/// Every row of `table` carries a timestamp in the layout of the store
/// that names a moment after the epoch.
pub open spec fn stamped_after_epoch<R: Keyed>(table: Seq<R>) -> bool {
    forall|i: int|
        0 <= i < table.len() ==> in_layout((#[trigger] table[i]).stamp()) && moment(
            table[i].stamp(),
        ) > 19700101000000
}

/// The first cycle sends all there is: from a store that has never been
/// synchronised, whose rows were all modified after the epoch, the
/// collector takes every row.
pub proof fn law_first_cycle_sends_everything(s: StoreView)
    requires
        s.watermark is None,
        stamped_after_epoch(s.assistants),
        stamped_after_epoch(s.topics),
        stamped_after_epoch(s.messages),
    ensures
        collected(s, mark_of(s.watermark)).assistants == s.assistants,
        collected(s, mark_of(s.watermark)).topics == s.topics,
        collected(s, mark_of(s.watermark)).messages == s.messages,
{
    lemma_epoch();
    assert forall|i: int| 0 <= i < s.assistants.len() implies stamp_after(
        (#[trigger] s.assistants[i]).stamp(),
        epoch(),
    ) by {
        lemma_layout_order_is_time(s.assistants[i].stamp(), epoch());
    }
    lemma_all_changed(s.assistants, epoch());
    assert forall|i: int| 0 <= i < s.topics.len() implies stamp_after(
        (#[trigger] s.topics[i]).stamp(),
        epoch(),
    ) by {
        lemma_layout_order_is_time(s.topics[i].stamp(), epoch());
    }
    lemma_all_changed(s.topics, epoch());
    assert forall|i: int| 0 <= i < s.messages.len() implies stamp_after(
        (#[trigger] s.messages[i]).stamp(),
        epoch(),
    ) by {
        lemma_layout_order_is_time(s.messages[i].stamp(), epoch());
    }
    lemma_all_changed(s.messages, epoch());
}

/// Every owner that a row of the bundle names is in the store or comes in
/// the same bundle.
pub open spec fn owners_at_hand(s: StoreView, b: BundleView) -> bool {
    &&& forall|i: int|
        0 <= i < b.topics.len() ==> holds(s.assistants, (#[trigger] b.topics[i]).assistant_id)
            || holds(b.assistants, b.topics[i].assistant_id)
    &&& forall|i: int|
        0 <= i < b.messages.len() ==> holds(s.topics, (#[trigger] b.messages[i]).topic_id)
            || holds(b.topics, b.messages[i].topic_id)
}

/// Owners are written first: a bundle in which every topic names an
/// assistant that the store holds or that comes in the same bundle, and
/// every message a topic that the store holds or that comes in the same
/// bundle, is applied without a refusal, under either policy. Where the
/// incoming row always wins, no other bundle is.
pub proof fn law_owners_first(policy: ConflictPolicy, s: StoreView, b: BundleView)
    requires
        consistent(s),
    ensures
        owners_at_hand(s, b) ==> applied(policy, s, b) is Ok,
        applied(ConflictPolicy::RemoteWins, s, b) is Ok ==> owners_at_hand(s, b),
{
    let none = Seq::<AssistantRow>::empty();
    if owners_at_hand(s, b) {
        lemma_unowned_pass(policy, none, s.assistants, b.assistants);
        lemma_write_rows(policy, none, s.assistants, b.assistants);
        let a = assistants_applied(policy, s.assistants, b.assistants);
        assert forall|i: int| 0 <= i < b.topics.len() implies owner_present(
            a,
            #[trigger] b.topics[i],
        ) by {}
        lemma_owned_rows_pass(policy, a, s.topics, b.topics);
        lemma_write_rows(policy, a, s.topics, b.topics);
        let t = write_rows(policy, a, s.topics, b.topics)->0;
        assert forall|i: int| 0 <= i < b.messages.len() implies owner_present(
            t,
            #[trigger] b.messages[i],
        ) by {}
        lemma_owned_rows_pass(policy, t, s.messages, b.messages);
    }
    if applied(ConflictPolicy::RemoteWins, s, b) is Ok {
        let p = ConflictPolicy::RemoteWins;
        lemma_unowned_pass(p, none, s.assistants, b.assistants);
        lemma_write_rows(p, none, s.assistants, b.assistants);
        let a = assistants_applied(p, s.assistants, b.assistants);
        lemma_remote_wins_pass_iff_owned(a, s.topics, b.topics);
        lemma_write_rows(p, a, s.topics, b.topics);
        let t = write_rows(p, a, s.topics, b.topics)->0;
        lemma_remote_wins_pass_iff_owned(t, s.messages, b.messages);
        assert forall|i: int| 0 <= i < b.topics.len() implies holds(
            s.assistants,
            (#[trigger] b.topics[i]).assistant_id,
        ) || holds(b.assistants, b.topics[i].assistant_id) by {
            assert(owner_present(a, b.topics[i]));
        }
        assert forall|i: int| 0 <= i < b.messages.len() implies holds(
            s.topics,
            (#[trigger] b.messages[i]).topic_id,
        ) || holds(b.topics, b.messages[i].topic_id) by {
            assert(owner_present(t, b.messages[i]));
        }
    }
}

/// The store after an application that passes, under the policy by which
/// the incoming row always wins.
pub open spec fn after_apply(s: StoreView, b: BundleView) -> StoreView {
    match applied(ConflictPolicy::RemoteWins, s, b) {
        Ok(post) => post,
        Err(_) => s,
    }
}

/// The incoming row wins: after a bundle is applied, the store holds under
/// the identity of each row of the bundle that row itself, field for field,
/// tombstone flag and modification timestamp included, whether or not a row
/// of that identity was there before and whichever of the two was modified
/// later. (Of several rows of one identity in one list of the bundle, the
/// last one is meant.)
pub proof fn law_apply_overwrites(s: StoreView, b: BundleView)
    requires
        consistent(s),
        applied(ConflictPolicy::RemoteWins, s, b) is Ok,
    ensures
        forall|i: int|
            last_of_its_identity(b.assistants, i) ==> holds(
                after_apply(s, b).assistants,
                (#[trigger] b.assistants[i]).id,
            ) && row_with(after_apply(s, b).assistants, b.assistants[i].id) == b.assistants[i],
        forall|i: int|
            last_of_its_identity(b.topics, i) ==> holds(
                after_apply(s, b).topics,
                (#[trigger] b.topics[i]).id,
            ) && row_with(after_apply(s, b).topics, b.topics[i].id) == b.topics[i],
        forall|i: int|
            last_of_its_identity(b.messages, i) ==> holds(
                after_apply(s, b).messages,
                (#[trigger] b.messages[i]).id,
            ) && row_with(after_apply(s, b).messages, b.messages[i].id) == b.messages[i],
{
    let p = ConflictPolicy::RemoteWins;
    let none = Seq::<AssistantRow>::empty();
    lemma_unowned_pass(p, none, s.assistants, b.assistants);
    let a = assistants_applied(p, s.assistants, b.assistants);
    let t = write_rows(p, a, s.topics, b.topics)->0;
    assert forall|i: int| last_of_its_identity(b.assistants, i) implies holds(
        after_apply(s, b).assistants,
        (#[trigger] b.assistants[i]).id,
    ) && row_with(after_apply(s, b).assistants, b.assistants[i].id) == b.assistants[i] by {
        lemma_last_write_stays(none, s.assistants, b.assistants, i);
    }
    assert forall|i: int| last_of_its_identity(b.topics, i) implies holds(
        after_apply(s, b).topics,
        (#[trigger] b.topics[i]).id,
    ) && row_with(after_apply(s, b).topics, b.topics[i].id) == b.topics[i] by {
        lemma_last_write_stays(a, s.topics, b.topics, i);
    }
    assert forall|i: int| last_of_its_identity(b.messages, i) implies holds(
        after_apply(s, b).messages,
        (#[trigger] b.messages[i]).id,
    ) && row_with(after_apply(s, b).messages, b.messages[i].id) == b.messages[i] by {
        lemma_last_write_stays(t, s.messages, b.messages, i);
    }
}

/// An application touches only what the bundle names: a row of the store
/// whose identity is not among the rows of the bundle stays as it was, and
/// so does the watermark.
pub proof fn law_apply_spares_the_rest(policy: ConflictPolicy, s: StoreView, b: BundleView)
    requires
        consistent(s),
    ensures
        match applied(policy, s, b) {
            Ok(post) => {
                &&& post.watermark == s.watermark
                &&& forall|k: Seq<char>|
                    #![trigger holds(s.assistants, k)]
                    holds(s.assistants, k) && !holds(b.assistants, k) ==> holds(post.assistants, k)
                        && row_with(post.assistants, k) == row_with(s.assistants, k)
                &&& forall|k: Seq<char>|
                    #![trigger holds(s.topics, k)]
                    holds(s.topics, k) && !holds(b.topics, k) ==> holds(post.topics, k)
                        && row_with(post.topics, k) == row_with(s.topics, k)
                &&& forall|k: Seq<char>|
                    #![trigger holds(s.messages, k)]
                    holds(s.messages, k) && !holds(b.messages, k) ==> holds(post.messages, k)
                        && row_with(post.messages, k) == row_with(s.messages, k)
            },
            Err(_) => true,
        },
{
    let none = Seq::<AssistantRow>::empty();
    lemma_unowned_pass(policy, none, s.assistants, b.assistants);
    let a = assistants_applied(policy, s.assistants, b.assistants);
    if let Ok(post) = applied(policy, s, b) {
        let t = write_rows(policy, a, s.topics, b.topics)->0;
        assert forall|k: Seq<char>|
            #![trigger holds(s.assistants, k)]
            holds(s.assistants, k) && !holds(b.assistants, k) implies holds(post.assistants, k)
                && row_with(post.assistants, k) == row_with(s.assistants, k) by {
            lemma_other_rows_stay(policy, none, s.assistants, b.assistants, k);
        }
        assert forall|k: Seq<char>|
            #![trigger holds(s.topics, k)]
            holds(s.topics, k) && !holds(b.topics, k) implies holds(post.topics, k) && row_with(
                post.topics,
                k,
            ) == row_with(s.topics, k) by {
            lemma_other_rows_stay(policy, a, s.topics, b.topics, k);
        }
        assert forall|k: Seq<char>|
            #![trigger holds(s.messages, k)]
            holds(s.messages, k) && !holds(b.messages, k) implies holds(post.messages, k)
                && row_with(post.messages, k) == row_with(s.messages, k) by {
            lemma_other_rows_stay(policy, t, s.messages, b.messages, k);
        }
    }
}

/// The request is never under way while the store is locked, and the store
/// is never touched without the lock: whenever the orchestrator answers
/// with the request or the parsing of its response, its phase is one in
/// which the lock is not held; whenever it answers with a read or a write
/// of the store, its phase is one in which the lock is held; and when it
/// ends the cycle, the lock is not held.
pub proof fn law_lock_discipline(c: CycleView, event: EventView)
    ensures
        match next(c, event).1 {
            ActionView::Exchange { .. } | ActionView::Decode { .. } => !lock_held_in(
                next(c, event).0,
            ),
            ActionView::ReadWatermark | ActionView::Collect { .. } | ActionView::Apply { .. }
            | ActionView::Advance => lock_held_in(next(c, event).0),
            ActionView::Finish(_) | ActionView::Abort(_) => !lock_held_in(next(c, event).0),
        },
{
}

/// A failure ends the cycle: the orchestrator answers a failure with
/// `Abort` and nothing else, the cycle is then over, and a cycle that is
/// over asks for nothing more, whatever it is handed.
pub proof fn law_failure_is_final(c: CycleView, event: EventView)
    ensures
        next(c, event).0 is Failed <==> next(c, event).1 is Abort && !(c.phase is Done),
        next(c, event).0 is Done <==> next(c, event).1 is Finish || c.phase is Done,
        is_terminal(c.phase) ==> next(c, event).0 == c.phase && next(c, event).1
            == ActionView::Abort(SyncErrorView::OutOfTurn),
        (event is StoreFailed || event is NetworkFailed || event is Malformed) ==> next(
            c,
            event,
        ).1 is Abort,
{
}

/// An application keeps the store consistent: after it, as before it, no
/// two rows of a table share an identity, every topic names an assistant of
/// the store and every message a topic of the store.
pub proof fn law_apply_keeps_consistency(policy: ConflictPolicy, s: StoreView, b: BundleView)
    requires
        consistent(s),
    ensures
        match applied(policy, s, b) {
            Ok(post) => consistent(post),
            Err(_) => true,
        },
{
    let none = Seq::<AssistantRow>::empty();
    lemma_unowned_pass(policy, none, s.assistants, b.assistants);
    lemma_write_rows(policy, none, s.assistants, b.assistants);
    let a = assistants_applied(policy, s.assistants, b.assistants);
    if let Ok(post) = applied(policy, s, b) {
        let t = write_rows(policy, a, s.topics, b.topics)->0;
        lemma_owned_by_more(s.assistants, a, s.topics);
        lemma_write_rows(policy, a, s.topics, b.topics);
        lemma_write_rows_owned(policy, a, s.topics, b.topics);
        lemma_owned_by_more(s.topics, t, s.messages);
        lemma_write_rows(policy, t, s.messages, b.messages);
        lemma_write_rows_owned(policy, t, s.messages, b.messages);
    }
}

/// The place of a phase in the course of a cycle.
pub open spec fn rank(phase: Phase) -> int {
    match phase {
        Phase::ReadWatermark => 0,
        Phase::CollectLocal => 1,
        Phase::Exchange => 2,
        Phase::DecodeRemote => 3,
        Phase::ApplyRemote => 4,
        Phase::AdvanceWatermark => 5,
        Phase::Done => 6,
        Phase::Failed => 6,
    }
}

/// The cycle `c` after it has been handed `events`, first to last.
pub open spec fn run(c: CycleView, events: Seq<EventView>) -> CycleView
    decreases events.len(),
{
    if events.len() == 0 {
        c
    } else {
        let before = run(c, events.drop_last());
        CycleView { phase: next(before, events.last()).0, ..before }
    }
}

/// What the orchestrator answers to event `i` of `events`.
pub open spec fn answer(c: CycleView, events: Seq<EventView>, i: int) -> ActionView {
    next(run(c, events.take(i)), events[i]).1
}

/// A cycle only moves forward: after more events its phase has the same
/// rank or a higher one.
pub proof fn lemma_run_moves_forward(c: CycleView, events: Seq<EventView>, i: int, j: int)
    requires
        0 <= i <= j <= events.len(),
    ensures
        rank(run(c, events.take(i)).phase) <= rank(run(c, events.take(j)).phase),
    decreases j - i,
{
    if i < j {
        lemma_run_moves_forward(c, events, i, j - 1);
        assert(events.take(j).drop_last() == events.take(j - 1));
    }
}

/// One request, one application, one advance: in the course of a cycle,
/// whatever events it is handed, the orchestrator asks at most once for the
/// request to be sent, at most once for a bundle to be applied, and at most
/// once for the watermark to be recorded. Nothing is tried again.
pub proof fn law_nothing_twice(c: CycleView, events: Seq<EventView>, i: int, j: int)
    requires
        0 <= i < j < events.len(),
    ensures
        !(answer(c, events, i) is Exchange && answer(c, events, j) is Exchange),
        !(answer(c, events, i) is Apply && answer(c, events, j) is Apply),
        !(answer(c, events, i) is Advance && answer(c, events, j) is Advance),
{
    lemma_run_moves_forward(c, events, i + 1, j);
    assert(events.take(i + 1).drop_last() == events.take(i));
    assert(events.take(i + 1).last() == events[i]);
}

/// Every identity of `before` is an identity of `after`, table by table.
pub open spec fn keeps_every_row(before: StoreView, after: StoreView) -> bool {
    &&& forall|k: Seq<char>|
        #![trigger holds(before.assistants, k)]
        holds(before.assistants, k) ==> holds(after.assistants, k)
    &&& forall|k: Seq<char>|
        #![trigger holds(before.topics, k)]
        holds(before.topics, k) ==> holds(after.topics, k)
    &&& forall|k: Seq<char>|
        #![trigger holds(before.messages, k)]
        holds(before.messages, k) ==> holds(after.messages, k)
}

/// An application that passes removes no row.
proof fn lemma_apply_keeps_rows(policy: ConflictPolicy, s: StoreView, b: BundleView)
    requires
        consistent(s),
    ensures
        match applied(policy, s, b) {
            Ok(post) => keeps_every_row(s, post) && consistent(post),
            Err(_) => true,
        },
{
    let none = Seq::<AssistantRow>::empty();
    lemma_unowned_pass(policy, none, s.assistants, b.assistants);
    lemma_write_rows(policy, none, s.assistants, b.assistants);
    law_apply_keeps_consistency(policy, s, b);
    if let Ok(post) = applied(policy, s, b) {
        let a = assistants_applied(policy, s.assistants, b.assistants);
        lemma_owned_by_more(s.assistants, a, s.topics);
        lemma_write_rows(policy, a, s.topics, b.topics);
        lemma_write_rows(policy, post.topics, s.messages, b.messages);
    }
}

/// Deleting an assistant removes no row.
proof fn lemma_delete_keeps_rows(s: StoreView, id: Seq<char>, now: Seq<char>)
    requires
        consistent(s),
    ensures
        keeps_every_row(s, deleted(s, id, now)),
        consistent(deleted(s, id, now)),
{
    lemma_deleted_consistent(s, id, now);
    lemma_buried_where(s.assistants, |a: AssistantRow| a.id == id, now);
    lemma_buried_where(s.topics, |t: TopicRow| t.assistant_id == id, now);
    lemma_buried_where(
        s.messages,
        |m: MessageRow| message_of(s.topics, m, id),
        now,
    );
}

/// Saving an assistant removes no row.
proof fn lemma_save_keeps_rows(s: StoreView, d: AssistantBranchView, now: Seq<char>)
    requires
        consistent(s),
    ensures
        keeps_every_row(s, saved(s, d, now)),
        consistent(saved(s, d, now)),
{
    lemma_saved_consistent(s, d, now);
    let row = fresh_assistant(d.assistant, now);
    let a = upsert(ConflictPolicy::RemoteWins, s.assistants, row);
    lemma_upsert(ConflictPolicy::RemoteWins, s.assistants, row);
    lemma_owned_by_more(s.assistants, a, s.topics);
    let tables = (s.topics, s.messages);
    lemma_saved_branches(a, tables, d.topics, d.assistant.id, now);
    let post = saved(s, d, now);
    assert forall|k: Seq<char>| #![trigger holds(s.topics, k)] holds(s.topics, k) implies holds(
        post.topics,
        k,
    ) by {
        assert(holds(tables.0, k));
    }
    assert forall|k: Seq<char>|
        #![trigger holds(s.messages, k)]
        holds(s.messages, k) implies holds(post.messages, k) by {
        assert(holds(tables.1, k));
    }
}

/// Nothing is ever removed: whatever is done to a store, applying a bundle,
/// deleting an assistant or saving one, every row that was there is there
/// afterwards, if only as a tombstone, and the store stays consistent.
pub proof fn law_nothing_is_removed(
    policy: ConflictPolicy,
    s: StoreView,
    b: BundleView,
    d: AssistantBranchView,
    id: Seq<char>,
    now: Seq<char>,
)
    requires
        consistent(s),
    ensures
        match applied(policy, s, b) {
            Ok(post) => keeps_every_row(s, post) && consistent(post),
            Err(_) => true,
        },
        keeps_every_row(s, deleted(s, id, now)) && consistent(deleted(s, id, now)),
        keeps_every_row(s, saved(s, d, now)) && consistent(saved(s, d, now)),
{
    lemma_apply_keeps_rows(policy, s, b);
    lemma_delete_keeps_rows(s, id, now);
    lemma_save_keeps_rows(s, d, now);
}

/// The step takes the store's lock: the lock is not held before it and is
/// held after it.
pub open spec fn acquires(c: CycleView, event: EventView) -> bool {
    !lock_held_in(c.phase) && lock_held_in(next(c, event).0)
}

/// Event `i` of `events` makes the cycle take the store's lock.
pub open spec fn acquires_at(c: CycleView, events: Seq<EventView>, i: int) -> bool {
    acquires(run(c, events.take(i)), events[i])
}

/// A cycle that has come as far as the application of the remote bundle
/// or the advance of the watermark has taken the lock on the way.
proof fn lemma_lock_taken_again(c: CycleView, events: Seq<EventView>)
    requires
        c.phase is ReadWatermark,
    ensures
        rank(run(c, events).phase) >= 4 && !(run(c, events).phase is Failed) ==> exists|k: int|
            0 <= k < events.len() && acquires_at(c, events, k),
    decreases events.len(),
{
    if events.len() > 0 {
        let init = events.drop_last();
        lemma_lock_taken_again(c, init);
        if rank(run(c, events).phase) >= 4 && !(run(c, events).phase is Failed) {
            if rank(run(c, init).phase) >= 4 {
                let k = choose|k: int| 0 <= k < init.len() && acquires_at(c, init, k);
                assert(init.take(k) == events.take(k));
                assert(acquires_at(c, events, k));
            } else {
                let last = events.len() - 1;
                assert(events.take(last) == init);
                assert(acquires_at(c, events, last));
            }
        }
    }
}

/// The lock is taken twice: a cycle starts under the store's lock, and in
/// its whole course, whatever events it is handed, it takes the lock at
/// most once more; a cycle that completes has taken it once more.
pub proof fn law_lock_taken_twice(c: CycleView, events: Seq<EventView>, i: int, j: int)
    requires
        c.phase is ReadWatermark,
    ensures
        lock_held_in(c.phase),
        0 <= i < j < events.len() ==> !(acquires_at(c, events, i) && acquires_at(c, events, j)),
        run(c, events).phase is Done ==> exists|k: int|
            0 <= k < events.len() && acquires_at(c, events, k),
{
    if 0 <= i < j < events.len() {
        lemma_run_moves_forward(c, events, i + 1, j);
        assert(events.take(i + 1).drop_last() == events.take(i));
        assert(events.take(i + 1).last() == events[i]);
    }
    lemma_lock_taken_again(c, events);
}

/// The newer row wins, and no row grows older: under the policy by which
/// the incoming row replaces the local row unless the local row was
/// modified strictly later, no row of the store ends up with an earlier
/// modification than it had before the bundle was applied.
pub proof fn law_newer_wins_never_goes_back(s: StoreView, b: BundleView)
    requires
        consistent(s),
        applied(ConflictPolicy::NewerWins, s, b) is Ok,
    ensures
        ({
            let post = applied(ConflictPolicy::NewerWins, s, b)->Ok_0;
            &&& forall|k: Seq<char>|
                #![trigger holds(s.assistants, k)]
                holds(s.assistants, k) ==> !stamp_after(
                    row_with(s.assistants, k).updated_at,
                    row_with(post.assistants, k).updated_at,
                )
            &&& forall|k: Seq<char>|
                #![trigger holds(s.topics, k)]
                holds(s.topics, k) ==> !stamp_after(
                    row_with(s.topics, k).updated_at,
                    row_with(post.topics, k).updated_at,
                )
            &&& forall|k: Seq<char>|
                #![trigger holds(s.messages, k)]
                holds(s.messages, k) ==> !stamp_after(
                    row_with(s.messages, k).updated_at,
                    row_with(post.messages, k).updated_at,
                )
        }),
{
    let p = ConflictPolicy::NewerWins;
    let none = Seq::<AssistantRow>::empty();
    lemma_unowned_pass(p, none, s.assistants, b.assistants);
    let post = applied(p, s, b)->Ok_0;
    let a = assistants_applied(p, s.assistants, b.assistants);
    let t = write_rows(p, a, s.topics, b.topics)->0;
    assert forall|k: Seq<char>| #![trigger holds(s.assistants, k)] holds(s.assistants, k) implies
        !stamp_after(
        row_with(s.assistants, k).updated_at,
        row_with(post.assistants, k).updated_at,
    ) by {
        lemma_newer_wins_never_older(none, s.assistants, b.assistants, k);
    }
    assert forall|k: Seq<char>| #![trigger holds(s.topics, k)] holds(s.topics, k) implies
        !stamp_after(row_with(s.topics, k).updated_at, row_with(post.topics, k).updated_at) by {
        lemma_newer_wins_never_older(a, s.topics, b.topics, k);
    }
    assert forall|k: Seq<char>| #![trigger holds(s.messages, k)] holds(s.messages, k) implies
        !stamp_after(
        row_with(s.messages, k).updated_at,
        row_with(post.messages, k).updated_at,
    ) by {
        lemma_newer_wins_never_older(t, s.messages, b.messages, k);
    }
}

/// What the store shows is what is not deleted, in order: the assistants
/// shown are the assistants of the store that are not deleted, each once,
/// by ascending identity; and the messages shown under a topic are the
/// messages of that topic that are not deleted, by ascending time of
/// creation.
pub proof fn law_load_shows_the_living_in_order(s: StoreView, topic: Seq<char>)
    ensures
        forall|i: int, j: int|
            0 <= i < j < loaded(s).len() ==> !stamp_after(
                (#[trigger] loaded(s)[i]).assistant.id,
                (#[trigger] loaded(s)[j]).assistant.id,
            ),
        forall|i: int|
            0 <= i < loaded(s).len() ==> s.assistants.contains(
                (#[trigger] loaded(s)[i]).assistant,
            ) && !loaded(s)[i].assistant.is_deleted && loaded(s)[i].topics == live_topics_of(
                s,
                loaded(s)[i].assistant.id,
            ),
        forall|a: AssistantRow|
            #![trigger s.assistants.contains(a)]
            s.assistants.contains(a) && !a.is_deleted ==> exists|i: int|
                0 <= i < loaded(s).len() && (#[trigger] loaded(s)[i]).assistant == a,
        ascending(live_messages_of(s.messages, topic)),
        forall|m: MessageRow| #[trigger]
            live_messages_of(s.messages, topic).contains(m) <==> s.messages.contains(m)
                && m.topic_id == topic && !m.is_deleted,
{
    let live = |a: AssistantRow| !a.is_deleted;
    let kept = s.assistants.filter(live);
    let sorted = ordered(kept);
    lemma_ordered(kept);
    lemma_ordered_contains(kept);
    assert forall|i: int| 0 <= i < loaded(s).len() implies s.assistants.contains(
        (#[trigger] loaded(s)[i]).assistant,
    ) && !loaded(s)[i].assistant.is_deleted && loaded(s)[i].topics == live_topics_of(
        s,
        loaded(s)[i].assistant.id,
    ) by {
        assert(loaded(s)[i].assistant == sorted[i]);
        assert(sorted.contains(sorted[i]));
        assert(kept.contains(sorted[i]));
        let at = choose|at: int| 0 <= at < kept.len() && kept[at] == sorted[i];
        s.assistants.lemma_filter_pred(live, at);
        s.assistants.lemma_filter_contains_rev(live, sorted[i]);
    }
    assert forall|a: AssistantRow|
        #![trigger s.assistants.contains(a)]
        s.assistants.contains(a) && !a.is_deleted implies exists|i: int|
        0 <= i < loaded(s).len() && (#[trigger] loaded(s)[i]).assistant == a by {
        let at = choose|at: int| 0 <= at < s.assistants.len() && s.assistants[at] == a;
        s.assistants.lemma_filter_contains(live, at);
        assert(sorted.contains(a));
        let i = choose|i: int| 0 <= i < sorted.len() && sorted[i] == a;
        assert(loaded(s)[i].assistant == a);
    }
    assert forall|i: int, j: int| 0 <= i < j < loaded(s).len() implies !stamp_after(
        (#[trigger] loaded(s)[i]).assistant.id,
        (#[trigger] loaded(s)[j]).assistant.id,
    ) by {
        assert(loaded(s)[i].assistant == sorted[i]);
        assert(loaded(s)[j].assistant == sorted[j]);
        assert(!stamp_after(sorted[i].rank(), sorted[j].rank()));
    }
    let wanted = |m: MessageRow| m.topic_id == topic && !m.is_deleted;
    let chosen = s.messages.filter(wanted);
    lemma_ordered(chosen);
    lemma_ordered_contains(chosen);
    assert forall|m: MessageRow| #[trigger]
        live_messages_of(s.messages, topic).contains(m) <==> s.messages.contains(m) && m.topic_id
            == topic && !m.is_deleted by {
        if chosen.contains(m) {
            let at = choose|at: int| 0 <= at < chosen.len() && chosen[at] == m;
            s.messages.lemma_filter_pred(wanted, at);
            s.messages.lemma_filter_contains_rev(wanted, m);
        }
        if s.messages.contains(m) && wanted(m) {
            let at = choose|at: int| 0 <= at < s.messages.len() && s.messages[at] == m;
            s.messages.lemma_filter_contains(wanted, at);
        }
    }
}

} // verus!
