//! The everyday changes to the store: deleting an assistant with all that
//! belongs to it, saving an assistant with its conversations, and loading
//! what is not deleted.
//!
//! Nothing is ever removed from the store. What is deleted stays as a
//! tombstone, and every change to a row sets its modification timestamp,
//! so that the next synchronisation cycle collects it.

use vstd::prelude::*;
use vstd::string::*;
use crate::records::{
    copy_text, lemma_rows_push, rows, AssistantRow, Keyed, MessageRow, Record, SyncAssistant,
    SyncMessage, SyncTopic, TopicRow,
};
use crate::order::{ordered, sort_by_rank};
use crate::store::{consistent, Store, StoreView};
use crate::table::{
    all_owned, distinct, find, holds, index_of, lemma_index_of, lemma_owned_by_more,
    lemma_upsert, owner_present, put_row, row_with, upsert, ConflictPolicy,
};

verus! {

/// `table` with a tombstone made at `now` in the place of each row that is
/// marked.
pub open spec fn buried_where<R: Keyed>(
    table: Seq<R>,
    marked: spec_fn(R) -> bool,
    now: Seq<char>,
) -> Seq<R> {
    Seq::new(
        table.len(),
        |i: int|
            if marked(table[i]) {
                table[i].buried(now)
            } else {
                table[i]
            },
    )
}

/// The message belongs to a topic of the assistant `assistant`.
pub open spec fn message_of(topics: Seq<TopicRow>, m: MessageRow, assistant: Seq<char>) -> bool {
    holds(topics, m.topic_id) && row_with(topics, m.topic_id).assistant_id == assistant
}

/// The store after the assistant `id` is deleted at `now`: the assistant,
/// its topics and the messages of its topics are tombstones made at `now`,
/// and everything else is as it was.
pub open spec fn deleted(s: StoreView, id: Seq<char>, now: Seq<char>) -> StoreView {
    StoreView {
        assistants: buried_where(s.assistants, |a: AssistantRow| a.id == id, now),
        topics: buried_where(s.topics, |t: TopicRow| t.assistant_id == id, now),
        messages: buried_where(s.messages, |m: MessageRow| message_of(s.topics, m, id), now),
        watermark: s.watermark,
    }
}

/// Tables that agree on the identity and the owner of each row, place by
/// place, hold the same identities, are distinct together, and own the
/// same rows.
pub proof fn lemma_same_keys<R: Keyed>(before: Seq<R>, after: Seq<R>)
    requires
        before.len() == after.len(),
        forall|i: int| 0 <= i < before.len() ==> (#[trigger] after[i]).key() == before[i].key(),
    ensures
        forall|k: Seq<char>| holds(before, k) <==> holds(after, k),
        distinct(before) <==> distinct(after),
{
    assert forall|k: Seq<char>| holds(before, k) <==> holds(after, k) by {
        if holds(before, k) {
            let i = index_of(before, k);
            assert(after[i].key() == k);
        }
        if holds(after, k) {
            let i = index_of(after, k);
            assert(before[i].key() == k);
        }
    }
    if distinct(before) {
        assert forall|i: int, j: int| 0 <= i < j < after.len() implies #[trigger] after[i].key()
            != #[trigger] after[j].key() by {
            assert(before[i].key() != before[j].key());
        }
    }
    if distinct(after) {
        assert forall|i: int, j: int| 0 <= i < j < before.len() implies #[trigger] before[i].key()
            != #[trigger] before[j].key() by {
            assert(after[i].key() == before[i].key());
            assert(after[j].key() == before[j].key());
        }
    }
}

/// Tombstones in the place of rows change neither the identities of a
/// table nor the owners that its rows name.
pub proof fn lemma_buried_where<R: Keyed>(
    table: Seq<R>,
    marked: spec_fn(R) -> bool,
    now: Seq<char>,
)
    ensures
        buried_where(table, marked, now).len() == table.len(),
        forall|i: int|
            0 <= i < table.len() ==> (#[trigger] buried_where(table, marked, now)[i]).key()
                == table[i].key() && buried_where(table, marked, now)[i].owner()
                == table[i].owner(),
        forall|k: Seq<char>| holds(table, k) <==> holds(buried_where(table, marked, now), k),
        distinct(table) <==> distinct(buried_where(table, marked, now)),
{
    let after = buried_where(table, marked, now);
    assert forall|i: int| 0 <= i < table.len() implies (#[trigger] after[i]).key()
        == table[i].key() && after[i].owner() == table[i].owner() by {
        table[i].lemma_buried(now);
    }
    lemma_same_keys(table, after);
}

/// A copy of `table` with a tombstone made at `now` in the place of each
/// row whose mark is set.
fn bury_marked<T: Record>(table: &Vec<T>, marks: &Vec<bool>, now: &str) -> (out: Vec<T>) where
    T::V: Keyed,

    requires
        marks.len() == table.len(),
    ensures
        out.len() == table.len(),
        forall|i: int|
            0 <= i < table.len() ==> (#[trigger] rows(out@)[i]) == if marks@[i] {
                rows(table@)[i].buried(now@)
            } else {
                rows(table@)[i]
            },
{
    let mut out: Vec<T> = Vec::new();
    let mut i: usize = 0;
    while i < table.len()
        invariant
            i <= table.len(),
            marks.len() == table.len(),
            out.len() == i,
            forall|j: int|
                0 <= j < i ==> (#[trigger] rows(out@)[j]) == if marks@[j] {
                    rows(table@)[j].buried(now@)
                } else {
                    rows(table@)[j]
                },
        decreases table.len() - i,
    {
        let ghost before = out@;
        let item = if marks[i] {
            table[i].bury(now)
        } else {
            table[i].duplicate()
        };
        out.push(item);
        proof {
            lemma_rows_push(before, item);
            assert forall|j: int| 0 <= j < i + 1 implies (#[trigger] rows(out@)[j]) == if marks@[j] {
                rows(table@)[j].buried(now@)
            } else {
                rows(table@)[j]
            } by {
                if j < i {
                    assert(rows(out@)[j] == rows(before)[j]);
                }
            }
        }
        i += 1;
    }
    out
}

/// Deletes the assistant `id` at `now`: the assistant, its topics and the
/// messages of its topics become tombstones modified at `now`. No row is
/// removed, and no other row changes. Deleting an assistant that is not in
/// the store changes nothing.
pub fn delete_assistant(store: &mut Store, id: &str, now: &str)
    ensures
        final(store)@ == deleted(old(store)@, id@, now@),
{
    let target = String::from_str(id);
    let mut held = Store::new();
    std::mem::swap(store, &mut held);
    let ghost pre = held@;
    let (assistants, topics, messages, watermark) = held.into_parts();

    let mut marks_a: Vec<bool> = Vec::new();
    let mut i: usize = 0;
    while i < assistants.len()
        invariant
            i <= assistants.len(),
            marks_a.len() == i,
            target@ == id@,
            forall|j: int| 0 <= j < i ==> marks_a@[j] == (rows(assistants@)[j].id == id@),
        decreases assistants.len() - i,
    {
        marks_a.push(assistants[i].id == target);
        i += 1;
    }
    let mut marks_t: Vec<bool> = Vec::new();
    let mut i: usize = 0;
    while i < topics.len()
        invariant
            i <= topics.len(),
            marks_t.len() == i,
            target@ == id@,
            forall|j: int| 0 <= j < i ==> marks_t@[j] == (rows(topics@)[j].assistant_id == id@),
        decreases topics.len() - i,
    {
        marks_t.push(topics[i].assistant_id == target);
        i += 1;
    }
    let mut marks_m: Vec<bool> = Vec::new();
    let mut i: usize = 0;
    while i < messages.len()
        invariant
            i <= messages.len(),
            marks_m.len() == i,
            target@ == id@,
            distinct(rows(topics@)),
            forall|j: int|
                0 <= j < i ==> marks_m@[j] == message_of(rows(topics@), rows(messages@)[j], id@),
        decreases messages.len() - i,
    {
        let mark = match find(&topics, &messages[i].topic_id) {
            Some(at) => {
                proof {
                    lemma_index_of(rows(topics@), at as int);
                }
                topics[at].assistant_id == target
            },
            None => false,
        };
        marks_m.push(mark);
        i += 1;
    }
    let new_assistants = bury_marked(&assistants, &marks_a, now);
    let new_topics = bury_marked(&topics, &marks_t, now);
    let new_messages = bury_marked(&messages, &marks_m, now);
    proof {
        let post = deleted(pre, id@, now@);
        assert(rows(new_assistants@) =~= post.assistants);
        assert(rows(new_topics@) =~= post.topics);
        assert(rows(new_messages@) =~= post.messages);
        lemma_deleted_consistent(pre, id@, now@);
    }
    *store = Store::from_parts(new_assistants, new_topics, new_messages, watermark);
}

/// Deleting an assistant keeps the store consistent.
pub proof fn lemma_deleted_consistent(s: StoreView, id: Seq<char>, now: Seq<char>)
    requires
        consistent(s),
    ensures
        consistent(deleted(s, id, now)),
{
    let post = deleted(s, id, now);
    lemma_buried_where(s.assistants, |a: AssistantRow| a.id == id, now);
    lemma_buried_where(s.topics, |t: TopicRow| t.assistant_id == id, now);
    lemma_buried_where(s.messages, |m: MessageRow| message_of(s.topics, m, id), now);
    assert forall|i: int| 0 <= i < post.topics.len() implies owner_present(
        post.assistants,
        #[trigger] post.topics[i],
    ) by {
        assert(owner_present(s.assistants, s.topics[i]));
    }
    assert forall|i: int| 0 <= i < post.messages.len() implies owner_present(
        post.topics,
        #[trigger] post.messages[i],
    ) by {
        assert(owner_present(s.topics, s.messages[i]));
    }
}

/// The view of a `TopicBranch`.
pub struct TopicBranchView {
    pub topic: TopicRow,
    pub messages: Seq<MessageRow>,
}

/// A topic with its messages.
#[derive(Debug, PartialEq, Eq)]
pub struct TopicBranch {
    pub topic: SyncTopic,
    pub messages: Vec<SyncMessage>,
}

impl View for TopicBranch {
    type V = TopicBranchView;

    open spec fn view(&self) -> TopicBranchView {
        TopicBranchView { topic: self.topic@, messages: rows(self.messages@) }
    }
}

/// The view of an `AssistantBranch`.
pub struct AssistantBranchView {
    pub assistant: AssistantRow,
    pub topics: Seq<TopicBranchView>,
}

/// An assistant with its topics and their messages.
#[derive(Debug, PartialEq, Eq)]
pub struct AssistantBranch {
    pub assistant: SyncAssistant,
    pub topics: Vec<TopicBranch>,
}

impl View for AssistantBranch {
    type V = AssistantBranchView;

    open spec fn view(&self) -> AssistantBranchView {
        AssistantBranchView { assistant: self.assistant@, topics: rows(self.topics@) }
    }
}

/// The messages of the topic `topic` that are not deleted, by the time of
/// their creation, messages of one time in the order of the table.
pub open spec fn live_messages_of(messages: Seq<MessageRow>, topic: Seq<char>) -> Seq<
    MessageRow,
> {
    ordered(messages.filter(|m: MessageRow| m.topic_id == topic && !m.is_deleted))
}

/// A topic with its messages that are not deleted.
pub open spec fn branch_of(messages: Seq<MessageRow>, t: TopicRow) -> TopicBranchView {
    TopicBranchView { topic: t, messages: live_messages_of(messages, t.id) }
}

/// The topics of the assistant `assistant` that are not deleted, in the
/// order of the table, each with its messages.
pub open spec fn live_topics_of(s: StoreView, assistant: Seq<char>) -> Seq<TopicBranchView> {
    s.topics.filter(|t: TopicRow| t.assistant_id == assistant && !t.is_deleted).map_values(
        |t: TopicRow| branch_of(s.messages, t),
    )
}

/// An assistant with its topics that are not deleted.
pub open spec fn tree_of(s: StoreView, a: AssistantRow) -> AssistantBranchView {
    AssistantBranchView { assistant: a, topics: live_topics_of(s, a.id) }
}

/// What the store shows: the assistants that are not deleted, by their
/// identities, each with its topics that are not deleted and their
/// messages that are not deleted.
pub open spec fn loaded(s: StoreView) -> Seq<AssistantBranchView> {
    ordered(s.assistants.filter(|a: AssistantRow| !a.is_deleted)).map_values(
        |a: AssistantRow| tree_of(s, a),
    )
}

/// The messages of the topic `topic_id` that are not deleted, by the time
/// of their creation.
pub fn live_messages(messages: &Vec<SyncMessage>, topic_id: &String) -> (out: Vec<SyncMessage>)
    ensures
        rows(out@) == live_messages_of(rows(messages@), topic_id@),
{
    let mut kept: Vec<SyncMessage> = Vec::new();
    let ghost wanted = |m: MessageRow| m.topic_id == topic_id@ && !m.is_deleted;
    let mut i: usize = 0;
    proof {
        assert(rows(messages@.take(0)) =~= Seq::<MessageRow>::empty());
        assert(rows(kept@) =~= Seq::<MessageRow>::empty());
        assert(Seq::<MessageRow>::empty().filter(wanted) =~= Seq::<MessageRow>::empty()) by {
            reveal(Seq::filter);
        }
    }
    while i < messages.len()
        invariant
            i <= messages.len(),
            wanted == |m: MessageRow| m.topic_id == topic_id@ && !m.is_deleted,
            rows(kept@) == rows(messages@.take(i as int)).filter(wanted),
        decreases messages.len() - i,
    {
        let ghost before = kept@;
        proof {
            assert(messages@.take(i + 1) == messages@.take(i as int).push(messages@[i as int]));
            lemma_rows_push(messages@.take(i as int), messages@[i as int]);
            rows(messages@.take(i as int)).lemma_filter_push(messages@[i as int]@, wanted);
        }
        if messages[i].topic_id == *topic_id && !messages[i].is_deleted {
            let item = messages[i].duplicate();
            kept.push(item);
            proof {
                lemma_rows_push(before, item);
            }
        }
        i += 1;
    }
    proof {
        assert(messages@.take(messages.len() as int) == messages@);
    }
    sort_by_rank(&kept)
}

/// The topics of the assistant `assistant_id` that are not deleted, in the
/// order of the table, each with its messages.
pub fn live_topics(store: &Store, assistant_id: &String) -> (out: Vec<TopicBranch>)
    ensures
        rows(out@) == live_topics_of(store@, assistant_id@),
{
    let topics = store.topics();
    let messages = store.messages();
    let mut out: Vec<TopicBranch> = Vec::new();
    let ghost wanted = |t: TopicRow| t.assistant_id == assistant_id@ && !t.is_deleted;
    let ghost branch = |t: TopicRow| branch_of(store@.messages, t);
    let mut i: usize = 0;
    proof {
        assert(rows(topics@.take(0)) =~= Seq::<TopicRow>::empty());
        assert(Seq::<TopicRow>::empty().filter(wanted) =~= Seq::<TopicRow>::empty()) by {
            reveal(Seq::filter);
        }
        assert(rows(out@) =~= rows(topics@.take(0)).filter(wanted).map_values(branch));
    }
    while i < topics.len()
        invariant
            i <= topics.len(),
            rows(topics@) == store@.topics,
            rows(messages@) == store@.messages,
            wanted == |t: TopicRow| t.assistant_id == assistant_id@ && !t.is_deleted,
            branch == |t: TopicRow| branch_of(store@.messages, t),
            rows(out@) == rows(topics@.take(i as int)).filter(wanted).map_values(branch),
        decreases topics.len() - i,
    {
        let ghost before = out@;
        let ghost seen = rows(topics@.take(i as int)).filter(wanted);
        proof {
            assert(topics@.take(i + 1) == topics@.take(i as int).push(topics@[i as int]));
            lemma_rows_push(topics@.take(i as int), topics@[i as int]);
            rows(topics@.take(i as int)).lemma_filter_push(topics@[i as int]@, wanted);
        }
        if topics[i].assistant_id == *assistant_id && !topics[i].is_deleted {
            let item = TopicBranch {
                topic: topics[i].duplicate(),
                messages: live_messages(messages, &topics[i].id),
            };
            out.push(item);
            proof {
                lemma_rows_push(before, item);
                assert(seen.push(topics@[i as int]@).map_values(branch) =~= seen.map_values(
                    branch,
                ).push(branch(topics@[i as int]@)));
            }
        }
        i += 1;
    }
    proof {
        assert(topics@.take(topics.len() as int) == topics@);
    }
    out
}

/// What the store shows: the assistants that are not deleted, by their
/// identities, each with its topics that are not deleted, in the order of
/// the table, and each of those with its messages that are not deleted, by
/// the time of their creation.
pub fn load_assistants(store: &Store) -> (out: Vec<AssistantBranch>)
    ensures
        rows(out@) == loaded(store@),
{
    let assistants = store.assistants();
    let mut kept: Vec<SyncAssistant> = Vec::new();
    let ghost live = |a: AssistantRow| !a.is_deleted;
    let mut i: usize = 0;
    proof {
        assert(rows(assistants@.take(0)) =~= Seq::<AssistantRow>::empty());
        assert(rows(kept@) =~= Seq::<AssistantRow>::empty());
        assert(Seq::<AssistantRow>::empty().filter(live) =~= Seq::<AssistantRow>::empty()) by {
            reveal(Seq::filter);
        }
    }
    while i < assistants.len()
        invariant
            i <= assistants.len(),
            live == |a: AssistantRow| !a.is_deleted,
            rows(kept@) == rows(assistants@.take(i as int)).filter(live),
        decreases assistants.len() - i,
    {
        let ghost before = kept@;
        proof {
            assert(assistants@.take(i + 1) == assistants@.take(i as int).push(
                assistants@[i as int],
            ));
            lemma_rows_push(assistants@.take(i as int), assistants@[i as int]);
            rows(assistants@.take(i as int)).lemma_filter_push(assistants@[i as int]@, live);
        }
        if !assistants[i].is_deleted {
            let item = assistants[i].duplicate();
            kept.push(item);
            proof {
                lemma_rows_push(before, item);
            }
        }
        i += 1;
    }
    proof {
        assert(assistants@.take(assistants.len() as int) == assistants@);
    }
    let sorted = sort_by_rank(&kept);
    let ghost tree = |a: AssistantRow| tree_of(store@, a);
    let mut out: Vec<AssistantBranch> = Vec::new();
    let mut j: usize = 0;
    proof {
        assert(rows(out@) =~= rows(sorted@.take(0)).map_values(tree));
    }
    while j < sorted.len()
        invariant
            j <= sorted.len(),
            tree == |a: AssistantRow| tree_of(store@, a),
            rows(out@) == rows(sorted@.take(j as int)).map_values(tree),
        decreases sorted.len() - j,
    {
        let ghost before = out@;
        let item = AssistantBranch {
            assistant: sorted[j].duplicate(),
            topics: live_topics(store, &sorted[j].id),
        };
        out.push(item);
        proof {
            lemma_rows_push(before, item);
            assert(sorted@.take(j + 1) == sorted@.take(j as int).push(sorted@[j as int]));
            lemma_rows_push(sorted@.take(j as int), sorted@[j as int]);
            assert(rows(sorted@.take(j as int)).push(sorted@[j as int]@).map_values(tree)
                =~= rows(sorted@.take(j as int)).map_values(tree).push(tree(sorted@[j as int]@)));
        }
        j += 1;
    }
    proof {
        assert(sorted@.take(sorted.len() as int) == sorted@);
    }
    out
}

/// The assistant that a save leaves in the store: identity, name and
/// prompt as given, modified at `now`, not deleted.
pub open spec fn fresh_assistant(d: AssistantRow, now: Seq<char>) -> AssistantRow {
    AssistantRow { id: d.id, name: d.name, prompt: d.prompt, updated_at: now, is_deleted: false }
}

/// The topics after the topic `d` is saved for the assistant `owner`. A
/// topic that is in the table takes the name and the summary given, is
/// modified at `now` and is not deleted; it stays with the assistant it
/// belongs to. A topic that is not in the table is appended, belonging to
/// `owner`.
pub open spec fn saved_topic(
    table: Seq<TopicRow>,
    d: TopicRow,
    owner: Seq<char>,
    now: Seq<char>,
) -> Seq<TopicRow> {
    if holds(table, d.id) {
        let at = index_of(table, d.id);
        table.update(
            at,
            TopicRow {
                name: d.name,
                summary: d.summary,
                updated_at: now,
                is_deleted: false,
                ..table[at]
            },
        )
    } else {
        table.push(
            TopicRow {
                id: d.id,
                assistant_id: owner,
                name: d.name,
                summary: d.summary,
                updated_at: now,
                is_deleted: false,
            },
        )
    }
}

/// The messages after those of the topic `topic` that are not among `kept`
/// have become tombstones made at `now`.
pub open spec fn retired(
    table: Seq<MessageRow>,
    topic: Seq<char>,
    kept: Seq<MessageRow>,
    now: Seq<char>,
) -> Seq<MessageRow> {
    buried_where(table, |m: MessageRow| m.topic_id == topic && !holds(kept, m.id), now)
}

/// The messages after the message `d` is saved in the topic `topic`. A
/// message that is in the table takes the content, the model and what is
/// displayed as given, is modified at `now` and is not deleted; its role,
/// its topic and the time of its creation stay. A message that is not in
/// the table is appended to `topic`, created and modified at `now`.
pub open spec fn saved_message(
    table: Seq<MessageRow>,
    d: MessageRow,
    topic: Seq<char>,
    now: Seq<char>,
) -> Seq<MessageRow> {
    if holds(table, d.id) {
        let at = index_of(table, d.id);
        table.update(
            at,
            MessageRow {
                content: d.content,
                model_id: d.model_id,
                display_files: d.display_files,
                display_text: d.display_text,
                updated_at: now,
                is_deleted: false,
                ..table[at]
            },
        )
    } else {
        table.push(
            MessageRow {
                id: d.id,
                topic_id: topic,
                role: d.role,
                content: d.content,
                model_id: d.model_id,
                display_files: d.display_files,
                display_text: d.display_text,
                timestamp: now,
                updated_at: now,
                is_deleted: false,
            },
        )
    }
}

/// The messages after `drafts` are saved in the topic `topic`, first to
/// last.
pub open spec fn saved_messages(
    table: Seq<MessageRow>,
    drafts: Seq<MessageRow>,
    topic: Seq<char>,
    now: Seq<char>,
) -> Seq<MessageRow>
    decreases drafts.len(),
{
    if drafts.len() == 0 {
        table
    } else {
        saved_message(saved_messages(table, drafts.drop_last(), topic, now), drafts.last(), topic, now)
    }
}

/// Topics and messages after one topic is saved with its messages: the
/// topic is saved, the messages of the topic that are no longer among its
/// messages become tombstones, and its messages are saved.
pub open spec fn saved_branch(
    tables: (Seq<TopicRow>, Seq<MessageRow>),
    b: TopicBranchView,
    owner: Seq<char>,
    now: Seq<char>,
) -> (Seq<TopicRow>, Seq<MessageRow>) {
    (
        saved_topic(tables.0, b.topic, owner, now),
        saved_messages(retired(tables.1, b.topic.id, b.messages, now), b.messages, b.topic.id, now),
    )
}

/// Topics and messages after `branches` are saved, first to last.
pub open spec fn saved_branches(
    tables: (Seq<TopicRow>, Seq<MessageRow>),
    branches: Seq<TopicBranchView>,
    owner: Seq<char>,
    now: Seq<char>,
) -> (Seq<TopicRow>, Seq<MessageRow>)
    decreases branches.len(),
{
    if branches.len() == 0 {
        tables
    } else {
        saved_branch(
            saved_branches(tables, branches.drop_last(), owner, now),
            branches.last(),
            owner,
            now,
        )
    }
}

/// The store after an assistant is saved with its topics and their
/// messages at `now`.
pub open spec fn saved(s: StoreView, d: AssistantBranchView, now: Seq<char>) -> StoreView {
    let tables = saved_branches((s.topics, s.messages), d.topics, d.assistant.id, now);
    StoreView {
        assistants: upsert(ConflictPolicy::RemoteWins, s.assistants, fresh_assistant(d.assistant, now)),
        topics: tables.0,
        messages: tables.1,
        watermark: s.watermark,
    }
}

/// `after` is `before` with rows changed in place in all but their
/// identities and owners, and with a row of the identity `key` and the
/// owner `owner` appended where `before` holds no row of that identity.
pub open spec fn grown_from<R: Keyed>(
    before: Seq<R>,
    after: Seq<R>,
    key: Seq<char>,
    owner: Option<Seq<char>>,
) -> bool {
    &&& forall|i: int|
        0 <= i < before.len() && i < after.len() ==> (#[trigger] after[i]).key() == before[i].key()
            && after[i].owner() == before[i].owner()
    &&& if holds(before, key) {
        after.len() == before.len()
    } else {
        after.len() == before.len() + 1 && after.last().key() == key && after.last().owner()
            == owner
    }
}

/// A table that has grown by a row whose owner is there keeps its
/// identities distinct and its rows owned, and holds the identities it held
/// and that of the row.
pub proof fn lemma_grown<P: Keyed, R: Keyed>(
    owners: Seq<P>,
    before: Seq<R>,
    after: Seq<R>,
    key: Seq<char>,
    owner: Option<Seq<char>>,
)
    requires
        grown_from(before, after, key, owner),
        distinct(before),
        all_owned(owners, before),
        match owner {
            Some(o) => holds(owners, o),
            None => true,
        },
    ensures
        distinct(after),
        all_owned(owners, after),
        forall|k: Seq<char>| holds(after, k) <==> holds(before, k) || k == key,
{
    assert forall|i: int, j: int| 0 <= i < j < after.len() implies #[trigger] after[i].key()
        != #[trigger] after[j].key() by {
        if j < before.len() {
            assert(before[i].key() != before[j].key());
        } else {
            assert(before[i].key() != key);
        }
    }
    assert forall|i: int| 0 <= i < after.len() implies owner_present(
        owners,
        #[trigger] after[i],
    ) by {
        if i < before.len() {
            assert(owner_present(owners, before[i]));
        }
    }
    assert forall|k: Seq<char>| holds(after, k) <==> holds(before, k) || k == key by {
        if holds(before, k) {
            let i = index_of(before, k);
            assert(after[i].key() == k);
        }
        if k == key {
            if holds(before, key) {
                let i = index_of(before, key);
                assert(after[i].key() == k);
            } else {
                assert(after[after.len() - 1].key() == k);
            }
        }
        if holds(after, k) {
            let i = index_of(after, k);
            if i < before.len() {
                assert(before[i].key() == k);
            }
        }
    }
}

/// Saving a topic changes rows in place, in all but identity and owner,
/// and appends at most the topic.
pub proof fn lemma_saved_topic(table: Seq<TopicRow>, d: TopicRow, owner: Seq<char>, now: Seq<char>)
    requires
        distinct(table),
    ensures
        grown_from(table, saved_topic(table, d, owner, now), d.id, Some(owner)),
{
    if holds(table, d.id) {
        let at = index_of(table, d.id);
        assert(table[at].key() == d.id);
    }
}

/// Saving a message changes rows in place, in all but identity and owner,
/// and appends at most the message.
pub proof fn lemma_saved_message(
    table: Seq<MessageRow>,
    d: MessageRow,
    topic: Seq<char>,
    now: Seq<char>,
)
    requires
        distinct(table),
    ensures
        grown_from(table, saved_message(table, d, topic, now), d.id, Some(topic)),
{
    if holds(table, d.id) {
        let at = index_of(table, d.id);
        assert(table[at].key() == d.id);
    }
}

/// Saving messages in a topic of the store keeps the messages distinct and
/// owned, and keeps every message that was there.
pub proof fn lemma_saved_messages(
    topics: Seq<TopicRow>,
    table: Seq<MessageRow>,
    drafts: Seq<MessageRow>,
    topic: Seq<char>,
    now: Seq<char>,
)
    requires
        distinct(table),
        all_owned(topics, table),
        holds(topics, topic),
    ensures
        distinct(saved_messages(table, drafts, topic, now)),
        all_owned(topics, saved_messages(table, drafts, topic, now)),
        forall|k: Seq<char>|
            holds(table, k) ==> holds(saved_messages(table, drafts, topic, now), k),
    decreases drafts.len(),
{
    if drafts.len() > 0 {
        let mid = saved_messages(table, drafts.drop_last(), topic, now);
        lemma_saved_messages(topics, table, drafts.drop_last(), topic, now);
        lemma_saved_message(mid, drafts.last(), topic, now);
        lemma_grown(
            topics,
            mid,
            saved_message(mid, drafts.last(), topic, now),
            drafts.last().id,
            Some(topic),
        );
    }
}

/// What holds of the tables of a store while topics are saved for an
/// assistant of the store.
pub open spec fn tables_fit(
    assistants: Seq<AssistantRow>,
    tables: (Seq<TopicRow>, Seq<MessageRow>),
) -> bool {
    &&& distinct(tables.0)
    &&& distinct(tables.1)
    &&& all_owned(assistants, tables.0)
    &&& all_owned(tables.0, tables.1)
}

/// Saving a topic with its messages keeps the tables fit and keeps every
/// topic and every message that was there.
pub proof fn lemma_saved_branch(
    assistants: Seq<AssistantRow>,
    tables: (Seq<TopicRow>, Seq<MessageRow>),
    b: TopicBranchView,
    owner: Seq<char>,
    now: Seq<char>,
)
    requires
        tables_fit(assistants, tables),
        holds(assistants, owner),
    ensures
        tables_fit(assistants, saved_branch(tables, b, owner, now)),
        forall|k: Seq<char>|
            holds(tables.0, k) ==> holds(saved_branch(tables, b, owner, now).0, k),
        forall|k: Seq<char>|
            holds(tables.1, k) ==> holds(saved_branch(tables, b, owner, now).1, k),
{
    let topics1 = saved_topic(tables.0, b.topic, owner, now);
    lemma_saved_topic(tables.0, b.topic, owner, now);
    lemma_grown(assistants, tables.0, topics1, b.topic.id, Some(owner));
    lemma_owned_by_more(tables.0, topics1, tables.1);
    let gone = |m: MessageRow| m.topic_id == b.topic.id && !holds(b.messages, m.id);
    let messages1 = retired(tables.1, b.topic.id, b.messages, now);
    lemma_buried_where(tables.1, gone, now);
    assert forall|j: int| 0 <= j < messages1.len() implies owner_present(
        topics1,
        #[trigger] messages1[j],
    ) by {
        assert(owner_present(topics1, tables.1[j]));
    }
    lemma_saved_messages(topics1, messages1, b.messages, b.topic.id, now);
}

/// Saving topics with their messages keeps the tables fit and keeps every
/// topic and every message that was there.
pub proof fn lemma_saved_branches(
    assistants: Seq<AssistantRow>,
    tables: (Seq<TopicRow>, Seq<MessageRow>),
    branches: Seq<TopicBranchView>,
    owner: Seq<char>,
    now: Seq<char>,
)
    requires
        tables_fit(assistants, tables),
        holds(assistants, owner),
    ensures
        tables_fit(assistants, saved_branches(tables, branches, owner, now)),
        forall|k: Seq<char>|
            holds(tables.0, k) ==> holds(saved_branches(tables, branches, owner, now).0, k),
        forall|k: Seq<char>|
            holds(tables.1, k) ==> holds(saved_branches(tables, branches, owner, now).1, k),
    decreases branches.len(),
{
    if branches.len() > 0 {
        lemma_saved_branches(assistants, tables, branches.drop_last(), owner, now);
        lemma_saved_branch(
            assistants,
            saved_branches(tables, branches.drop_last(), owner, now),
            branches.last(),
            owner,
            now,
        );
    }
}

/// Saving an assistant keeps the store consistent.
pub proof fn lemma_saved_consistent(s: StoreView, d: AssistantBranchView, now: Seq<char>)
    requires
        consistent(s),
    ensures
        consistent(saved(s, d, now)),
{
    let row = fresh_assistant(d.assistant, now);
    let a = upsert(ConflictPolicy::RemoteWins, s.assistants, row);
    lemma_upsert(ConflictPolicy::RemoteWins, s.assistants, row);
    lemma_owned_by_more(s.assistants, a, s.topics);
    lemma_saved_branches(a, (s.topics, s.messages), d.topics, d.assistant.id, now);
}

/// Saves the topic `d` for the assistant `owner`.
fn save_topic(topics: &mut Vec<SyncTopic>, d: &SyncTopic, owner: &String, now: &str)
    requires
        distinct(rows(old(topics)@)),
    ensures
        rows(final(topics)@) == saved_topic(rows(old(topics)@), d@, owner@, now@),
        grown_from(rows(old(topics)@), rows(final(topics)@), d@.id, Some(owner@)),
{
    let ghost before = topics@;
    match find(topics, &d.id) {
        Some(at) => {
            proof {
                lemma_index_of(rows(before), at as int);
            }
            let row = SyncTopic {
                id: topics[at].id.clone(),
                assistant_id: topics[at].assistant_id.clone(),
                name: d.name.clone(),
                summary: copy_text(&d.summary),
                updated_at: String::from_str(now),
                is_deleted: false,
            };
            topics[at] = row;
            proof {
                assert(rows(topics@) =~= rows(before).update(at as int, row@));
            }
        },
        None => {
            let row = SyncTopic {
                id: d.id.clone(),
                assistant_id: owner.clone(),
                name: d.name.clone(),
                summary: copy_text(&d.summary),
                updated_at: String::from_str(now),
                is_deleted: false,
            };
            topics.push(row);
            proof {
                lemma_rows_push(before, row);
            }
        },
    }
}

/// Saves the message `d` in the topic `topic`.
fn save_message(messages: &mut Vec<SyncMessage>, d: &SyncMessage, topic: &String, now: &str)
    requires
        distinct(rows(old(messages)@)),
    ensures
        rows(final(messages)@) == saved_message(rows(old(messages)@), d@, topic@, now@),
        grown_from(rows(old(messages)@), rows(final(messages)@), d@.id, Some(topic@)),
{
    let ghost before = messages@;
    match find(messages, &d.id) {
        Some(at) => {
            proof {
                lemma_index_of(rows(before), at as int);
            }
            let row = SyncMessage {
                id: messages[at].id.clone(),
                topic_id: messages[at].topic_id.clone(),
                role: messages[at].role.clone(),
                content: d.content.clone(),
                model_id: copy_text(&d.model_id),
                display_files: copy_text(&d.display_files),
                display_text: copy_text(&d.display_text),
                timestamp: messages[at].timestamp.clone(),
                updated_at: String::from_str(now),
                is_deleted: false,
            };
            messages[at] = row;
            proof {
                assert(rows(messages@) =~= rows(before).update(at as int, row@));
            }
        },
        None => {
            let row = SyncMessage {
                id: d.id.clone(),
                topic_id: topic.clone(),
                role: d.role.clone(),
                content: d.content.clone(),
                model_id: copy_text(&d.model_id),
                display_files: copy_text(&d.display_files),
                display_text: copy_text(&d.display_text),
                timestamp: String::from_str(now),
                updated_at: String::from_str(now),
                is_deleted: false,
            };
            messages.push(row);
            proof {
                lemma_rows_push(before, row);
            }
        },
    }
}

/// Saves one topic with its messages.
fn save_branch(
    topics: &mut Vec<SyncTopic>,
    messages: &mut Vec<SyncMessage>,
    b: &TopicBranch,
    owner: &String,
    now: &str,
    Ghost(assistants): Ghost<Seq<AssistantRow>>,
)
    requires
        distinct(rows(old(topics)@)),
        distinct(rows(old(messages)@)),
        all_owned(assistants, rows(old(topics)@)),
        all_owned(rows(old(topics)@), rows(old(messages)@)),
        holds(assistants, owner@),
    ensures
        (rows(final(topics)@), rows(final(messages)@)) == saved_branch(
            (rows(old(topics)@), rows(old(messages)@)),
            b@,
            owner@,
            now@,
        ),
        distinct(rows(final(topics)@)),
        distinct(rows(final(messages)@)),
        all_owned(assistants, rows(final(topics)@)),
        all_owned(rows(final(topics)@), rows(final(messages)@)),
{
    let ghost topics0 = rows(topics@);
    let ghost messages0 = rows(messages@);
    save_topic(topics, &b.topic, owner, now);
    let ghost topics1 = rows(topics@);
    proof {
        lemma_grown(assistants, topics0, topics1, b@.topic.id, Some(owner@));
        lemma_owned_by_more(topics0, topics1, messages0);
    }
    let mut marks: Vec<bool> = Vec::new();
    let mut i: usize = 0;
    let ghost gone = |m: MessageRow| m.topic_id == b@.topic.id && !holds(b@.messages, m.id);
    while i < messages.len()
        invariant
            i <= messages.len(),
            marks.len() == i,
            gone == |m: MessageRow| m.topic_id == b@.topic.id && !holds(b@.messages, m.id),
            forall|j: int| 0 <= j < i ==> marks@[j] == gone(rows(messages@)[j]),
        decreases messages.len() - i,
    {
        let mark = messages[i].topic_id == b.topic.id && find(&b.messages, &messages[i].id).is_none();
        marks.push(mark);
        i += 1;
    }
    let mut next = bury_marked(messages, &marks, now);
    let ghost messages1 = rows(next@);
    proof {
        assert(messages1 =~= retired(messages0, b@.topic.id, b@.messages, now@));
        lemma_buried_where(messages0, gone, now@);
        assert forall|j: int| 0 <= j < messages1.len() implies owner_present(
            topics1,
            #[trigger] messages1[j],
        ) by {
            assert(owner_present(topics1, messages0[j]));
        }
    }
    let mut k: usize = 0;
    proof {
        assert(b@.messages.take(0).len() == 0);
    }
    while k < b.messages.len()
        invariant
            k <= b.messages.len(),
            topics1 == rows(topics@),
            holds(topics1, b@.topic.id),
            distinct(rows(next@)),
            all_owned(topics1, rows(next@)),
            rows(next@) == saved_messages(messages1, b@.messages.take(k as int), b@.topic.id, now@),
        decreases b.messages.len() - k,
    {
        let ghost before = rows(next@);
        save_message(&mut next, &b.messages[k], &b.topic.id, now);
        proof {
            lemma_grown(topics1, before, rows(next@), b.messages@[k as int]@.id, Some(b@.topic.id));
            assert(b@.messages.take(k + 1).drop_last() == b@.messages.take(k as int));
            assert(b@.messages.take(k + 1).last() == b.messages@[k as int]@);
        }
        k += 1;
    }
    proof {
        assert(b@.messages.take(b.messages.len() as int) == b@.messages);
    }
    *messages = next;
}

/// Saves an assistant with its topics and their messages at `now`.
///
/// The assistant is saved under its identity with the name and the prompt
/// given. Each topic given is saved, in order: with its name and summary,
/// for this assistant where it is new; the messages that the store holds
/// for the topic and that are not among those given become tombstones; and
/// each message given is saved with its content. Whatever is saved is
/// modified at `now` and not deleted. Of the rows given, the fields that
/// tell ownership, deletion and times are not read. No row is removed.
pub fn save_assistant(store: &mut Store, draft: &AssistantBranch, now: &str)
    ensures
        final(store)@ == saved(old(store)@, draft@, now@),
{
    let mut held = Store::new();
    std::mem::swap(store, &mut held);
    let ghost pre = held@;
    let (mut assistants, mut topics, mut messages, watermark) = held.into_parts();
    let row = SyncAssistant {
        id: draft.assistant.id.clone(),
        name: draft.assistant.name.clone(),
        prompt: draft.assistant.prompt.clone(),
        updated_at: String::from_str(now),
        is_deleted: false,
    };
    proof {
        lemma_upsert(ConflictPolicy::RemoteWins, pre.assistants, row@);
        lemma_owned_by_more(
            pre.assistants,
            upsert(ConflictPolicy::RemoteWins, pre.assistants, row@),
            pre.topics,
        );
    }
    put_row(&mut assistants, row);
    let ghost all = rows(assistants@);
    let mut i: usize = 0;
    proof {
        assert(draft@.topics.take(0).len() == 0);
    }
    while i < draft.topics.len()
        invariant
            i <= draft.topics.len(),
            all == rows(assistants@),
            holds(all, draft@.assistant.id),
            distinct(rows(topics@)),
            distinct(rows(messages@)),
            all_owned(all, rows(topics@)),
            all_owned(rows(topics@), rows(messages@)),
            (rows(topics@), rows(messages@)) == saved_branches(
                (pre.topics, pre.messages),
                draft@.topics.take(i as int),
                draft@.assistant.id,
                now@,
            ),
        decreases draft.topics.len() - i,
    {
        save_branch(&mut topics, &mut messages, &draft.topics[i], &draft.assistant.id, now, Ghost(all));
        proof {
            assert(draft@.topics.take(i + 1).drop_last() == draft@.topics.take(i as int));
            assert(draft@.topics.take(i + 1).last() == draft.topics@[i as int]@);
        }
        i += 1;
    }
    proof {
        assert(draft@.topics.take(draft.topics.len() as int) == draft@.topics);
    }
    *store = Store::from_parts(assistants, topics, messages, watermark);
}

} // verus!
