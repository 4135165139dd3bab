//! The on-device store: three tables of rows and the watermark of the last
//! completed synchronisation.
//!
//! Within a store no two rows of a table share an identity, every topic
//! names an assistant of the store, and every message names a topic of the
//! store. Rows are never removed: a deleted row stays as a tombstone.

use vstd::prelude::*;
use vstd::string::*;
use crate::errors::{StoreFault, StoreFaultView};
use crate::records::{
    copy_rows, copy_text, rows, text_of, AssistantRow, BundleView, MessageRow, SyncAssistant,
    SyncBundle, SyncMessage, SyncTopic, TopicRow,
};
use crate::stamp::{in_layout, moment, spelled};
use crate::table::{
    all_owned, changed_since, distinct, find, first_refused, holds, lemma_first_refused,
    lemma_owned_by_more, lemma_unowned_pass, lemma_upsert, lemma_write_rows, owner_present,
    put_row, rows_changed_since, upsert, write_all, write_rows, ConflictPolicy,
};

verus! {

/// The view of a `Store`.
pub struct StoreView {
    pub assistants: Seq<AssistantRow>,
    pub topics: Seq<TopicRow>,
    pub messages: Seq<MessageRow>,
    pub watermark: Option<Seq<char>>,
}

/// What holds of every store: distinct identities in each table, and no
/// topic or message without its owner.
pub open spec fn consistent(s: StoreView) -> bool {
    &&& distinct(s.assistants)
    &&& distinct(s.topics)
    &&& distinct(s.messages)
    &&& all_owned(s.assistants, s.topics)
    &&& all_owned(s.topics, s.messages)
}

/// The watermark of a store that has never been synchronised.
pub open spec fn epoch() -> Seq<char> {
    "1970-01-01 00:00:00"@
}

/// The epoch is a timestamp in the layout of the store, and names the first
/// moment of 1970.
pub proof fn lemma_epoch()
    ensures
        in_layout(epoch()),
        moment(epoch()) == 19700101000000,
{
    reveal_strlit("1970-01-01 00:00:00");
    reveal_with_fuel(spelled, 20);
}

/// The watermark that a cycle starts from: the recorded one, or the epoch
/// where none was recorded.
pub open spec fn mark_of(watermark: Option<Seq<char>>) -> Seq<char> {
    match watermark {
        Some(w) => w,
        None => epoch(),
    }
}

/// The bundle of the rows of `s` modified strictly later than `mark`,
/// tombstones included, carrying `mark`.
pub open spec fn collected(s: StoreView, mark: Seq<char>) -> BundleView {
    BundleView {
        assistants: changed_since(s.assistants, mark),
        topics: changed_since(s.topics, mark),
        messages: changed_since(s.messages, mark),
        last_sync_time: mark,
    }
}

/// The table of assistants after the assistants of a bundle are written.
/// An assistant names no owner, so none is refused.
pub open spec fn assistants_applied(
    policy: ConflictPolicy,
    table: Seq<AssistantRow>,
    incoming: Seq<AssistantRow>,
) -> Seq<AssistantRow> {
    write_rows(policy, Seq::<AssistantRow>::empty(), table, incoming)->0
}

/// The store after a bundle is applied as one transaction: assistants
/// first, then topics, then messages, each row as an upsert under `policy`.
/// The first row written without its owner fails the whole.
pub open spec fn applied(policy: ConflictPolicy, s: StoreView, b: BundleView) -> Result<
    StoreView,
    StoreFaultView,
> {
    let a = assistants_applied(policy, s.assistants, b.assistants);
    match write_rows(policy, a, s.topics, b.topics) {
        None => {
            let i = first_refused(policy, a, s.topics, b.topics);
            Err(
                StoreFaultView::OrphanTopic {
                    topic: b.topics[i].id,
                    assistant: b.topics[i].assistant_id,
                },
            )
        },
        Some(t) => match write_rows(policy, t, s.messages, b.messages) {
            None => {
                let i = first_refused(policy, t, s.messages, b.messages);
                Err(
                    StoreFaultView::OrphanMessage {
                        message: b.messages[i].id,
                        topic: b.messages[i].topic_id,
                    },
                )
            },
            Some(m) => Ok(
                StoreView { assistants: a, topics: t, messages: m, watermark: s.watermark },
            ),
        },
    }
}

/// `s` with `now` recorded as its watermark.
pub open spec fn advanced(s: StoreView, now: Seq<char>) -> StoreView {
    StoreView { watermark: Some(now), ..s }
}

/// The on-device store.
pub struct Store {
    assistants: Vec<SyncAssistant>,
    topics: Vec<SyncTopic>,
    messages: Vec<SyncMessage>,
    watermark: Option<String>,
}

impl View for Store {
    type V = StoreView;

    closed spec fn view(&self) -> StoreView {
        StoreView {
            assistants: rows(self.assistants@),
            topics: rows(self.topics@),
            messages: rows(self.messages@),
            watermark: text_of(self.watermark),
        }
    }
}

impl Store {
    #[verifier::type_invariant]
    spec fn well_formed(&self) -> bool {
        consistent(self@)
    }

    /// A store without rows that has never been synchronised.
    pub fn new() -> (s: Store)
        ensures
            s@ == (StoreView {
                assistants: Seq::empty(),
                topics: Seq::empty(),
                messages: Seq::empty(),
                watermark: None,
            }),
    {
        let s = Store {
            assistants: Vec::new(),
            topics: Vec::new(),
            messages: Vec::new(),
            watermark: None,
        };
        proof {
            assert(s@.assistants =~= Seq::empty());
            assert(s@.topics =~= Seq::empty());
            assert(s@.messages =~= Seq::empty());
        }
        s
    }

    /// The tables and the watermark of a store.
    pub(crate) fn into_parts(self) -> (r: (
        Vec<SyncAssistant>,
        Vec<SyncTopic>,
        Vec<SyncMessage>,
        Option<String>,
    ))
        ensures
            consistent(self@),
            self@ == (StoreView {
                assistants: rows(r.0@),
                topics: rows(r.1@),
                messages: rows(r.2@),
                watermark: text_of(r.3),
            }),
    {
        proof {
            use_type_invariant(&self);
        }
        let Store { assistants, topics, messages, watermark } = self;
        (assistants, topics, messages, watermark)
    }

    /// The store of these tables and this watermark.
    pub(crate) fn from_parts(
        assistants: Vec<SyncAssistant>,
        topics: Vec<SyncTopic>,
        messages: Vec<SyncMessage>,
        watermark: Option<String>,
    ) -> (s: Store)
        requires
            consistent(
                StoreView {
                    assistants: rows(assistants@),
                    topics: rows(topics@),
                    messages: rows(messages@),
                    watermark: text_of(watermark),
                },
            ),
        ensures
            s@ == (StoreView {
                assistants: rows(assistants@),
                topics: rows(topics@),
                messages: rows(messages@),
                watermark: text_of(watermark),
            }),
    {
        Store { assistants, topics, messages, watermark }
    }

    /// The assistants, in the order of the table.
    pub fn assistants(&self) -> (r: &Vec<SyncAssistant>)
        ensures
            rows(r@) == self@.assistants,
            consistent(self@),
    {
        proof {
            use_type_invariant(self);
        }
        &self.assistants
    }

    /// The topics, in the order of the table.
    pub fn topics(&self) -> (r: &Vec<SyncTopic>)
        ensures
            rows(r@) == self@.topics,
            consistent(self@),
    {
        proof {
            use_type_invariant(self);
        }
        &self.topics
    }

    /// The messages, in the order of the table.
    pub fn messages(&self) -> (r: &Vec<SyncMessage>)
        ensures
            rows(r@) == self@.messages,
            consistent(self@),
    {
        proof {
            use_type_invariant(self);
        }
        &self.messages
    }

    /// The recorded watermark, if one was ever recorded.
    pub fn watermark(&self) -> (r: Option<String>)
        ensures
            text_of(r) == self@.watermark,
    {
        copy_text(&self.watermark)
    }

    /// The watermark that a cycle starts from: the recorded one, or
    /// `1970-01-01 00:00:00` where none was recorded.
    pub fn last_sync_time(&self) -> (r: String)
        ensures
            r@ == mark_of(self@.watermark),
    {
        match &self.watermark {
            Some(w) => w.clone(),
            None => String::from_str("1970-01-01 00:00:00"),
        }
    }

    /// Records `now` as the watermark. The rows stay as they are.
    pub fn advance_watermark(&mut self, now: &str)
        ensures
            final(self)@ == advanced(old(self)@, now@),
    {
        proof {
            use_type_invariant(&*self);
        }
        self.watermark = Some(String::from_str(now));
    }

    /// Saves an assistant: the row takes the place of the assistant of its
    /// identity, or is appended where there is none.
    pub fn put_assistant(&mut self, row: SyncAssistant)
        ensures
            final(self)@ == (StoreView {
                assistants: upsert(ConflictPolicy::RemoteWins, old(self)@.assistants, row@),
                ..old(self)@
            }),
    {
        proof {
            use_type_invariant(&*self);
            lemma_upsert(ConflictPolicy::RemoteWins, self@.assistants, row@);
            lemma_owned_by_more(
                self@.assistants,
                upsert(ConflictPolicy::RemoteWins, self@.assistants, row@),
                self@.topics,
            );
        }
        let mut held = Store::new();
        std::mem::swap(self, &mut held);
        let Store { mut assistants, topics, messages, watermark } = held;
        put_row(&mut assistants, row);
        *self = Store { assistants, topics, messages, watermark };
    }

    /// Saves a topic: the row takes the place of the topic of its identity,
    /// or is appended where there is none. Where the assistant it names is
    /// not in the store the topic is refused and nothing changes.
    pub fn put_topic(&mut self, row: SyncTopic) -> (r: Result<(), StoreFault>)
        ensures
            match r {
                Ok(()) => holds(old(self)@.assistants, row@.assistant_id) && final(self)@ == (
                StoreView {
                    topics: upsert(ConflictPolicy::RemoteWins, old(self)@.topics, row@),
                    ..old(self)@
                }),
                Err(e) => !holds(old(self)@.assistants, row@.assistant_id) && final(self)@ == old(
                    self,
                )@ && e@ == (StoreFaultView::OrphanTopic {
                    topic: row@.id,
                    assistant: row@.assistant_id,
                }),
            },
    {
        proof {
            use_type_invariant(&*self);
            lemma_upsert(ConflictPolicy::RemoteWins, self@.topics, row@);
            lemma_owned_by_more(
                self@.topics,
                upsert(ConflictPolicy::RemoteWins, self@.topics, row@),
                self@.messages,
            );
        }
        if find(&self.assistants, &row.assistant_id).is_none() {
            return Err(StoreFault::OrphanTopic { topic: row.id, assistant: row.assistant_id });
        }
        let mut held = Store::new();
        std::mem::swap(self, &mut held);
        let Store { assistants, mut topics, messages, watermark } = held;
        proof {
            let after = upsert(ConflictPolicy::RemoteWins, rows(topics@), row@);
            assert forall|i: int| 0 <= i < after.len() implies owner_present(
                rows(assistants@),
                #[trigger] after[i],
            ) by {
                if i < rows(topics@).len() && after[i] == rows(topics@)[i] {
                    assert(owner_present(rows(assistants@), rows(topics@)[i]));
                }
            }
        }
        put_row(&mut topics, row);
        *self = Store { assistants, topics, messages, watermark };
        Ok(())
    }

    /// Saves a message: the row takes the place of the message of its
    /// identity, or is appended where there is none. Where the topic it
    /// names is not in the store the message is refused and nothing changes.
    pub fn put_message(&mut self, row: SyncMessage) -> (r: Result<(), StoreFault>)
        ensures
            match r {
                Ok(()) => holds(old(self)@.topics, row@.topic_id) && final(self)@ == (StoreView {
                    messages: upsert(ConflictPolicy::RemoteWins, old(self)@.messages, row@),
                    ..old(self)@
                }),
                Err(e) => !holds(old(self)@.topics, row@.topic_id) && final(self)@ == old(self)@
                    && e@ == (StoreFaultView::OrphanMessage {
                    message: row@.id,
                    topic: row@.topic_id,
                }),
            },
    {
        proof {
            use_type_invariant(&*self);
            lemma_upsert(ConflictPolicy::RemoteWins, self@.messages, row@);
        }
        if find(&self.topics, &row.topic_id).is_none() {
            return Err(StoreFault::OrphanMessage { message: row.id, topic: row.topic_id });
        }
        let mut held = Store::new();
        std::mem::swap(self, &mut held);
        let Store { assistants, topics, mut messages, watermark } = held;
        proof {
            let after = upsert(ConflictPolicy::RemoteWins, rows(messages@), row@);
            assert forall|i: int| 0 <= i < after.len() implies owner_present(
                rows(topics@),
                #[trigger] after[i],
            ) by {
                if i < rows(messages@).len() && after[i] == rows(messages@)[i] {
                    assert(owner_present(rows(topics@), rows(messages@)[i]));
                }
            }
        }
        put_row(&mut messages, row);
        *self = Store { assistants, topics, messages, watermark };
        Ok(())
    }

    /// The rows modified strictly later than `mark`, tombstones included,
    /// with `mark` itself.
    pub fn changes_since(&self, mark: &str) -> (bundle: SyncBundle)
        ensures
            bundle@ == collected(self@, mark@),
    {
        SyncBundle {
            assistants: rows_changed_since(&self.assistants, mark),
            topics: rows_changed_since(&self.topics, mark),
            messages: rows_changed_since(&self.messages, mark),
            last_sync_time: String::from_str(mark),
        }
    }

    /// Applies `bundle` as one transaction: either every row of it is
    /// written, or the store stays as it was and the row that was refused
    /// is named.
    pub fn apply(&mut self, bundle: &SyncBundle, policy: ConflictPolicy) -> (r: Result<
        (),
        StoreFault,
    >)
        ensures
            match r {
                Ok(()) => applied(policy, old(self)@, bundle@) == Ok::<StoreView, StoreFaultView>(
                    final(self)@,
                ),
                Err(e) => applied(policy, old(self)@, bundle@) == Err::<StoreView, StoreFaultView>(
                    e@,
                ) && final(self)@ == old(self)@,
            },
    {
        proof {
            use_type_invariant(&*self);
        }
        let ghost pre = self@;
        let ghost inc = bundle@;
        let no_owners: Vec<SyncAssistant> = Vec::new();
        let mut a = copy_rows(&self.assistants);
        let mut t = copy_rows(&self.topics);
        let mut m = copy_rows(&self.messages);
        proof {
            assert(rows(no_owners@) =~= Seq::<AssistantRow>::empty());
            lemma_unowned_pass(policy, rows(no_owners@), pre.assistants, inc.assistants);
            assert(all_owned(rows(no_owners@), rows(a@)));
        }
        let first = write_all(policy, &no_owners, &mut a, &bundle.assistants);
        proof {
            if first is Some {
                lemma_first_refused(
                    policy,
                    rows(no_owners@),
                    pre.assistants,
                    inc.assistants,
                    first->0 as int,
                );
            }
            lemma_write_rows(policy, rows(no_owners@), pre.assistants, inc.assistants);
            lemma_owned_by_more(pre.assistants, rows(a@), pre.topics);
        }
        match write_all(policy, &a, &mut t, &bundle.topics) {
            Some(i) => {
                proof {
                    lemma_first_refused(policy, rows(a@), pre.topics, inc.topics, i as int);
                }
                return Err(
                    StoreFault::OrphanTopic {
                        topic: bundle.topics[i].id.clone(),
                        assistant: bundle.topics[i].assistant_id.clone(),
                    },
                );
            },
            None => {},
        }
        proof {
            lemma_write_rows(policy, rows(a@), pre.topics, inc.topics);
            lemma_owned_by_more(pre.topics, rows(t@), pre.messages);
        }
        match write_all(policy, &t, &mut m, &bundle.messages) {
            Some(i) => {
                proof {
                    lemma_first_refused(policy, rows(t@), pre.messages, inc.messages, i as int);
                }
                return Err(
                    StoreFault::OrphanMessage {
                        message: bundle.messages[i].id.clone(),
                        topic: bundle.messages[i].topic_id.clone(),
                    },
                );
            },
            None => {},
        }
        let w = copy_text(&self.watermark);
        *self = Store { assistants: a, topics: t, messages: m, watermark: w };
        Ok(())
    }
}

impl Clone for Store {
    /// A store of its own that holds what this one holds.
    fn clone(&self) -> (r: Store)
        ensures
            r@ == self@,
    {
        proof {
            use_type_invariant(self);
        }
        Store {
            assistants: copy_rows(&self.assistants),
            topics: copy_rows(&self.topics),
            messages: copy_rows(&self.messages),
            watermark: copy_text(&self.watermark),
        }
    }
}

} // verus!
