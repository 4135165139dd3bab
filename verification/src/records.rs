//! The rows that travel between the store and the remote service, and the
//! bundle that carries them.
//!
//! Each executable row has a view made of plain sequences of characters; the
//! contracts of the crate speak of those views.

use vstd::prelude::*;
use vstd::string::*;

verus! {

/// What a row of any of the three tables offers to the rules of the store:
/// the identity it is found by, the timestamp of its last modification, and
/// the identity of the row that owns it, where it has an owner.
pub trait Keyed: Sized {
    /// The identity of the row.
    spec fn key(&self) -> Seq<char>;

    /// The timestamp of the row's last modification.
    spec fn stamp(&self) -> Seq<char>;

    /// The identity of the row that owns this one, where one does.
    spec fn owner(&self) -> Option<Seq<char>>;

    /// The row as a tombstone made at `now`: flagged as deleted and
    /// modified at `now`, every other field as it was.
    spec fn buried(&self, now: Seq<char>) -> Self;

    /// A tombstone keeps the identity and the owner of its row.
    proof fn lemma_buried(&self, now: Seq<char>)
        ensures
            self.buried(now).key() == self.key(),
            self.buried(now).owner() == self.owner(),
            self.buried(now).stamp() == now,
    ;
}

/// An executable row whose view is a `Keyed` row.
pub trait Record: View + Sized where Self::V: Keyed {
    /// The identity of the row.
    fn id(&self) -> (r: &String)
        ensures
            r@ == self@.key(),
    ;

    /// The timestamp of the row's last modification.
    fn updated_at(&self) -> (r: &String)
        ensures
            r@ == self@.stamp(),
    ;

    /// The identity of the row that owns this one, where one does.
    fn owner_id(&self) -> (r: Option<&String>)
        ensures
            match r {
                Some(o) => self@.owner() == Some(o@),
                None => self@.owner() is None,
            },
    ;

    /// A copy of the row.
    fn duplicate(&self) -> (r: Self)
        ensures
            r@ == self@,
    ;

    /// A copy of the row as a tombstone made at `now`.
    fn bury(&self, now: &str) -> (r: Self)
        ensures
            r@ == self@.buried(now@),
    ;
}

/// The views of a sequence of rows, in the same order.
pub open spec fn rows<T: View>(items: Seq<T>) -> Seq<T::V> {
    items.map_values(|t: T| t@)
}

/// The views of a sequence with one more row are the views of the sequence
/// with that row's view appended.
pub proof fn lemma_rows_push<T: View>(items: Seq<T>, item: T)
    ensures
        rows(items.push(item)) == rows(items).push(item@),
{
    assert(rows(items.push(item)) =~= rows(items).push(item@));
}

/// The view of an optional text.
pub open spec fn text_of(t: Option<String>) -> Option<Seq<char>> {
    match t {
        Some(s) => Some(s@),
        None => None,
    }
}

/// A copy of an optional text.
pub fn copy_text(t: &Option<String>) -> (r: Option<String>)
    ensures
        text_of(r) == text_of(*t),
{
    match t {
        Some(s) => Some(s.clone()),
        None => None,
    }
}

/// The view of a `SyncAssistant`.
pub struct AssistantRow {
    pub id: Seq<char>,
    pub name: Seq<char>,
    pub prompt: Seq<char>,
    pub updated_at: Seq<char>,
    pub is_deleted: bool,
}

impl Keyed for AssistantRow {
    open spec fn key(&self) -> Seq<char> {
        self.id
    }

    open spec fn stamp(&self) -> Seq<char> {
        self.updated_at
    }

    open spec fn owner(&self) -> Option<Seq<char>> {
        None
    }

    open spec fn buried(&self, now: Seq<char>) -> AssistantRow {
        AssistantRow { is_deleted: true, updated_at: now, ..*self }
    }

    proof fn lemma_buried(&self, now: Seq<char>) {
    }
}

/// An assistant as it is stored and exchanged. It owns topics.
#[derive(Debug, PartialEq, Eq)]
pub struct SyncAssistant {
    pub id: String,
    pub name: String,
    pub prompt: String,
    pub updated_at: String,
    pub is_deleted: bool,
}

impl View for SyncAssistant {
    type V = AssistantRow;

    open spec fn view(&self) -> AssistantRow {
        AssistantRow {
            id: self.id@,
            name: self.name@,
            prompt: self.prompt@,
            updated_at: self.updated_at@,
            is_deleted: self.is_deleted,
        }
    }
}

impl Record for SyncAssistant {
    fn id(&self) -> (r: &String) {
        &self.id
    }

    fn updated_at(&self) -> (r: &String) {
        &self.updated_at
    }

    fn owner_id(&self) -> (r: Option<&String>) {
        None
    }

    fn duplicate(&self) -> (r: Self) {
        SyncAssistant {
            id: self.id.clone(),
            name: self.name.clone(),
            prompt: self.prompt.clone(),
            updated_at: self.updated_at.clone(),
            is_deleted: self.is_deleted,
        }
    }

    fn bury(&self, now: &str) -> (r: Self) {
        SyncAssistant {
            id: self.id.clone(),
            name: self.name.clone(),
            prompt: self.prompt.clone(),
            updated_at: String::from_str(now),
            is_deleted: true,
        }
    }
}

impl Clone for SyncAssistant {
    fn clone(&self) -> (r: Self)
        ensures
            r@ == self@,
    {
        self.duplicate()
    }
}

/// The view of a `SyncTopic`.
pub struct TopicRow {
    pub id: Seq<char>,
    pub assistant_id: Seq<char>,
    pub name: Seq<char>,
    pub summary: Option<Seq<char>>,
    pub updated_at: Seq<char>,
    pub is_deleted: bool,
}

impl Keyed for TopicRow {
    open spec fn key(&self) -> Seq<char> {
        self.id
    }

    open spec fn stamp(&self) -> Seq<char> {
        self.updated_at
    }

    open spec fn owner(&self) -> Option<Seq<char>> {
        Some(self.assistant_id)
    }

    open spec fn buried(&self, now: Seq<char>) -> TopicRow {
        TopicRow { is_deleted: true, updated_at: now, ..*self }
    }

    proof fn lemma_buried(&self, now: Seq<char>) {
    }
}

/// A topic as it is stored and exchanged. It belongs to the assistant named
/// by `assistant_id` and owns messages.
#[derive(Debug, PartialEq, Eq)]
pub struct SyncTopic {
    pub id: String,
    pub assistant_id: String,
    pub name: String,
    pub summary: Option<String>,
    pub updated_at: String,
    pub is_deleted: bool,
}

impl View for SyncTopic {
    type V = TopicRow;

    open spec fn view(&self) -> TopicRow {
        TopicRow {
            id: self.id@,
            assistant_id: self.assistant_id@,
            name: self.name@,
            summary: text_of(self.summary),
            updated_at: self.updated_at@,
            is_deleted: self.is_deleted,
        }
    }
}

impl Record for SyncTopic {
    fn id(&self) -> (r: &String) {
        &self.id
    }

    fn updated_at(&self) -> (r: &String) {
        &self.updated_at
    }

    fn owner_id(&self) -> (r: Option<&String>) {
        Some(&self.assistant_id)
    }

    fn duplicate(&self) -> (r: Self) {
        SyncTopic {
            id: self.id.clone(),
            assistant_id: self.assistant_id.clone(),
            name: self.name.clone(),
            summary: copy_text(&self.summary),
            updated_at: self.updated_at.clone(),
            is_deleted: self.is_deleted,
        }
    }

    fn bury(&self, now: &str) -> (r: Self) {
        SyncTopic {
            id: self.id.clone(),
            assistant_id: self.assistant_id.clone(),
            name: self.name.clone(),
            summary: copy_text(&self.summary),
            updated_at: String::from_str(now),
            is_deleted: true,
        }
    }
}

impl Clone for SyncTopic {
    fn clone(&self) -> (r: Self)
        ensures
            r@ == self@,
    {
        self.duplicate()
    }
}

/// The view of a `SyncMessage`.
pub struct MessageRow {
    pub id: Seq<char>,
    pub topic_id: Seq<char>,
    pub role: Seq<char>,
    pub content: Seq<char>,
    pub model_id: Option<Seq<char>>,
    pub display_files: Option<Seq<char>>,
    pub display_text: Option<Seq<char>>,
    pub timestamp: Seq<char>,
    pub updated_at: Seq<char>,
    pub is_deleted: bool,
}

impl Keyed for MessageRow {
    open spec fn key(&self) -> Seq<char> {
        self.id
    }

    open spec fn stamp(&self) -> Seq<char> {
        self.updated_at
    }

    open spec fn owner(&self) -> Option<Seq<char>> {
        Some(self.topic_id)
    }

    open spec fn buried(&self, now: Seq<char>) -> MessageRow {
        MessageRow { is_deleted: true, updated_at: now, ..*self }
    }

    proof fn lemma_buried(&self, now: Seq<char>) {
    }
}

/// A message as it is stored and exchanged. It belongs to the topic named by
/// `topic_id`. `content` and `display_files` hold structured values as
/// serialised text; `timestamp` is the time of creation.
#[derive(Debug, PartialEq, Eq)]
pub struct SyncMessage {
    pub id: String,
    pub topic_id: String,
    pub role: String,
    pub content: String,
    pub model_id: Option<String>,
    pub display_files: Option<String>,
    pub display_text: Option<String>,
    pub timestamp: String,
    pub updated_at: String,
    pub is_deleted: bool,
}

impl View for SyncMessage {
    type V = MessageRow;

    open spec fn view(&self) -> MessageRow {
        MessageRow {
            id: self.id@,
            topic_id: self.topic_id@,
            role: self.role@,
            content: self.content@,
            model_id: text_of(self.model_id),
            display_files: text_of(self.display_files),
            display_text: text_of(self.display_text),
            timestamp: self.timestamp@,
            updated_at: self.updated_at@,
            is_deleted: self.is_deleted,
        }
    }
}

impl Record for SyncMessage {
    fn id(&self) -> (r: &String) {
        &self.id
    }

    fn updated_at(&self) -> (r: &String) {
        &self.updated_at
    }

    fn owner_id(&self) -> (r: Option<&String>) {
        Some(&self.topic_id)
    }

    fn duplicate(&self) -> (r: Self) {
        SyncMessage {
            id: self.id.clone(),
            topic_id: self.topic_id.clone(),
            role: self.role.clone(),
            content: self.content.clone(),
            model_id: copy_text(&self.model_id),
            display_files: copy_text(&self.display_files),
            display_text: copy_text(&self.display_text),
            timestamp: self.timestamp.clone(),
            updated_at: self.updated_at.clone(),
            is_deleted: self.is_deleted,
        }
    }

    fn bury(&self, now: &str) -> (r: Self) {
        SyncMessage {
            id: self.id.clone(),
            topic_id: self.topic_id.clone(),
            role: self.role.clone(),
            content: self.content.clone(),
            model_id: copy_text(&self.model_id),
            display_files: copy_text(&self.display_files),
            display_text: copy_text(&self.display_text),
            timestamp: self.timestamp.clone(),
            updated_at: String::from_str(now),
            is_deleted: true,
        }
    }
}

impl Clone for SyncMessage {
    fn clone(&self) -> (r: Self)
        ensures
            r@ == self@,
    {
        self.duplicate()
    }
}

/// A copy of a list of rows.
pub fn copy_rows<T: Record>(items: &Vec<T>) -> (r: Vec<T>) where T::V: Keyed
    ensures
        rows(r@) == rows(items@),
{
    let mut out: Vec<T> = Vec::new();
    let mut i: usize = 0;
    while i < items.len()
        invariant
            i <= items.len(),
            rows(out@) == rows(items@.take(i as int)),
        decreases items.len() - i,
    {
        let ghost before = out@;
        let item = items[i].duplicate();
        out.push(item);
        proof {
            assert(items@.take(i + 1) == items@.take(i as int).push(items@[i as int]));
            lemma_rows_push(before, item);
            lemma_rows_push(items@.take(i as int), items@[i as int]);
        }
        i += 1;
    }
    proof {
        assert(items@.take(items.len() as int) == items@);
    }
    out
}

/// The view of a `SyncBundle`.
pub struct BundleView {
    pub assistants: Seq<AssistantRow>,
    pub topics: Seq<TopicRow>,
    pub messages: Seq<MessageRow>,
    pub last_sync_time: Seq<char>,
}

/// The envelope of changed rows, with the watermark they were collected
/// against.
#[derive(Debug, PartialEq, Eq)]
pub struct SyncBundle {
    pub assistants: Vec<SyncAssistant>,
    pub topics: Vec<SyncTopic>,
    pub messages: Vec<SyncMessage>,
    pub last_sync_time: String,
}

impl View for SyncBundle {
    type V = BundleView;

    open spec fn view(&self) -> BundleView {
        BundleView {
            assistants: rows(self.assistants@),
            topics: rows(self.topics@),
            messages: rows(self.messages@),
            last_sync_time: self.last_sync_time@,
        }
    }
}

impl Clone for SyncBundle {
    fn clone(&self) -> (r: Self)
        ensures
            r@ == self@,
    {
        SyncBundle {
            assistants: copy_rows(&self.assistants),
            topics: copy_rows(&self.topics),
            messages: copy_rows(&self.messages),
            last_sync_time: self.last_sync_time.clone(),
        }
    }
}

} // verus!
