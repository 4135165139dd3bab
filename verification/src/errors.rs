//! Why a synchronisation cycle failed, and how it ended when it did not.

use vstd::prelude::*;
use vstd::string::*;

verus! {

/// The view of a `NetworkFault`.
pub enum NetworkFaultView {
    Unreachable(Seq<char>),
    Status { code: u16, body: Seq<char> },
}

/// A failure of the exchange with the remote service.
#[derive(Debug, PartialEq, Eq)]
pub enum NetworkFault {
    /// No response came: the connection failed or the request timed out.
    /// Carries the transport's description.
    Unreachable(String),
    /// A response came with a status outside 200 to 299. Carries the status
    /// and the text of the body.
    Status { code: u16, body: String },
}

impl View for NetworkFault {
    type V = NetworkFaultView;

    open spec fn view(&self) -> NetworkFaultView {
        match self {
            NetworkFault::Unreachable(d) => NetworkFaultView::Unreachable(d@),
            NetworkFault::Status { code, body } => NetworkFaultView::Status {
                code: *code,
                body: body@,
            },
        }
    }
}

/// The view of a `StoreFault`.
pub enum StoreFaultView {
    OrphanTopic { topic: Seq<char>, assistant: Seq<char> },
    OrphanMessage { message: Seq<char>, topic: Seq<char> },
    Backend(Seq<char>),
}

/// A failure of the local store.
#[derive(Debug, PartialEq, Eq)]
pub enum StoreFault {
    /// The topic `topic` was to be written while no assistant `assistant`
    /// is in the store.
    OrphanTopic { topic: String, assistant: String },
    /// The message `message` was to be written while no topic `topic` is in
    /// the store.
    OrphanMessage { message: String, topic: String },
    /// The store itself reported a failure. Carries its description.
    Backend(String),
}

impl View for StoreFault {
    type V = StoreFaultView;

    open spec fn view(&self) -> StoreFaultView {
        match self {
            StoreFault::OrphanTopic { topic, assistant } => StoreFaultView::OrphanTopic {
                topic: topic@,
                assistant: assistant@,
            },
            StoreFault::OrphanMessage { message, topic } => StoreFaultView::OrphanMessage {
                message: message@,
                topic: topic@,
            },
            StoreFault::Backend(d) => StoreFaultView::Backend(d@),
        }
    }
}

/// The view of a `SyncError`.
pub enum SyncErrorView {
    NetworkError(NetworkFaultView),
    StoreError(StoreFaultView),
    SerializationError(Seq<char>),
    OutOfTurn,
    AlreadyRunning,
}

/// The one error that a failed cycle surfaces.
#[derive(Debug, PartialEq, Eq)]
pub enum SyncError {
    /// The exchange failed.
    NetworkError(NetworkFault),
    /// The local store failed, or refused a row.
    StoreError(StoreFault),
    /// The remote bundle could not be read. Carries the parser's description.
    SerializationError(String),
    /// The cycle was handed an event that its phase does not await.
    OutOfTurn,
    /// Another cycle is under way on the same store.
    AlreadyRunning,
}

impl View for SyncError {
    type V = SyncErrorView;

    open spec fn view(&self) -> SyncErrorView {
        match self {
            SyncError::NetworkError(f) => SyncErrorView::NetworkError(f@),
            SyncError::StoreError(f) => SyncErrorView::StoreError(f@),
            SyncError::SerializationError(d) => SyncErrorView::SerializationError(d@),
            SyncError::OutOfTurn => SyncErrorView::OutOfTurn,
            SyncError::AlreadyRunning => SyncErrorView::AlreadyRunning,
        }
    }
}

/// The text by which a network failure is reported.
pub open spec fn network_message(f: NetworkFaultView) -> Seq<char> {
    match f {
        NetworkFaultView::Unreachable(d) => "Network error: "@ + d,
        NetworkFaultView::Status { code, body } => body,
    }
}

/// The text by which a failure of the store is reported.
pub open spec fn store_message(f: StoreFaultView) -> Seq<char> {
    match f {
        StoreFaultView::OrphanTopic { topic, assistant } => "topic "@ + topic
            + " names an assistant that is not stored: "@ + assistant,
        StoreFaultView::OrphanMessage { message, topic } => "message "@ + message
            + " names a topic that is not stored: "@ + topic,
        StoreFaultView::Backend(d) => d,
    }
}

/// The text by which an error is reported.
pub open spec fn error_message(e: SyncErrorView) -> Seq<char> {
    match e {
        SyncErrorView::NetworkError(f) => network_message(f),
        SyncErrorView::StoreError(f) => store_message(f),
        SyncErrorView::SerializationError(d) => d,
        SyncErrorView::OutOfTurn => "synchronisation steps out of turn"@,
        SyncErrorView::AlreadyRunning => "a synchronisation is already running"@,
    }
}

impl NetworkFault {
    /// The text by which this failure is reported: the body of a response
    /// that was not a success, or the transport's description behind
    /// `Network error: `.
    pub fn message(&self) -> (r: String)
        ensures
            r@ == network_message(self@),
    {
        match self {
            NetworkFault::Unreachable(d) => {
                let mut out = String::from_str("Network error: ");
                out.append(d.as_str());
                out
            },
            NetworkFault::Status { code: _, body } => body.clone(),
        }
    }
}

impl StoreFault {
    /// The text by which this failure is reported.
    pub fn message(&self) -> (r: String)
        ensures
            r@ == store_message(self@),
    {
        match self {
            StoreFault::OrphanTopic { topic, assistant } => {
                let mut out = String::from_str("topic ");
                out.append(topic.as_str());
                out.append(" names an assistant that is not stored: ");
                out.append(assistant.as_str());
                out
            },
            StoreFault::OrphanMessage { message, topic } => {
                let mut out = String::from_str("message ");
                out.append(message.as_str());
                out.append(" names a topic that is not stored: ");
                out.append(topic.as_str());
                out
            },
            StoreFault::Backend(d) => d.clone(),
        }
    }
}

impl SyncError {
    /// The single text that the caller of a failed cycle is shown.
    pub fn message(&self) -> (r: String)
        ensures
            r@ == error_message(self@),
    {
        match self {
            SyncError::NetworkError(f) => f.message(),
            SyncError::StoreError(f) => f.message(),
            SyncError::SerializationError(d) => d.clone(),
            SyncError::OutOfTurn => String::from_str("synchronisation steps out of turn"),
            SyncError::AlreadyRunning => String::from_str("a synchronisation is already running"),
        }
    }
}

/// How a cycle that did not fail ended.
#[derive(Clone, Copy, Debug, PartialEq, Eq, Structural)]
pub enum SyncStatus {
    /// Local changes were sent; nothing was asked of the remote side.
    PushCompleted,
    /// Local changes were sent and the remote changes applied.
    SyncCompleted,
}

/// The text by which a status is reported.
pub open spec fn status_message(s: SyncStatus) -> Seq<char> {
    match s {
        SyncStatus::PushCompleted => "Push completed"@,
        SyncStatus::SyncCompleted => "Sync successful"@,
    }
}

impl SyncStatus {
    /// `Push completed` or `Sync successful`.
    pub fn message(&self) -> (r: String)
        ensures
            r@ == status_message(*self),
    {
        match self {
            SyncStatus::PushCompleted => String::from_str("Push completed"),
            SyncStatus::SyncCompleted => String::from_str("Sync successful"),
        }
    }
}

} // verus!
