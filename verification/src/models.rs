//! The values that the client keeps and shows: model settings, the
//! application's configuration, and assistants with their topics and
//! messages as the interface presents them.

use vstd::prelude::*;

verus! {

/// A model that the user has switched on.
#[derive(Debug, PartialEq, Eq)]
pub struct ActivatedModel {
    /// Address of the model's API.
    pub api_url: String,
    /// Key that grants access to the API.
    pub api_key: String,
    /// Name of the model at its provider.
    pub model_id: String,
    /// Provider of the model.
    pub owned_by: String,
    /// Where a model that runs on this machine lies on disk.
    pub local_path: Option<String>,
}

/// One piece of a streamed answer, as it is handed to the interface.
#[derive(Debug, PartialEq, Eq)]
pub struct StreamPayload {
    pub assistant_id: String,
    pub topic_id: String,
    /// The text of this piece.
    pub content: String,
    /// Whether the stream has ended with this piece.
    pub done: bool,
}

/// What is kept of a file attached to a message.
#[derive(Debug, PartialEq, Eq)]
pub struct FileMeta {
    pub name: String,
}

/// A message of a conversation. `content` holds its structured value as
/// serialised text.
#[derive(Debug, PartialEq, Eq)]
pub struct Message {
    pub id: String,
    /// `user`, `assistant` or `system`.
    pub role: String,
    pub content: String,
    /// The model that wrote the message, where a model did.
    pub model_id: Option<String>,
    /// Attachments, for display only.
    pub display_files: Option<Vec<FileMeta>>,
    /// Text shown in place of the content, where there is one.
    pub display_text: Option<String>,
    pub updated_at: String,
}

/// A conversation of an assistant, with its messages in order.
#[derive(Debug, PartialEq, Eq)]
pub struct Topic {
    pub id: String,
    pub name: String,
    pub history: Vec<Message>,
    pub summary: Option<String>,
    pub updated_at: String,
    pub is_deleted: bool,
}

/// An assistant: a system prompt under a name, with its conversations.
#[derive(Debug, PartialEq, Eq)]
pub struct Assistant {
    pub id: String,
    pub name: String,
    pub prompt: String,
    pub topics: Vec<Topic>,
}

/// A model that a provider offers.
#[derive(Debug, PartialEq, Eq)]
pub struct ModelInfo {
    pub id: String,
    pub owned_by: Option<String>,
}

/// A provider's answer to the question which models it offers.
#[derive(Debug, PartialEq, Eq)]
pub struct ModelsResponse {
    pub data: Vec<ModelInfo>,
}

/// The application's settings.
#[derive(Debug, PartialEq, Eq)]
pub struct AppConfig {
    pub api_url: String,
    pub api_key: String,
    pub default_model: String,
    pub local_model_path: String,
}

impl Default for AppConfig {
    /// The settings of an installation that has none yet: every field empty.
    fn default() -> (r: AppConfig)
        ensures
            r.api_url@ == Seq::<char>::empty(),
            r.api_key@ == Seq::<char>::empty(),
            r.default_model@ == Seq::<char>::empty(),
            r.local_model_path@ == Seq::<char>::empty(),
    {
        AppConfig {
            api_url: String::new(),
            api_key: String::new(),
            default_model: String::new(),
            local_model_path: String::new(),
        }
    }
}

/// What the remote service answers to a login or to a token it accepts.
#[derive(Debug, PartialEq, Eq)]
pub struct LoginResponse {
    pub id: Option<String>,
    pub username: String,
    pub nickname: Option<String>,
    pub avatar: Option<String>,
    /// The bearer credential for later requests.
    pub token: String,
}

} // verus!
