//! Backend core of a desktop chat client.
//!
//! The heart of the crate is the synchronisation engine between the
//! on-device store of assistants, topics and messages and a remote service:
//! a watermark tells what has been synchronised, the rows modified since
//! are collected and sent, the rows that come back are applied in one
//! transaction, and the watermark advances. `store` holds the store and its
//! rules, `sync` the collector, the applier and a whole cycle, `cycle` the
//! orchestrator that tells a caller what to do next, and `laws` what holds
//! of them together.
//!
//! Around it stand the everyday changes to the store (`chats`) and what the
//! client computes when it talks to a chat completion service (`llm`),
//! reads files (`files`), keeps the user's avatar (`avatar`) and starts a
//! local inference server (`server`).
//!
//! Nothing here reads a file, opens a connection or asks the time: the
//! caller does, and hands over what it got.

pub mod avatar;
pub mod chats;
pub mod cycle;
pub mod errors;
pub mod exchange;
pub mod files;
pub mod laws;
pub mod llm;
pub mod models;
pub mod order;
pub mod records;
pub mod server;
pub mod stamp;
pub mod store;
pub mod sync;
pub mod table;
pub mod text;
