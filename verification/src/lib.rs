//! The logic of a Matrix client: what it asks a homeserver, what it makes of
//! the replies, and in which order it hands room events on.
//!
//! Nothing here touches the network. A request comes out as an
//! [`HttpCall`](request::HttpCall) that says what to send, and the status and
//! the bytes of the reply go back in. A sync reply becomes a
//! [`SyncRun`](sync::SyncRun), which the client takes step by step, and a sync
//! without end is a [`SyncLoop`](sync_loop::SyncLoop), which goes from event to
//! event.
pub mod async_client;
pub mod base_client;
pub mod config;
pub mod decimal;
pub mod error;
pub mod json;
pub mod laws;
pub mod outside;
pub mod plan_laws;
pub mod plan_order;
pub mod query;
pub mod request;
pub mod session;
pub mod settings;
pub mod state_laws;
pub mod sync;
pub mod sync_loop;
pub mod wire_laws;

pub use crate::async_client::AsyncClient;
pub use crate::config::{AsyncClientConfig, VERSION};
pub use crate::error::ClientError;
pub use crate::session::Session;
pub use crate::settings::SyncSettings;
