//! Verified core of a client that bridges a remote WebSocket service to a local Ollama instance.

pub mod config;
pub mod document;
pub mod handler;
pub mod ndjson;
pub mod ollama;
pub mod protocol;
pub mod reconnect;
pub mod relay;
pub mod session;
pub mod text;
pub mod urls;
