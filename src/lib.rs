//! A multi-tenant chat-bot server core: bot registration with a shared route
//! table, per-bot stop supervision, and a per-conversation dialogue state
//! machine that routes every inbound event to exactly one handler.
pub mod admin;
pub mod error;
pub mod imported;
pub mod reader;
pub mod server;
pub mod states;
pub mod text;
