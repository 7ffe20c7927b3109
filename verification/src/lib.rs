//! Client-side framing, command serialisation and dispatch for a
//! line-oriented, tag-correlated mail access protocol.

pub mod buffer;
pub mod builder;
pub mod client;
pub mod commands;
pub mod connector;
pub mod engine;
pub mod error;
pub mod format;
pub mod messages;
pub mod parser;
pub mod scan;
pub mod tag;
pub mod tls;
pub mod types;
