//! The data that commands carry and responses hold.

pub mod command;
pub mod common;
pub mod response;
