//! Searching a chat channel's message history.
//!
//! The history is walked backward from a trigger message in bounded pages,
//! handed out oldest first, and filtered by a predicate on each message's text.
pub mod message;
pub mod text;
pub mod matcher;
pub mod walker;
pub mod search;
pub mod command;
pub mod format;
