//! Core of a chat client bridge: a bounded, render-ready message history per
//! conversation, a rich-text renderer that walks service markup into styled
//! output, an event dispatcher that turns protocol events into store
//! mutations, and a time-windowed typing tracker.
pub mod cache;
pub mod config;
pub mod dispatch;
pub mod format;
pub mod message;
pub mod render;
pub mod store;
pub mod typing;
pub mod styled;
pub mod subs;
pub mod timefmt;
pub mod util;
