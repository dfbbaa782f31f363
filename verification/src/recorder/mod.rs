//! Order recording: events, their framing, their rows, and batching.

pub mod convert;
pub mod events;
pub mod hook;
pub mod service;
pub mod writer;
