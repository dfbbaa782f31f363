//! Market data collector.

pub mod binance_um;
pub mod error;
pub mod file;
pub mod ipc;
pub mod message_laws;
pub mod run;
pub mod throttle;
