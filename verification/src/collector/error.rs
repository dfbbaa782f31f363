//! Errors of the collector.

use vstd::prelude::*;

verus! {

/// Errors of the collector.
#[derive(Debug)]
pub enum ConnectorError {
    /// A message is not valid JSON.
    SerdeError(serde_json::Error),
    /// A message lacks a field or has it in another form.
    FormatError,
    ConnectionAbort,
    IpcError(String),
    ChannelError(String),
}

} // verus!
