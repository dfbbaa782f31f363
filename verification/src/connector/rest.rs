//! Replies of the futures REST interface.

use vstd::prelude::*;

use crate::text::LevelText;

verus! {

/// A depth snapshot.
#[derive(Debug)]
pub struct Depth {
    pub last_update_id: i64,
    /// Time at which the exchange wrote the reply, in milliseconds.
    pub event_time: i64,
    /// Time of the transaction, in milliseconds.
    pub transaction_time: i64,
    pub bids: Vec<(String, String)>,
    pub asks: Vec<(String, String)>,
}

/// What a depth snapshot says.
pub struct SnapshotModel {
    pub last_update_id: i64,
    pub event_time: i64,
    pub transaction_time: i64,
    pub bids: Seq<LevelText>,
    pub asks: Seq<LevelText>,
}

impl View for Depth {
    type V = SnapshotModel;

    open spec fn view(&self) -> SnapshotModel {
        SnapshotModel {
            last_update_id: self.last_update_id,
            event_time: self.event_time,
            transaction_time: self.transaction_time,
            bids: crate::text::levels_view(self.bids@),
            asks: crate::text::levels_view(self.asks@),
        }
    }
}

} // verus!
