//! Feed of a running connector: which events are taken, and what is written of them.

use vstd::prelude::*;

use crate::text;
use crate::text::LevelText;
use crate::types::{BUY_EVENT, DEPTH_EVENT, DEPTH_SNAPSHOT_EVENT, TRADE_EVENT};

verus! {

/// Best bid or offer changed.
pub const DEPTH_BBO_EVENT: u64 = 5;

/// Identifier of the collector among the connector's clients.
pub const COLLECTOR_ID: u64 = 0xC011EC70;

/// Identifier of messages to all clients.
pub const BROADCAST_ID: u64 = 0;

/// Tells whether a message with this identifier is for the collector.
pub fn is_for_collector(id: u64) -> (r: bool)
    ensures
        r == (id == BROADCAST_ID || id == COLLECTOR_ID),
{
    id == BROADCAST_ID || id == COLLECTOR_ID
}

/// A feed event with price and quantity as text.
#[derive(Debug)]
pub struct FeedEvent {
    pub ev: u64,
    pub exch_ts: i64,
    pub px: String,
    pub qty: String,
}

/// What a feed event says.
pub struct FeedModel {
    pub ev: u64,
    pub exch_ts: i64,
    pub px: Seq<char>,
    pub qty: Seq<char>,
}

impl View for FeedEvent {
    type V = FeedModel;

    open spec fn view(&self) -> FeedModel {
        FeedModel { ev: self.ev, exch_ts: self.exch_ts, px: self.px@, qty: self.qty@ }
    }
}

/// A record that is written of a feed event.
#[derive(Debug)]
pub enum FeedRecord {
    Depth {
        /// `depthUpdate` or `depthSnapshot`.
        event: String,
        event_time: i64,
        symbol: String,
        bids: Vec<(String, String)>,
        asks: Vec<(String, String)>,
    },
    Trade {
        event_time: i64,
        symbol: String,
        price: String,
        qty: String,
        is_buyer_maker: bool,
    },
    BookTicker {
        event_time: i64,
        symbol: String,
        bid_price: String,
        bid_qty: String,
        ask_price: String,
        ask_qty: String,
    },
}

/// What a record says.
pub enum RecordModel {
    Depth {
        event: Seq<char>,
        event_time: int,
        symbol: Seq<char>,
        bids: Seq<LevelText>,
        asks: Seq<LevelText>,
    },
    Trade {
        event_time: int,
        symbol: Seq<char>,
        price: Seq<char>,
        qty: Seq<char>,
        is_buyer_maker: bool,
    },
    BookTicker {
        event_time: int,
        symbol: Seq<char>,
        bid_price: Seq<char>,
        bid_qty: Seq<char>,
        ask_price: Seq<char>,
        ask_qty: Seq<char>,
    },
}

impl View for FeedRecord {
    type V = RecordModel;

    open spec fn view(&self) -> RecordModel {
        match *self {
            FeedRecord::Depth { event, event_time, symbol, bids, asks } => RecordModel::Depth {
                event: event@,
                event_time: event_time as int,
                symbol: symbol@,
                bids: text::levels_view(bids@),
                asks: text::levels_view(asks@),
            },
            FeedRecord::Trade { event_time, symbol, price, qty, is_buyer_maker } => {
                RecordModel::Trade {
                    event_time: event_time as int,
                    symbol: symbol@,
                    price: price@,
                    qty: qty@,
                    is_buyer_maker,
                }
            },
            FeedRecord::BookTicker {
                event_time,
                symbol,
                bid_price,
                bid_qty,
                ask_price,
                ask_qty,
            } => RecordModel::BookTicker {
                event_time: event_time as int,
                symbol: symbol@,
                bid_price: bid_price@,
                bid_qty: bid_qty@,
                ask_price: ask_price@,
                ask_qty: ask_qty@,
            },
        }
    }
}

/// Nanoseconds in whole milliseconds, towards zero.
pub open spec fn whole_millis(nanos: i64) -> int {
    if nanos >= 0 {
        nanos as int / 1_000_000
    } else {
        -((-nanos) / 1_000_000)
    }
}

fn to_millis(nanos: i64) -> (r: i64)
    ensures
        r == whole_millis(nanos),
{
    if nanos >= 0 {
        nanos / 1_000_000
    } else {
        let positive: i128 = -(nanos as i128);
        (-(positive / 1_000_000)) as i64
    }
}

/// The record of a feed event: depth changes and snapshot entries on one side
/// of the book, trades, and best bid or offer changes with `0` on the other
/// side. Nothing is written of other events.
pub open spec fn record_of(symbol: Seq<char>, e: FeedModel) -> Option<RecordModel> {
    let kind = e.ev & 0xFF;
    let is_buy = e.ev & BUY_EVENT != 0;
    let name = text::in_upper_case(symbol);
    let event_time = whole_millis(e.exch_ts);
    if kind == DEPTH_EVENT || kind == DEPTH_SNAPSHOT_EVENT {
        Some(
            RecordModel::Depth {
                event: if kind == DEPTH_SNAPSHOT_EVENT {
                    "depthSnapshot"@
                } else {
                    "depthUpdate"@
                },
                event_time,
                symbol: name,
                bids: if is_buy {
                    seq![(e.px, e.qty)]
                } else {
                    Seq::empty()
                },
                asks: if is_buy {
                    Seq::empty()
                } else {
                    seq![(e.px, e.qty)]
                },
            },
        )
    } else if kind == TRADE_EVENT {
        Some(
            RecordModel::Trade {
                event_time,
                symbol: name,
                price: e.px,
                qty: e.qty,
                is_buyer_maker: !is_buy,
            },
        )
    } else if kind == DEPTH_BBO_EVENT {
        Some(
            RecordModel::BookTicker {
                event_time,
                symbol: name,
                bid_price: if is_buy {
                    e.px
                } else {
                    "0"@
                },
                bid_qty: if is_buy {
                    e.qty
                } else {
                    "0"@
                },
                ask_price: if is_buy {
                    "0"@
                } else {
                    e.px
                },
                ask_qty: if is_buy {
                    "0"@
                } else {
                    e.qty
                },
            },
        )
    } else {
        None
    }
}

/// Makes the record of a feed event, and the name of the file that it goes to.
pub fn handle_feed_event(symbol: &str, event: &FeedEvent) -> (r: Option<(String, FeedRecord)>)
    ensures
        match r {
            Some((file, record)) => record_of(symbol@, event@) == Some(record@) && file@
                == text::in_lower_case(symbol@),
            None => record_of(symbol@, event@) is None,
        },
{
    let event_time: i64 = to_millis(event.exch_ts);
    let ev_type: u64 = event.ev & 0xFF;
    let is_buy: bool = (event.ev & BUY_EVENT) != 0;
    let record = if ev_type == DEPTH_EVENT || ev_type == DEPTH_SNAPSHOT_EVENT {
        let mut bids: Vec<(String, String)> = Vec::new();
        let mut asks: Vec<(String, String)> = Vec::new();
        if is_buy {
            bids.push((event.px.clone(), event.qty.clone()));
        } else {
            asks.push((event.px.clone(), event.qty.clone()));
        }
        proof {
            assert(text::levels_view(bids@) =~= (if is_buy {
                seq![(event.px@, event.qty@)]
            } else {
                Seq::empty()
            }));
            assert(text::levels_view(asks@) =~= (if is_buy {
                Seq::empty()
            } else {
                seq![(event.px@, event.qty@)]
            }));
        }
        FeedRecord::Depth {
            event: if ev_type == DEPTH_SNAPSHOT_EVENT {
                "depthSnapshot".to_string()
            } else {
                "depthUpdate".to_string()
            },
            event_time,
            symbol: text::to_upper(symbol),
            bids,
            asks,
        }
    } else if ev_type == TRADE_EVENT {
        FeedRecord::Trade {
            event_time,
            symbol: text::to_upper(symbol),
            price: event.px.clone(),
            qty: event.qty.clone(),
            is_buyer_maker: !is_buy,
        }
    } else if ev_type == DEPTH_BBO_EVENT {
        FeedRecord::BookTicker {
            event_time,
            symbol: text::to_upper(symbol),
            bid_price: if is_buy {
                event.px.clone()
            } else {
                "0".to_string()
            },
            bid_qty: if is_buy {
                event.qty.clone()
            } else {
                "0".to_string()
            },
            ask_price: if !is_buy {
                event.px.clone()
            } else {
                "0".to_string()
            },
            ask_qty: if !is_buy {
                event.qty.clone()
            } else {
                "0".to_string()
            },
        }
    } else {
        return None;
    };
    Some((text::to_lower(symbol), record))
}

/// What the connector sends.
#[derive(Debug)]
pub enum Incoming {
    Feed { symbol: String, event: FeedEvent },
    BatchStart,
    BatchEnd,
    Order,
    Position,
    Error,
}

/// Counts feed events and makes records of them.
pub struct IpcCollector {
    event_count: u64,
}

impl IpcCollector {
    /// How many feed events have been handled.
    pub closed spec fn event_count(&self) -> u64 {
        self.event_count
    }

    pub fn new() -> (r: Self)
        ensures
            r.event_count() == 0,
    {
        IpcCollector { event_count: 0 }
    }

    /// How many feed events have been handled.
    pub fn count(&self) -> (r: u64)
        ensures
            r == self.event_count(),
    {
        self.event_count
    }

    /// Handles an event: only feed events are counted and recorded. The
    /// second answer tells whether the count is to be reported, which is
    /// every thousand feed events.
    pub fn handle_event(&mut self, event: &Incoming) -> (r: (Option<(String, FeedRecord)>, bool))
        requires
            event is Feed ==> old(self).event_count() < u64::MAX,
        ensures
            match *event {
                Incoming::Feed { symbol, event: feed } => {
                    &&& final(self).event_count() == old(self).event_count() + 1
                    &&& r.1 == (final(self).event_count() % 1000 == 0)
                    &&& match r.0 {
                        Some((file, record)) => record_of(symbol@, feed@) == Some(record@)
                            && file@ == text::in_lower_case(symbol@),
                        None => record_of(symbol@, feed@) is None,
                    }
                },
                _ => {
                    &&& final(self).event_count() == old(self).event_count()
                    &&& r.0 is None
                    &&& !r.1
                },
            },
    {
        match event {
            Incoming::Feed { symbol, event } => {
                let record = handle_feed_event(symbol.as_str(), event);
                self.event_count = self.event_count + 1;
                (record, self.event_count % 1000 == 0)
            },
            _ => (None, false),
        }
    }
}

} // verus!
