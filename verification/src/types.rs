//! Events and their flags.

use vstd::prelude::*;

verus! {

/// Market depth changed.
pub const DEPTH_EVENT: u64 = 1;

/// A trade took place.
pub const TRADE_EVENT: u64 = 2;

/// Market depth is cleared.
pub const DEPTH_CLEAR_EVENT: u64 = 3;

/// Market depth snapshot entry.
pub const DEPTH_SNAPSHOT_EVENT: u64 = 4;

/// The event is valid at the exchange timestamp.
pub const EXCH_EVENT: u64 = 0x8000_0000;

/// The event is valid at the local timestamp.
pub const LOCAL_EVENT: u64 = 0x4000_0000;

/// Bid side for depth, buyer initiated for trades.
pub const BUY_EVENT: u64 = 0x2000_0000;

/// Ask side for depth, seller initiated for trades.
pub const SELL_EVENT: u64 = 0x1000_0000;

/// Market depth is cleared at the local timestamp.
pub const LOCAL_DEPTH_CLEAR_EVENT: u64 = 0x4000_0003;

/// Bid depth change at the local timestamp.
pub const LOCAL_BID_DEPTH_EVENT: u64 = 0x6000_0001;

/// Ask depth change at the local timestamp.
pub const LOCAL_ASK_DEPTH_EVENT: u64 = 0x5000_0001;

/// Buyer initiated trade at the local timestamp.
pub const LOCAL_BUY_TRADE_EVENT: u64 = 0x6000_0002;

/// Seller initiated trade at the local timestamp.
pub const LOCAL_SELL_TRADE_EVENT: u64 = 0x5000_0002;

/// A market data event. `F` is the type of prices and quantities.
#[derive(Debug)]
pub struct Event<F> {
    /// Kind and flags.
    pub ev: u64,
    /// Exchange timestamp in nanoseconds.
    pub exch_ts: i64,
    /// Local timestamp in nanoseconds.
    pub local_ts: i64,
    pub px: F,
    pub qty: F,
    pub order_id: u64,
    pub ival: i64,
    pub fval: F,
}

impl<F: Copy> Copy for Event<F> {

}

impl<F: Copy> Clone for Event<F> {
    fn clone(&self) -> (r: Self)
        ensures
            r == *self,
    {
        *self
    }
}

/// The event is valid at the exchange.
pub open spec fn is_exch<F>(e: Event<F>) -> bool {
    e.ev & EXCH_EVENT == EXCH_EVENT
}

/// The event is valid locally.
pub open spec fn is_local<F>(e: Event<F>) -> bool {
    e.ev & LOCAL_EVENT == LOCAL_EVENT
}

/// The combined flags are made of the plain ones.
pub proof fn law_local_flags()
    ensures
        LOCAL_DEPTH_CLEAR_EVENT == DEPTH_CLEAR_EVENT | LOCAL_EVENT,
        LOCAL_BID_DEPTH_EVENT == DEPTH_EVENT | BUY_EVENT | LOCAL_EVENT,
        LOCAL_ASK_DEPTH_EVENT == DEPTH_EVENT | SELL_EVENT | LOCAL_EVENT,
        LOCAL_BUY_TRADE_EVENT == TRADE_EVENT | BUY_EVENT | LOCAL_EVENT,
        LOCAL_SELL_TRADE_EVENT == TRADE_EVENT | SELL_EVENT | LOCAL_EVENT,
{
    assert(LOCAL_DEPTH_CLEAR_EVENT == DEPTH_CLEAR_EVENT | LOCAL_EVENT) by (bit_vector);
    assert(LOCAL_BID_DEPTH_EVENT == DEPTH_EVENT | BUY_EVENT | LOCAL_EVENT) by (bit_vector);
    assert(LOCAL_ASK_DEPTH_EVENT == DEPTH_EVENT | SELL_EVENT | LOCAL_EVENT) by (bit_vector);
    assert(LOCAL_BUY_TRADE_EVENT == TRADE_EVENT | BUY_EVENT | LOCAL_EVENT) by (bit_vector);
    assert(LOCAL_SELL_TRADE_EVENT == TRADE_EVENT | SELL_EVENT | LOCAL_EVENT) by (bit_vector);
}

/// The kinds of events are told apart by their lowest bits, and each flag is a
/// bit of its own above them.
pub proof fn law_kinds_and_flags()
    ensures
        DEPTH_EVENT == 1,
        TRADE_EVENT == 2,
        DEPTH_CLEAR_EVENT == 3,
        DEPTH_SNAPSHOT_EVENT == 4,
        SELL_EVENT == 8 * 0x0200_0000,
        BUY_EVENT == 2 * SELL_EVENT,
        LOCAL_EVENT == 2 * BUY_EVENT,
        EXCH_EVENT == 2 * LOCAL_EVENT,
{
}

/// An event is valid at the exchange, or locally, where its flag is set.
pub proof fn law_flags_tell_where_an_event_is_valid<F>(e: Event<F>)
    ensures
        is_exch(e) == (e.ev & 0x8000_0000 != 0),
        is_local(e) == (e.ev & 0x4000_0000 != 0),
{
    let ev = e.ev;
    assert((ev & 0x8000_0000 == 0x8000_0000) == (ev & 0x8000_0000 != 0)) by (bit_vector);
    assert((ev & 0x4000_0000 == 0x4000_0000) == (ev & 0x4000_0000 != 0)) by (bit_vector);
}

} // verus!
