//! Makes recording events of orders.

use vstd::prelude::*;

use crate::recorder::events::{FillEvent, OrderStatus, OrderUpdate, Side};

verus! {

/// Side of an order of the trading engine.
#[derive(Clone, Copy, Debug, PartialEq, Eq, Structural)]
pub enum HftSide {
    Buy,
    Sell,
    /// No side.
    Unset,
    Unsupported,
}

/// Status of an order of the trading engine.
#[derive(Clone, Copy, Debug, PartialEq, Eq, Structural)]
pub enum HftStatus {
    /// No status.
    Unset,
    New,
    Expired,
    Filled,
    Canceled,
    PartiallyFilled,
    Rejected,
    Replaced,
    Unsupported,
}

/// Order of the trading engine. Prices are in ticks.
#[derive(Debug)]
pub struct Order<F> {
    pub order_id: u64,
    pub side: HftSide,
    pub status: HftStatus,
    pub price_tick: i64,
    pub exec_price_tick: i64,
    pub qty: F,
    pub leaves_qty: F,
    pub exec_qty: F,
    pub maker: bool,
    pub exch_timestamp: i64,
    pub local_timestamp: i64,
}

/// The recorded side of an order; buy where it has none.
pub open spec fn side_of(side: HftSide) -> Side {
    if side == HftSide::Sell {
        Side::Sell
    } else {
        Side::Buy
    }
}

/// Convert an order's side to the recorded side.
pub fn convert_side(side: HftSide) -> (r: Side)
    ensures
        r == side_of(side),
{
    match side {
        HftSide::Buy => Side::Buy,
        HftSide::Sell => Side::Sell,
        HftSide::Unset | HftSide::Unsupported => Side::Buy,
    }
}

/// The recorded status of an order; new where it has none of its own.
pub open spec fn status_of(status: HftStatus) -> OrderStatus {
    match status {
        HftStatus::PartiallyFilled => OrderStatus::PartiallyFilled,
        HftStatus::Filled => OrderStatus::Filled,
        HftStatus::Canceled => OrderStatus::Canceled,
        HftStatus::Rejected => OrderStatus::Rejected,
        HftStatus::Expired => OrderStatus::Expired,
        _ => OrderStatus::New,
    }
}

/// Convert an order's status to the recorded status.
pub fn convert_status(status: HftStatus) -> (r: OrderStatus)
    ensures
        r == status_of(status),
{
    match status {
        HftStatus::New => OrderStatus::New,
        HftStatus::PartiallyFilled => OrderStatus::PartiallyFilled,
        HftStatus::Filled => OrderStatus::Filled,
        HftStatus::Canceled => OrderStatus::Canceled,
        HftStatus::Rejected => OrderStatus::Rejected,
        HftStatus::Expired => OrderStatus::Expired,
        HftStatus::Unset | HftStatus::Replaced | HftStatus::Unsupported => OrderStatus::New,
    }
}

/// The latency of an order, 0 where a timestamp is missing.
pub open spec fn latency_of<F>(order: Order<F>) -> int {
    if order.exch_timestamp > 0 && order.local_timestamp > 0 {
        order.exch_timestamp - order.local_timestamp
    } else {
        0
    }
}

/// Helper to get the round-trip latency from an order: nanoseconds, or 0 if
/// timestamps are not available.
pub fn get_latency_ns<F>(order: &Order<F>) -> (r: i64)
    ensures
        r == latency_of(*order),
{
    if order.exch_timestamp > 0 && order.local_timestamp > 0 {
        order.exch_timestamp - order.local_timestamp
    } else {
        0
    }
}

/// Create an order update. `price` and `exec_price` are the order's prices,
/// made of its ticks.
pub fn create_order_update<F: Copy>(
    prev_order: &Order<F>,
    new_order: &Order<F>,
    strategy_id: &str,
    symbol: &str,
    timestamp: i64,
    price: F,
    exec_price: F,
) -> (r: OrderUpdate<F>)
    ensures
        r.timestamp == timestamp,
        r.strategy_id@ == strategy_id@,
        r.order_id == new_order.order_id,
        r.symbol@ == symbol@,
        r.side == side_of(new_order.side),
        r.price == price,
        r.qty == new_order.qty,
        r.status == status_of(new_order.status),
        r.prev_status == status_of(prev_order.status),
        r.leaves_qty == new_order.leaves_qty,
        r.exec_qty == new_order.exec_qty,
        r.exec_price == exec_price,
        r.exch_time == new_order.exch_timestamp,
        r.latency_ns == latency_of(*new_order),
{
    OrderUpdate {
        timestamp,
        strategy_id: strategy_id.to_string(),
        order_id: new_order.order_id,
        symbol: symbol.to_string(),
        side: convert_side(new_order.side),
        price,
        qty: new_order.qty,
        status: convert_status(new_order.status),
        prev_status: convert_status(prev_order.status),
        leaves_qty: new_order.leaves_qty,
        exec_qty: new_order.exec_qty,
        exec_price,
        exch_time: new_order.exch_timestamp,
        latency_ns: get_latency_ns(new_order),
    }
}

/// Create a fill event from order state change. `price` is the execution
/// price, `zero` the fee, which is not known at this point.
pub fn create_fill_event<F: Copy>(
    new_order: &Order<F>,
    fill_qty: F,
    strategy_id: &str,
    symbol: &str,
    timestamp: i64,
    mid_price: F,
    fill_id: u64,
    price: F,
    zero: F,
) -> (r: FillEvent<F>)
    ensures
        r.timestamp == timestamp,
        r.strategy_id@ == strategy_id@,
        r.fill_id == fill_id,
        r.order_id == new_order.order_id,
        r.symbol@ == symbol@,
        r.side == side_of(new_order.side),
        r.price == price,
        r.qty == fill_qty,
        r.fee == zero,
        r.is_maker == new_order.maker,
        r.exch_time == new_order.exch_timestamp,
        r.mid_price == mid_price,
{
    FillEvent {
        timestamp,
        strategy_id: strategy_id.to_string(),
        fill_id,
        order_id: new_order.order_id,
        symbol: symbol.to_string(),
        side: convert_side(new_order.side),
        price,
        qty: fill_qty,
        fee: zero,
        is_maker: new_order.maker,
        exch_time: new_order.exch_timestamp,
        mid_price,
    }
}

/// An order is recorded as a sell exactly where it sells, and under the status
/// of the same name; what has no status of its own is recorded as new.
pub proof fn law_recorded_side_and_status(side: HftSide, status: HftStatus)
    ensures
        side_of(side) == Side::Sell <==> side == HftSide::Sell,
        status_of(status) == OrderStatus::PartiallyFilled <==> status
            == HftStatus::PartiallyFilled,
        status_of(status) == OrderStatus::Filled <==> status == HftStatus::Filled,
        status_of(status) == OrderStatus::Canceled <==> status == HftStatus::Canceled,
        status_of(status) == OrderStatus::Rejected <==> status == HftStatus::Rejected,
        status_of(status) == OrderStatus::Expired <==> status == HftStatus::Expired,
        status_of(status) == OrderStatus::New <==> status == HftStatus::New || status
            == HftStatus::Unset || status == HftStatus::Replaced || status
            == HftStatus::Unsupported,
{
}

/// The latency is the time from the order's local timestamp to the exchange's,
/// where there are both.
pub proof fn law_latency_spans_the_timestamps<F>(order: Order<F>)
    ensures
        order.exch_timestamp > 0 && order.local_timestamp > 0 ==> order.local_timestamp
            + latency_of(order) == order.exch_timestamp,
        order.exch_timestamp <= 0 || order.local_timestamp <= 0 ==> latency_of(order) == 0,
{
}

} // verus!
