//! Order hook: which events are recorded of an order's change.

use vstd::prelude::*;

use crate::recorder::convert;
use crate::recorder::convert::Order;
use crate::recorder::events::{
    FillEvent, OrderUpdate, PositionSnapshot, StrategyState, StrategyStatus,
};

verus! {

/// Order hook context for recording order updates and fills.
pub struct OrderHookContext<F> {
    strategy_id: String,
    symbol: String,
    tick_size: F,
    next_fill_id: u64,
}

/// What floating point gives of an order's change: the order's price and
/// execution price, made of ticks, and the quantity filled, where one was.
#[derive(Debug)]
pub struct OrderNumbers<F> {
    pub price: F,
    pub exec_price: F,
    pub fill_qty: Option<F>,
    pub zero: F,
}

impl<F: Copy> OrderHookContext<F> {
    /// The strategy's identifier.
    pub closed spec fn strategy(&self) -> Seq<char> {
        self.strategy_id@
    }

    /// The symbol.
    pub closed spec fn symbol_text(&self) -> Seq<char> {
        self.symbol@
    }

    /// The tick size.
    pub closed spec fn tick(&self) -> F {
        self.tick_size
    }

    /// The identifier of the next fill.
    pub closed spec fn next_fill(&self) -> u64 {
        self.next_fill_id
    }

    pub fn new(strategy_id: String, symbol: String, tick_size: F) -> (r: Self)
        ensures
            r.strategy() == strategy_id@,
            r.symbol_text() == symbol@,
            r.tick() == tick_size,
            r.next_fill() == 1,
    {
        OrderHookContext { strategy_id, symbol, tick_size, next_fill_id: 1 }
    }

    /// Get the strategy ID.
    pub fn strategy_id(&self) -> (r: &str)
        ensures
            r@ == self.strategy(),
    {
        self.strategy_id.as_str()
    }

    /// Get the symbol.
    pub fn symbol(&self) -> (r: &str)
        ensures
            r@ == self.symbol_text(),
    {
        self.symbol.as_str()
    }

    /// Get the tick size.
    pub fn tick_size(&self) -> (r: F)
        ensures
            r == self.tick(),
    {
        self.tick_size
    }

    /// Handle an order's change: an update is always recorded, and a fill
    /// where a quantity was filled. Fills are numbered in turn; the execution
    /// price stands for the mid price.
    pub fn handle_order(
        &mut self,
        prev_order: &Order<F>,
        new_order: &Order<F>,
        timestamp: i64,
        numbers: &OrderNumbers<F>,
    ) -> (r: (OrderUpdate<F>, Option<FillEvent<F>>))
        ensures
            final(self).strategy() == old(self).strategy(),
            final(self).symbol_text() == old(self).symbol_text(),
            final(self).tick() == old(self).tick(),
            r.0.timestamp == timestamp,
            r.0.strategy_id@ == old(self).strategy(),
            r.0.symbol@ == old(self).symbol_text(),
            r.0.order_id == new_order.order_id,
            r.0.side == convert::side_of(new_order.side),
            r.0.price == numbers.price,
            r.0.qty == new_order.qty,
            r.0.status == convert::status_of(new_order.status),
            r.0.prev_status == convert::status_of(prev_order.status),
            r.0.leaves_qty == new_order.leaves_qty,
            r.0.exec_qty == new_order.exec_qty,
            r.0.exec_price == numbers.exec_price,
            r.0.exch_time == new_order.exch_timestamp,
            r.0.latency_ns == convert::latency_of(*new_order),
            r.1 is Some == numbers.fill_qty is Some,
            match r.1 {
                None => final(self).next_fill() == old(self).next_fill(),
                Some(fill) => {
                    &&& final(self).next_fill() == (if old(self).next_fill() == u64::MAX {
                        0
                    } else {
                        old(self).next_fill() + 1
                    })
                    &&& fill.timestamp == timestamp
                    &&& fill.strategy_id@ == old(self).strategy()
                    &&& fill.symbol@ == old(self).symbol_text()
                    &&& fill.fill_id == old(self).next_fill()
                    &&& fill.order_id == new_order.order_id
                    &&& fill.side == convert::side_of(new_order.side)
                    &&& fill.price == numbers.exec_price
                    &&& Some(fill.qty) == numbers.fill_qty
                    &&& fill.fee == numbers.zero
                    &&& fill.is_maker == new_order.maker
                    &&& fill.exch_time == new_order.exch_timestamp
                    &&& fill.mid_price == numbers.exec_price
                },
            },
    {
        let update = convert::create_order_update(
            prev_order,
            new_order,
            self.strategy_id.as_str(),
            self.symbol.as_str(),
            timestamp,
            numbers.price,
            numbers.exec_price,
        );
        match numbers.fill_qty {
            None => (update, None),
            Some(fill_qty) => {
                let fill_id: u64 = self.next_fill_id;
                self.next_fill_id = if fill_id == u64::MAX {
                    0
                } else {
                    fill_id + 1
                };
                let fill = convert::create_fill_event(
                    new_order,
                    fill_qty,
                    self.strategy_id.as_str(),
                    self.symbol.as_str(),
                    timestamp,
                    numbers.exec_price,
                    fill_id,
                    numbers.exec_price,
                    numbers.zero,
                );
                (update, Some(fill))
            },
        }
    }

    /// A strategy status event.
    pub fn status_event(&self, timestamp: i64, state: StrategyState, message: String) -> (r:
        StrategyStatus)
        ensures
            r.timestamp == timestamp,
            r.strategy_id@ == self.strategy(),
            r.state == state,
            r.message@ == message@,
    {
        StrategyStatus { timestamp, strategy_id: self.strategy_id.clone(), state, message }
    }

    /// A position snapshot.
    pub fn position_event(
        &self,
        timestamp: i64,
        position: F,
        avg_price: F,
        mid_price: F,
        unrealized_pnl: F,
        realized_pnl: F,
    ) -> (r: PositionSnapshot<F>)
        ensures
            r.timestamp == timestamp,
            r.strategy_id@ == self.strategy(),
            r.symbol@ == self.symbol_text(),
            r.position == position,
            r.avg_price == avg_price,
            r.mid_price == mid_price,
            r.unrealized_pnl == unrealized_pnl,
            r.realized_pnl == realized_pnl,
    {
        PositionSnapshot {
            timestamp,
            strategy_id: self.strategy_id.clone(),
            symbol: self.symbol.clone(),
            position,
            avg_price,
            mid_price,
            unrealized_pnl,
            realized_pnl,
        }
    }
}

} // verus!
