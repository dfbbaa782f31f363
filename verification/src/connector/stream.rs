//! Messages of the futures market data stream.

use vstd::prelude::*;

use crate::text::LevelText;

verus! {

/// A depth update event of the diff depth stream.
#[derive(Debug)]
pub struct Depth {
    /// Time at which the exchange sent the event, in milliseconds.
    pub event_time: i64,
    /// Time of the transaction, in milliseconds.
    pub transaction_time: i64,
    pub symbol: String,
    /// First update id in the event (`U`).
    pub first_update_id: i64,
    /// Final update id in the event (`u`).
    pub last_update_id: i64,
    /// Final update id of the previous event (`pu`).
    pub prev_update_id: i64,
    pub bids: Vec<(String, String)>,
    pub asks: Vec<(String, String)>,
}

/// What a depth update event says.
pub struct DepthModel {
    pub event_time: i64,
    pub transaction_time: i64,
    pub symbol: Seq<char>,
    pub first_update_id: i64,
    pub last_update_id: i64,
    pub prev_update_id: i64,
    pub bids: Seq<LevelText>,
    pub asks: Seq<LevelText>,
}

impl View for Depth {
    type V = DepthModel;

    open spec fn view(&self) -> DepthModel {
        DepthModel {
            event_time: self.event_time,
            transaction_time: self.transaction_time,
            symbol: self.symbol@,
            first_update_id: self.first_update_id,
            last_update_id: self.last_update_id,
            prev_update_id: self.prev_update_id,
            bids: crate::text::levels_view(self.bids@),
            asks: crate::text::levels_view(self.asks@),
        }
    }
}

impl Clone for Depth {
    fn clone(&self) -> (r: Self)
        ensures
            r@ == self@,
    {
        Depth {
            event_time: self.event_time,
            transaction_time: self.transaction_time,
            symbol: self.symbol.clone(),
            first_update_id: self.first_update_id,
            last_update_id: self.last_update_id,
            prev_update_id: self.prev_update_id,
            bids: crate::text::clone_levels(&self.bids),
            asks: crate::text::clone_levels(&self.asks),
        }
    }
}

/// A trade event.
#[derive(Debug)]
pub struct Trade {
    pub symbol: String,
    /// Time of the transaction, in milliseconds.
    pub transaction_time: i64,
    pub price: String,
    pub qty: String,
    /// Kind of the trade, `MARKET` for ordinary ones.
    pub type_: String,
    pub is_the_buyer_the_market_maker: bool,
}

/// What a trade event says.
pub struct TradeModel {
    pub symbol: Seq<char>,
    pub transaction_time: i64,
    pub price: Seq<char>,
    pub qty: Seq<char>,
    pub type_: Seq<char>,
    pub is_the_buyer_the_market_maker: bool,
}

impl View for Trade {
    type V = TradeModel;

    open spec fn view(&self) -> TradeModel {
        TradeModel {
            symbol: self.symbol@,
            transaction_time: self.transaction_time,
            price: self.price@,
            qty: self.qty@,
            type_: self.type_@,
            is_the_buyer_the_market_maker: self.is_the_buyer_the_market_maker,
        }
    }
}

} // verus!
