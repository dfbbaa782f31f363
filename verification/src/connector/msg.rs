//! Words of the exchange for sides, states, kinds and lifetimes of orders.

use vstd::prelude::*;

use crate::text;

verus! {

/// Side of an order.
#[derive(Debug, Clone, Copy, PartialEq, Eq, Structural)]
pub enum Side {
    Buy,
    Sell,
}

/// State of an order.
#[derive(Debug, Clone, Copy, PartialEq, Eq, Structural)]
pub enum Status {
    /// Nothing is going on.
    Idle,
    New,
    Expired,
    Filled,
    Canceled,
    PartiallyFilled,
}

/// Kind of an order.
#[derive(Debug, Clone, Copy, PartialEq, Eq, Structural)]
pub enum OrdType {
    Limit,
    Market,
}

/// Lifetime of an order.
#[derive(Debug, Clone, Copy, PartialEq, Eq, Structural)]
pub enum TimeInForce {
    GTC,
    GTX,
    FOK,
    IOC,
}

/// The side that a word stands for.
pub open spec fn side_named(s: Seq<char>) -> Option<Side> {
    if s == "BUY"@ {
        Some(Side::Buy)
    } else if s == "SELL"@ {
        Some(Side::Sell)
    } else {
        None
    }
}

/// Reads a side; the error lists the words that are known.
pub fn from_str_to_side(s: &str) -> (r: Result<Side, String>)
    ensures
        match r {
            Ok(side) => side_named(s@) == Some(side),
            Err(expected) => side_named(s@) is None && expected@ == "BUY or SELL"@,
        },
{
    if text::same_text(s, "BUY") {
        Ok(Side::Buy)
    } else if text::same_text(s, "SELL") {
        Ok(Side::Sell)
    } else {
        Err("BUY or SELL".to_string())
    }
}

/// The state that a word stands for.
pub open spec fn status_named(s: Seq<char>) -> Option<Status> {
    if s == "NEW"@ {
        Some(Status::New)
    } else if s == "PARTIALLY_FILLED"@ {
        Some(Status::PartiallyFilled)
    } else if s == "FILLED"@ {
        Some(Status::Filled)
    } else if s == "CANCELED"@ {
        Some(Status::Canceled)
    } else if s == "EXPIRED"@ {
        Some(Status::Expired)
    } else {
        None
    }
}

/// Reads a state; the error lists the words that are known.
pub fn from_str_to_status(s: &str) -> (r: Result<Status, String>)
    ensures
        match r {
            Ok(status) => status_named(s@) == Some(status),
            Err(expected) => status_named(s@) is None && expected@
                == "NEW,PARTIALLY_FILLED,FILLED,CANCELED,EXPIRED"@,
        },
{
    if text::same_text(s, "NEW") {
        Ok(Status::New)
    } else if text::same_text(s, "PARTIALLY_FILLED") {
        Ok(Status::PartiallyFilled)
    } else if text::same_text(s, "FILLED") {
        Ok(Status::Filled)
    } else if text::same_text(s, "CANCELED") {
        Ok(Status::Canceled)
    } else if text::same_text(s, "EXPIRED") {
        Ok(Status::Expired)
    } else {
        Err("NEW,PARTIALLY_FILLED,FILLED,CANCELED,EXPIRED".to_string())
    }
}

/// The kind that a word stands for.
pub open spec fn type_named(s: Seq<char>) -> Option<OrdType> {
    if s == "LIMIT"@ {
        Some(OrdType::Limit)
    } else if s == "MARKET"@ {
        Some(OrdType::Market)
    } else {
        None
    }
}

/// Reads a kind; the error lists the words that are known.
pub fn from_str_to_type(s: &str) -> (r: Result<OrdType, String>)
    ensures
        match r {
            Ok(kind) => type_named(s@) == Some(kind),
            Err(expected) => type_named(s@) is None && expected@ == "LIMIT,MARKET"@,
        },
{
    if text::same_text(s, "LIMIT") {
        Ok(OrdType::Limit)
    } else if text::same_text(s, "MARKET") {
        Ok(OrdType::Market)
    } else {
        Err("LIMIT,MARKET".to_string())
    }
}

/// The lifetime that a word stands for.
pub open spec fn tif_named(s: Seq<char>) -> Option<TimeInForce> {
    if s == "GTC"@ {
        Some(TimeInForce::GTC)
    } else if s == "IOC"@ {
        Some(TimeInForce::IOC)
    } else if s == "FOK"@ {
        Some(TimeInForce::FOK)
    } else if s == "GTX"@ {
        Some(TimeInForce::GTX)
    } else {
        None
    }
}

/// Reads a lifetime; the error lists the words that are known.
pub fn from_str_to_tif(s: &str) -> (r: Result<TimeInForce, String>)
    ensures
        match r {
            Ok(tif) => tif_named(s@) == Some(tif),
            Err(expected) => tif_named(s@) is None && expected@ == "GTC,IOC,FOK,GTX"@,
        },
{
    if text::same_text(s, "GTC") {
        Ok(TimeInForce::GTC)
    } else if text::same_text(s, "IOC") {
        Ok(TimeInForce::IOC)
    } else if text::same_text(s, "FOK") {
        Ok(TimeInForce::FOK)
    } else if text::same_text(s, "GTX") {
        Ok(TimeInForce::GTX)
    } else {
        Err("GTC,IOC,FOK,GTX".to_string())
    }
}

} // verus!
