//! Exchange connector: order book synchronisation and message handling.

pub mod backoff;
pub mod market_data;
pub mod msg;
pub mod orderbook;
pub mod orderbook_laws;
pub mod papi;
pub mod papi_rest;
pub mod refresh_laws;
pub mod request_laws;
pub mod rest;
pub mod stream;
pub mod stream_laws;
pub mod user_data;
pub mod user_laws;
