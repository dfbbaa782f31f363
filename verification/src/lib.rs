//! Market data, order and conversion logic for a high-frequency trading
//! pipeline on Binance futures, with its behaviour stated and proved.
//!
//! Prices and quantities are carried, not computed: they stand as a type
//! parameter, so that the statements hold for whatever number type is used.

pub mod clock;
pub mod collector;
pub mod connector;
pub mod data;
pub mod decode;
pub mod factors;
pub mod json;
pub mod keyed;
pub mod numbers;
pub mod recorder;
pub mod strategy;
pub mod text;
pub mod text_laws;
pub mod types;
