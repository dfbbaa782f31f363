//! Streaming factors: windows over values, and the decisions taken on them.

pub mod factor_laws;
pub mod obi;
pub mod ring_buffer;
pub mod stop_loss;
pub mod time_window;
pub mod volatility;
