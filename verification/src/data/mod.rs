//! Event data: validation, correction and conversion.

pub mod collector;
pub mod collector_laws;
pub mod column_laws;
pub mod csv_laws;
pub mod file_laws;
pub mod normalize;
pub mod order_laws;
pub mod row_laws;
pub mod snapshot_laws;
pub mod sort;
pub mod tardis;
pub mod tardis_fast;
pub mod tardis_laws;
pub mod validation;
