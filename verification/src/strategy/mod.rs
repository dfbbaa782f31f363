//! Market making strategy: when it acts, which orders it keeps, and how it
//! is warmed up from collected data.

pub mod cycle_laws;
pub mod grid;
pub mod grid_laws;
pub mod load_laws;
pub mod run;
pub mod schedule;
pub mod update;
pub mod warmup;
pub mod warmup_laws;
