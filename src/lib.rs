//! Multi-output gradient boosting: a collection of single-output boosters that
//! share one configuration and are fitted, queried and described as a unit.

pub mod config;
pub mod engine;
pub mod laws;
pub mod matrix;
pub mod multi_output;
