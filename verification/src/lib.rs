//! A verified financial-analytics engine.
//!
//! Given a list of ledger transactions and optional compound-interest
//! parameters, the library produces aggregate income/expense figures, a
//! per-category expense breakdown, a chronological monthly series, and an
//! optional compound-growth projection.  All currency values are carried as
//! integer cents and all rates as fixed-point integers, so every stage of the
//! computation is exact and fully specified.

pub mod advisor;
pub mod aggregate;
pub mod engine;
pub mod interest;
pub mod laws;
pub mod lex;
pub mod model;
pub mod rounding;
pub mod telemetry;
