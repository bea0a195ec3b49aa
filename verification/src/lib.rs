//! Verified core of the ViperTrade services: configuration resolution,
//! symbol handling and candle alignment, the executor's decision and
//! reconciliation flows, consensus latching, rate limiting, the analyst's
//! investigation loop and verdicts, and request signing.
pub mod text;
pub mod numeric;
pub mod config;
pub mod executor;
pub mod keyed;
pub mod gate;
pub mod consensus;
pub mod rate_limit;
pub mod symbols;
pub mod signing;
pub mod clock;
pub mod tuning;
pub mod api;
pub mod domain;
pub mod recon;
pub mod analyst;
pub mod agent;
pub mod pairs;
pub mod processed;
pub mod align;
pub mod market;
