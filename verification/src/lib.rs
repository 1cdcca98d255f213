//! Batch decoder core for EVM event logs and call traces.
//!
//! The crate maintains a deduplicated catalog of contract ABI items, matches
//! raw log and trace rows against that catalog by selector hash, and decodes
//! each matched payload into named, typed, human-readable parameters.

pub mod abi;
pub mod config;
pub mod decoder;
pub mod hexutil;
pub mod laws;
pub mod log_decoder;
pub mod matcher;
pub mod rows;
pub mod sol;
pub mod strutil;
pub mod tomlcfg;
pub mod trace_decoder;
pub mod utils;
pub mod value;
