//! A verified core for a continuous token-streaming engine: an owner commits a
//! fixed-rate flow of fungible-token balance to a receiver; balance accrues
//! over time and is withdrawn on demand; either party can pause, stop, or
//! terminate the arrangement with well-defined settlement.
//!
//! The core is pure: host concerns (call authentication, attached deposits,
//! gas, persistent storage, the clock, outbound token transfers) enter as
//! plain arguments and leave as returned instruction values.

pub mod account;
pub mod aurora;
pub mod contract;
pub mod dao;
pub mod err;
pub mod interface;
pub mod primitives;
pub mod safe_float;
pub mod stats;
pub mod stream;
pub mod stream_ops;
pub mod table;
pub mod token;
pub mod transfer;
pub mod wrap;
