//! The call surface exposed to the host adapters: account self-service, DAO
//! and oracle configuration, stream calls, inbound transfer routing, and
//! read-only views.

pub mod account_calls;
pub mod dao_calls;
pub mod oracle_calls;
pub mod stream_calls;
pub mod token_calls;
pub mod views;
