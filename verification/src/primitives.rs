//! Basic domain vocabulary: scalar type aliases, protocol-wide limits, the
//! stream status machine, and the integrity check used around every
//! account-index mutation.

use vstd::prelude::*;

verus! {

/// A token amount. All balances, rates and commissions are 128-bit.
pub type Balance = u128;

/// A point in host time, in ticks (nanoseconds).
pub type Timestamp = u64;

/// A gas budget for an outbound call, forwarded opaquely to the dispatcher.
pub type GasAmount = u64;

/// An account identity. The host guarantees well-formedness; the core only
/// compares identities and uses them as lookup keys.
pub type AccountId = String;

/// A stream identity: a unique handle derived outside the core from an
/// unpredictable per-call seed. The core only compares handles.
pub type StreamId = u64;

pub const MAX_DESCRIPTION_LEN: usize = 255;

pub const MIN_STREAMING_SPEED: u128 = 1;

/// 1e27: the fastest admissible accrual rate, tokens per second.
pub const MAX_STREAMING_SPEED: u128 = 1_000_000_000_000_000_000_000_000_000;

/// 1e33: no stream balance may ever exceed this.
pub const MAX_AMOUNT: u128 = 1_000_000_000_000_000_000_000_000_000_000_000;

/// 1e9: host time ticks per second.
pub const TICKS_PER_SECOND: u64 = 1_000_000_000;

/// 1e24: one whole unit of the native currency.
pub const ONE_NEAR: u128 = 1_000_000_000_000_000_000_000_000;

pub const ONE_YOCTO: u128 = 1;

pub const ONE_TERA: u64 = 1_000_000_000_000;

/// Flat native-currency commission for tokens not accepted as payment.
pub const DEFAULT_COMMISSION_NON_PAYMENT_FT: u128 = 100_000_000_000_000_000_000_000;

pub const DEFAULT_VIEW_STREAMS_LIMIT: u32 = 10;

/// Native currency reserved per stream for storage needs.
pub const STORAGE_NEEDS_PER_STREAM: u128 = 50_000_000_000_000_000_000_000;

/// Default native-currency storage deposit for unlisted tokens.
pub const DEFAULT_STORAGE_BALANCE: u128 = 100_000_000_000_000_000_000_000;

pub const DEFAULT_GAS_FOR_FT_TRANSFER: u64 = 50_000_000_000_000;

pub const DEFAULT_GAS_FOR_STORAGE_DEPOSIT: u64 = 25_000_000_000_000;

pub const MIN_GAS_FOR_AURORA_TRANFSER: u64 = 70_000_000_000_000;

pub const MIN_GAS_FOR_FT_TRANFSER: u64 = 20_000_000_000_000;

#[derive(Clone, Copy, PartialEq, Eq, Structural, Debug)]
pub enum StreamFinishReason {
    StoppedByOwner,
    StoppedByReceiver,
    FinishedNaturally,
    FinishedBecauseCannotBeExtended,
    FinishedWhileTransferred,
}

#[derive(Clone, Copy, PartialEq, Eq, Structural, Debug)]
pub enum StreamStatus {
    Initialized,
    Active,
    Paused,
    Finished { reason: StreamFinishReason },
}

impl StreamStatus {
    /// Whether the status is terminal: no transition ever leaves `Finished`.
    pub open spec fn spec_is_terminated(&self) -> bool {
        self is Finished
    }

    #[verifier::when_used_as_spec(spec_is_terminated)]
    pub fn is_terminated(&self) -> (r: bool)
        ensures
            r == self.spec_is_terminated(),
    {
        match self {
            StreamStatus::Initialized => false,
            StreamStatus::Active => false,
            StreamStatus::Paused => false,
            StreamStatus::Finished { reason: _ } => true,
        }
    }
}

/// The transitions that the shared action processor can apply to a stream
/// together with both parties' account indices.
#[derive(Clone, Copy, PartialEq, Eq, Structural, Debug)]
pub enum ActionType {
    Init,
    Start,
    Pause,
    Withdraw,
    Stop { reason: StreamFinishReason },
}

/// Guards an account-index mutation that must have changed membership; a
/// `false` result means the core invariant was already violated.
pub fn check_integrity(action_result: bool) -> (r: Result<(), crate::err::ContractError>)
    ensures
        r is Ok <==> action_result,
        r is Err ==> r == Result::<(), crate::err::ContractError>::Err(
            crate::err::ContractError::DataCorruption,
        ),
{
    if action_result {
        Ok(())
    } else {
        Err(crate::err::ContractError::DataCorruption)
    }
}

} // verus!
