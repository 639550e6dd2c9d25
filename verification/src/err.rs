//! The error taxonomy of the core: authorization, state-precondition,
//! resource-sufficiency, validation and integrity failures.

use vstd::prelude::*;

use crate::primitives::AccountId;
use crate::primitives::Balance;
use crate::primitives::GasAmount;
use crate::primitives::StreamId;
use crate::primitives::StreamStatus;

verus! {

#[derive(PartialEq, Debug)]
pub enum ContractError {
    Unknown,
    CallerIsNotDao { expected: AccountId, received: AccountId },
    CallerIsNotStreamOwner { expected: AccountId, received: AccountId },
    CallerIsNotStreamActor { owner: AccountId, receiver: AccountId, caller: AccountId },
    NoOraclesFound,
    UnknownOracle { received: AccountId },
    OracleNotApproved { oracle: AccountId },
    UnknownToken { received: AccountId },
    InvalidToken { expected: AccountId, received: AccountId },
    ZeroTokenTransfer,
    ZeroBalanceStreamStart,
    CronCallsForbidden { received: AccountId },
    MustStartImmediately,
    CannotStartStream { stream_status: StreamStatus },
    CannotPauseStream { stream_status: StreamStatus },
    CannotStopStream { stream_status: StreamStatus },
    CannotWithdraw { stream_status: StreamStatus },
    CliffNotPassed { timestamp: u64 },
    UnlockPeriodNotPassed { timestamp: u64 },
    InvalidCommission,
    InsufficientGas { expected: GasAmount, left: GasAmount },
    InsufficientDeposit { expected: Balance, received: Balance },
    InsufficientNearBalance { requested: Balance, left: Balance },
    InvalidTokenWithdrawAmount { requested: Balance, left: Balance },
    NFTNotApproved { account_id: AccountId },
    AccountNotExist { account_id: AccountId },
    StreamNotExist { stream_id: StreamId },
    StreamLocked { stream_id: StreamId },
    StreamTerminated { stream_id: StreamId },
    StreamExpired { stream_id: StreamId },
    DescriptionTooLong { max_description_len: usize, received: usize },
    InvalidStreamingSpeed {
        min_streaming_speed: u128,
        max_streaming_speed: u128,
        received: u128,
    },
    ExceededMaxBalance { max_amount: Balance },
    PredecessorIsNotOwner { expected: AccountId, received: AccountId },
    DataCorruption,
}

} // verus!
