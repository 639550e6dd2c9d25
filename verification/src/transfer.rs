//! Outbound effect descriptors. The core never performs token movement
//! itself: every operation returns the instructions to dispatch after the
//! state change has been committed, and a zero-amount transfer is always
//! elided.

use vstd::prelude::*;

use crate::aurora::is_aurora_address;
use crate::aurora::spec_is_aurora_address;
use crate::contract::Contract;
use crate::err::ContractError;
use crate::primitives::AccountId;
use crate::primitives::Balance;
use crate::primitives::GasAmount;
use crate::primitives::ONE_TERA;

verus! {

/// An asynchronous outbound instruction, performed by the dispatcher after
/// the invocation's state changes are final.
#[derive(PartialEq, Debug)]
pub enum Instruction {
    /// Pay `amount` of the asset to `receiver_id` out of the finance vault.
    FtTransferFromFinance {
        finance_id: AccountId,
        token_account_id: AccountId,
        receiver_id: AccountId,
        amount: Balance,
        gas: GasAmount,
    },
    /// Move `amount` of the asset held by this contract to `receiver_id`;
    /// the dispatcher picks the bridged route when `is_aurora` is set.
    FtTransferFromSelf {
        token_account_id: AccountId,
        receiver_id: AccountId,
        amount: Balance,
        is_aurora: bool,
    },
    /// Register `account_id` with the asset's storage, attaching `deposit`.
    StorageDeposit {
        token_account_id: AccountId,
        account_id: AccountId,
        deposit: Balance,
        gas: GasAmount,
    },
    /// Ask the finance vault to replenish this contract's storage reserve.
    StorageNeedsTransfer { finance_id: AccountId },
    /// Call `call` on `contract`, passing `args` with the created stream's
    /// id injected by the dispatcher.
    FunctionCall { contract: AccountId, call: String, args: String, stream_id: crate::primitives::StreamId },
}

/// The payment instruction owed after a settlement: none when nothing is
/// due, otherwise a finance-vault transfer of exactly `amount`.
pub open spec fn spec_finance_transfer(
    finance_id: Seq<char>,
    token: Seq<char>,
    receiver: Seq<char>,
    amount: int,
    r: Option<Instruction>,
) -> bool {
    if amount == 0 {
        r is None
    } else {
        r matches Some(i) && i matches Instruction::FtTransferFromFinance {
            finance_id: f,
            token_account_id: t,
            receiver_id: rcv,
            amount: a,
            gas: _,
        } && f@ == finance_id && t@ == token && rcv@ == receiver && a == amount
    }
}

/// Whether `r` is the instruction set owed for moving `amount` of the asset
/// from this contract (aurora-aware), or nothing for a zero amount.
pub open spec fn spec_self_transfer(
    token: Seq<char>,
    receiver: Seq<char>,
    amount: int,
    r: Option<Instruction>,
) -> bool {
    if amount == 0 {
        r is None
    } else {
        r matches Some(i) && i matches Instruction::FtTransferFromSelf {
            token_account_id: t,
            receiver_id: rcv,
            amount: a,
            is_aurora: au,
        } && t@ == token && rcv@ == receiver && a == amount && au == spec_is_aurora_address(
            receiver,
        )
    }
}

impl Contract {
    /// Builds the instruction paying `amount` to `receiver` out of the
    /// finance vault; a zero amount yields no instruction.
    pub fn ft_transfer_from_finance(
        &self,
        token_account_id: AccountId,
        receiver: AccountId,
        amount: Balance,
    ) -> (r: Result<Option<Instruction>, ContractError>)
        ensures
            r matches Ok(i) && spec_finance_transfer(
                self.finance_id@,
                token_account_id@,
                receiver@,
                amount as int,
                i,
            ),
    {
        if amount == 0 {
            // A zero token transfer is never issued.
            return Ok(None);
        }
        let gas_needed: GasAmount = 50 * ONE_TERA;
        Ok(Some(Instruction::FtTransferFromFinance {
            finance_id: self.finance_id.clone(),
            token_account_id,
            receiver_id: receiver,
            amount,
            gas: gas_needed,
        }))
    }

    /// Builds the instruction moving `amount` of the asset held by this
    /// contract to `receiver_id`; a zero amount yields no instruction.
    pub fn ft_transfer_from_self(
        &self,
        token_account_id: AccountId,
        receiver_id: AccountId,
        amount: Balance,
    ) -> (r: Result<Option<Instruction>, ContractError>)
        ensures
            r matches Ok(i) && spec_self_transfer(
                token_account_id@,
                receiver_id@,
                amount as int,
                i,
            ),
    {
        if amount == 0 {
            // A zero token transfer is never issued.
            return Ok(None);
        }
        let is_aurora = is_aurora_address(&receiver_id);
        Ok(Some(Instruction::FtTransferFromSelf {
            token_account_id,
            receiver_id,
            amount,
            is_aurora,
        }))
    }
}

} // verus!
