//! Inbound transfer-notification routing: a decoded message decides whether
//! the transferred amount funds a new stream, tops one up, or is staked; an
//! undecodable message returns the whole amount to its sender and touches
//! nothing. Decoding itself happens at the host boundary; the core receives
//! the decoded request, or none.

use vstd::prelude::*;

use crate::account::Account;
use crate::contract::Contract;
use crate::err::ContractError;
use crate::primitives::AccountId;
use crate::primitives::Balance;
use crate::primitives::StreamFinishReason;
use crate::primitives::StreamId;
use crate::primitives::StreamStatus;
use crate::primitives::Timestamp;
use crate::primitives::MAX_AMOUNT;
use crate::primitives::TICKS_PER_SECOND;
use crate::safe_float::lemma_mult_fits_mono;
use crate::stream::Stream;
use crate::stream_ops::lemma_index_accounts_extend;
use crate::transfer::Instruction;

verus! {

pub struct CreateRequest {
    pub description: Option<String>,
    pub owner_id: AccountId,
    pub receiver_id: AccountId,
    pub tokens_per_sec: Balance,
    pub cliff_period_sec: Option<u32>,
    pub is_auto_start_enabled: Option<bool>,
    pub is_expirable: Option<bool>,
    pub is_locked: Option<bool>,
}

/// A decoded transfer-notification message.
pub enum TransferCallRequest {
    /// Route the amount into the sender's stake of the utility asset.
    Stake,
    /// Fund a new stream with the whole transferred amount.
    Create { request: CreateRequest },
    /// Fund a new stream, then call back into another contract with the new
    /// stream's id.
    CreateCall { request: CreateRequest, contract: AccountId, call: String, args: String },
    /// Top up an existing stream.
    Deposit { stream_id: StreamId },
}

/// A decoded operational request relayed from the bridged chain.
pub enum AuroraOperationalRequest {
    AccountDeposit,
    StartStream { stream_id: StreamId },
    PauseStream { stream_id: StreamId },
    StopStream { stream_id: StreamId },
    Withdraw { stream_id: StreamId },
}

impl Contract {
    /// Handles a token transfer notification. Returns the amount to give
    /// back to the sender together with the outbound instructions; an
    /// undecoded message (`None`) returns everything and changes nothing; a
    /// deposit racing with expiry also returns everything while the
    /// force-stop stands. Errors abort the whole invocation.
    pub fn ft_on_transfer(
        &mut self,
        sender_id: AccountId,
        token_account_id: AccountId,
        amount: Balance,
        request: Option<TransferCallRequest>,
        new_stream_id: StreamId,
        now: Timestamp,
    ) -> (r: Result<(Balance, Vec<Instruction>), ContractError>)
        requires
            old(self).wf(),
            old(self).time_ok(now),
            amount > 0,
            request matches Some(TransferCallRequest::Stake) ==> (old(self).accounts@.dom(
            ).contains(sender_id@) ==> old(self).accounts@.index(sender_id@).stake + amount
                <= u128::MAX),
            (match request {
                Some(TransferCallRequest::Create { request: cr }) => cr.cliff_period_sec matches
                    Some(p) ==> now + TICKS_PER_SECOND * p <= u64::MAX,
                Some(TransferCallRequest::CreateCall { request: cr, .. }) => cr.cliff_period_sec
                    matches Some(p) ==> now + TICKS_PER_SECOND * p <= u64::MAX,
                _ => true,
            }),
            (match request {
                Some(TransferCallRequest::Deposit { stream_id }) => old(self).streams@.dom(
                ).contains(stream_id) ==> old(self).streams@[stream_id].tokens_total_withdrawn
                    + old(self).streams@[stream_id].balance + amount <= u128::MAX,
                _ => true,
            }),
        ensures
            final(self).wf(),
            final(self).time_ok(now),
            request is None ==> (r matches Ok(v) && v.0 == amount && v.1@.len() == 0
                && *final(self) == *old(self)),
            request matches Some(TransferCallRequest::Stake) ==> ({
                &&& (r is Ok <==> (token_account_id@ == old(self).dao.utility_token_id@ && old(self).accounts@.dom().contains(sender_id@)))
                &&& (r is Ok ==> final(self).accounts@ == old(self).accounts@.insert(
                    sender_id@,
                    (Account {
                        stake: (old(self).accounts@.index(sender_id@).stake + amount) as u128,
                        ..old(self).accounts@.index(sender_id@)
                    }),
                ) && *final(self) == (Contract {
                    accounts: final(self).accounts,
                    ..*old(self)
                }) && (r matches Ok(v) && v.0 == 0 && v.1@.len() == 0))
                &&& (token_account_id@ != old(self).dao.utility_token_id@ ==> (r matches Err(e)
                    && e matches ContractError::InvalidToken { expected, received } && expected@
                    == old(self).dao.utility_token_id@ && received@ == token_account_id@))
                &&& (token_account_id@ == old(self).dao.utility_token_id@ && !old(self).accounts@.dom().contains(sender_id@) ==> (r matches Err(e) && e matches
                    ContractError::AccountNotExist { account_id } && account_id@ == sender_id@))
                &&& (r is Err ==> *final(self) == *old(self))
            }),
            request matches Some(TransferCallRequest::Create { request: cr }) ==> ({
                let fits = old(self).can_create(
                    cr.description,
                    cr.owner_id@,
                    cr.receiver_id@,
                    token_account_id@,
                    amount as int,
                    cr.tokens_per_sec as int,
                    cr.cliff_period_sec,
                    (if cr.is_auto_start_enabled is Some {
                        cr.is_auto_start_enabled->0
                    } else {
                        true
                    }),
                    (if cr.is_locked is Some {
                        cr.is_locked->0
                    } else {
                        false
                    }),
                    sender_id@,
                    new_stream_id,
                );
                &&& (r is Ok <==> fits)
                &&& (r is Err ==> *final(self) == *old(self))
                &&& (r matches Ok(v) ==> v.0 == 0 && final(self).streams@.dom().contains(
                    new_stream_id,
                ) && v.1@.len() >= 1 && (v.1@.last() matches Instruction::StorageNeedsTransfer {
                    finance_id: f,
                } && f@ == old(self).finance_id@))
            }),
            request matches Some(TransferCallRequest::CreateCall {
                request: cr,
                contract: c0,
                call: cl0,
                args: a0,
            }) ==> ({
                let fits = old(self).can_create(
                    cr.description,
                    cr.owner_id@,
                    cr.receiver_id@,
                    token_account_id@,
                    amount as int,
                    cr.tokens_per_sec as int,
                    cr.cliff_period_sec,
                    (if cr.is_auto_start_enabled is Some {
                        cr.is_auto_start_enabled->0
                    } else {
                        true
                    }),
                    (if cr.is_locked is Some {
                        cr.is_locked->0
                    } else {
                        false
                    }),
                    sender_id@,
                    new_stream_id,
                );
                &&& (r is Ok <==> fits)
                &&& (r is Err ==> *final(self) == *old(self))
                &&& (r matches Ok(v) ==> v.0 == 0 && final(self).streams@.dom().contains(
                    new_stream_id,
                ) && v.1@.len() >= 1 && (v.1@.last() matches Instruction::FunctionCall {
                    contract: c,
                    call: cl,
                    args: a,
                    stream_id: sid,
                } && c@ == c0@ && cl@ == cl0@ && a@ == a0@ && sid == new_stream_id))
            }),
            request matches Some(TransferCallRequest::Deposit { stream_id }) ==> ({
                let fits = old(self).can_deposit(token_account_id@, stream_id, amount as int, now);
                let s0 = old(self).streams@[stream_id];
                let expiry_case = old(self).streams@.dom().contains(stream_id)
                    && !s0.status.spec_is_terminated() && !(s0.is_locked && !(
                s0.status is Initialized)) && !(s0.cliff is Some && now < s0.cliff->0) && old(self).spec_deposit_expiry(stream_id, now);
                &&& (r is Ok <==> (fits || expiry_case))
                &&& (r is Err ==> *final(self) == *old(self))
                &&& (r matches Ok(v) ==> (v.0 == if fits {
                    0
                } else {
                    amount as int
                }))
                &&& (fits ==> final(self).streams@.dom().contains(stream_id) && final(self).streams@.index(stream_id).balance == s0.spec_update_cliff(now).balance + amount)
                &&& (r is Ok && expiry_case ==> final(self).streams@.dom().contains(stream_id)
                    && final(self).streams@.index(stream_id).status.spec_is_terminated() && final(self).streams@.index(stream_id).balance == 0)
            }),
    {
        let request = match request {
            Some(req) => req,
            None => {
                // An undecodable message must never be silently retained:
                // everything goes back to the sender.
                return Ok((amount, Vec::new()));
            },
        };
        match request {
            TransferCallRequest::Stake => {
                if !(token_account_id == self.dao.utility_token_id) {
                    return Err(ContractError::InvalidToken {
                        expected: self.dao.utility_token_id.clone(),
                        received: token_account_id,
                    });
                }
                let ghost pre = *self;
                let mut sender = match self.extract_account(&sender_id) {
                    Ok(a) => a,
                    Err(e) => {
                        return Err(e);
                    },
                };
                sender.stake = sender.stake + amount;
                match self.save_account(sender) {
                    Ok(_) => {},
                    Err(e) => {
                        proof {
                            assert(false);
                        }
                        return Err(e);
                    },
                }
                proof {
                    assert(self.accounts@ =~= pre.accounts@.insert(
                        sender_id@,
                        self.accounts@.index(sender_id@),
                    ));
                    assert forall|k: Seq<char>| self.accounts@.dom().contains(k) implies (
                    #[trigger] self.accounts@[k]).wf() && self.accounts@[k].id@ == k by {
                        if k != sender_id@ {
                            assert(self.accounts@[k] == pre.accounts@[k]);
                        }
                    }
                    lemma_index_accounts_extend(pre, *self, pre.streams@);
                }
                Ok((0, Vec::new()))
            },
            TransferCallRequest::Create { request } => {
                let promises = match self.create_stream_op(
                    request.description,
                    sender_id,
                    request.owner_id,
                    request.receiver_id,
                    token_account_id,
                    amount,
                    request.tokens_per_sec,
                    request.cliff_period_sec,
                    request.is_auto_start_enabled,
                    request.is_expirable,
                    request.is_locked,
                    new_stream_id,
                    now,
                ) {
                    Ok(v) => v,
                    Err(e) => {
                        return Err(e);
                    },
                };
                Ok((0, promises))
            },
            TransferCallRequest::CreateCall { request, contract, call, args } => {
                let mut promises = match self.create_stream_op(
                    request.description,
                    sender_id,
                    request.owner_id,
                    request.receiver_id,
                    token_account_id,
                    amount,
                    request.tokens_per_sec,
                    request.cliff_period_sec,
                    request.is_auto_start_enabled,
                    request.is_expirable,
                    request.is_locked,
                    new_stream_id,
                    now,
                ) {
                    Ok(v) => v,
                    Err(e) => {
                        return Err(e);
                    },
                };
                promises.push(Instruction::FunctionCall {
                    contract,
                    call,
                    args,
                    stream_id: new_stream_id,
                });
                Ok((0, promises))
            },
            TransferCallRequest::Deposit { stream_id } => {
                let mut promises: Vec<Instruction> = Vec::new();
                match self.deposit_op(token_account_id, stream_id, amount, now, &mut promises) {
                    Ok(_) => Ok((0, promises)),
                    Err(ContractError::StreamExpired { stream_id: _ }) => {
                        // The force-stop stands; the deposit itself goes
                        // back to the sender.
                        Ok((amount, promises))
                    },
                    Err(e) => Err(e),
                }
            },
        }
    }

    /// Handles an operational request relayed from the bridged chain; the
    /// attached value of an `AccountDeposit` is converted at the configured
    /// ratio.
    pub fn aurora_on_transfer(
        &mut self,
        sender_id: AccountId,
        amount: Balance,
        request: AuroraOperationalRequest,
        now: Timestamp,
    ) -> (r: Result<(Balance, Vec<Instruction>), ContractError>)
        requires
            old(self).wf(),
            old(self).time_ok(now),
            amount <= MAX_AMOUNT,
            request is AccountDeposit ==> old(self).spec_reserve_of(sender_id@)
                + old(self).dao.eth_near_ratio.spec_mult(amount as int) <= u128::MAX,
        ensures
            final(self).wf(),
            final(self).time_ok(now),
            r is Err ==> *final(self) == *old(self),
            request is AccountDeposit ==> ({
                let value = old(self).dao.eth_near_ratio.spec_mult(amount as int);
                &&& (r is Ok <==> old(self).spec_reserve_of(sender_id@) + value >= old(
                    self,
                ).dao.commission_non_payment_ft)
                &&& (r matches Ok(v) ==> v.0 == 0 && v.1@.len() == 0 && final(self).accounts@.dom(
                ).contains(sender_id@) && final(self).accounts@.index(sender_id@).deposit == old(
                    self,
                ).spec_reserve_of(sender_id@) + value && final(self).stats.total_account_deposit_eth
                    == old(self).stats.total_account_deposit_eth.saturating_add(value as u128)
                    && final(self).stats == (crate::stats::Stats {
                    total_account_deposit_eth: final(self).stats.total_account_deposit_eth,
                    ..old(self).stats
                }))
            }),
            request matches AuroraOperationalRequest::StartStream { stream_id } ==> ({
                &&& (r is Ok <==> old(self).can_start(sender_id@, stream_id))
                &&& (r matches Ok(v) ==> v.0 == 0 && v.1@.len() == 0 && final(self).streams@ == old(
                    self,
                ).streams@.insert(
                    stream_id,
                    (Stream {
                        status: StreamStatus::Active,
                        last_action: now,
                        ..old(self).streams@.index(stream_id)
                    }),
                ))
            }),
            request matches AuroraOperationalRequest::PauseStream { stream_id } ==> ({
                &&& (r is Ok <==> old(self).can_pause(sender_id@, stream_id, now))
                &&& (r matches Ok(v) ==> v.0 == 0 && ({
                    let s_mid = old(self).streams@[stream_id].spec_update_cliff(now);
                    let st = crate::stream_ops::spec_settled_dao(s_mid, old(self).dao, now).0;
                    let s1 = if st.status is Finished {
                        st
                    } else {
                        Stream { status: StreamStatus::Paused, ..st }
                    };
                    final(self).streams@ == old(self).streams@.insert(stream_id, s1)
                        && crate::stream_ops::pause_applied(
                        *old(self),
                        *final(self),
                        s_mid,
                        s1,
                        now,
                        v.1@,
                    )
                }))
            }),
            request matches AuroraOperationalRequest::StopStream { stream_id } ==> ({
                &&& (r is Ok <==> old(self).can_stop(sender_id@, stream_id))
                &&& (r matches Ok(v) ==> v.0 == 0 && ({
                    let s0 = old(self).streams@[stream_id];
                    let s_mid = s0.spec_update_cliff(now);
                    let reason = if s0.owner_id@ == sender_id@ {
                        StreamFinishReason::StoppedByOwner
                    } else {
                        StreamFinishReason::StoppedByReceiver
                    };
                    let st = crate::stream_ops::spec_settled_dao(s_mid, old(self).dao, now).0;
                    let s1 = if s_mid.status is Active {
                        if st.status is Finished {
                            st
                        } else {
                            Stream { balance: 0, status: StreamStatus::Finished { reason }, ..st }
                        }
                    } else {
                        Stream {
                            balance: 0,
                            status: StreamStatus::Finished { reason },
                            last_action: now,
                            ..s_mid
                        }
                    };
                    final(self).streams@ == old(self).streams@.insert(stream_id, s1)
                        && crate::stream_ops::stop_applied(
                        *old(self),
                        *final(self),
                        s_mid,
                        s1,
                        now,
                        reason,
                        v.1@,
                    )
                }))
            }),
            request matches AuroraOperationalRequest::Withdraw { stream_id } ==> ({
                &&& (r is Ok <==> old(self).can_withdraw(sender_id@, stream_id, now))
                &&& (r matches Ok(v) ==> v.0 == 0 && ({
                    let s_mid = old(self).streams@[stream_id].spec_update_cliff(now);
                    let s1 = crate::stream_ops::spec_settled_dao(s_mid, old(self).dao, now).0;
                    final(self).streams@ == old(self).streams@.insert(stream_id, s1)
                        && crate::stream_ops::withdraw_applied(
                        *old(self),
                        *final(self),
                        s_mid,
                        s1,
                        now,
                        v.1@,
                    )
                }))
            }),
    {
        match request {
            AuroraOperationalRequest::AccountDeposit => {
                proof {
                    lemma_mult_fits_mono(self.dao.eth_near_ratio, amount as int);
                }
                let value = self.dao.eth_near_ratio.mult_safe(amount);
                match self.account_deposit(sender_id, value) {
                    Ok(_) => {},
                    Err(e) => {
                        return Err(e);
                    },
                }
                self.stats.inc_account_deposit(value, true);
                Ok((0, Vec::new()))
            },
            AuroraOperationalRequest::StartStream { stream_id } => {
                match self.start_stream_op(&sender_id, stream_id, now) {
                    Ok(_) => Ok((0, Vec::new())),
                    Err(e) => Err(e),
                }
            },
            AuroraOperationalRequest::PauseStream { stream_id } => {
                match self.pause_stream_op(&sender_id, stream_id, now) {
                    Ok(v) => Ok((0, v)),
                    Err(e) => Err(e),
                }
            },
            AuroraOperationalRequest::StopStream { stream_id } => {
                match self.stop_stream_op(&sender_id, stream_id, now) {
                    Ok(v) => Ok((0, v)),
                    Err(e) => Err(e),
                }
            },
            AuroraOperationalRequest::Withdraw { stream_id } => {
                match self.withdraw_op(&sender_id, stream_id, now) {
                    Ok(v) => Ok((0, v)),
                    Err(e) => Err(e),
                }
            },
        }
    }
}

} // verus!
