//! Derived, rebuildable counters updated alongside every transition that
//! changes balances or status. Never authoritative: counters saturate instead
//! of failing, and nothing in the engine gates a decision on them.

use vstd::prelude::*;

use crate::primitives::AccountId;
use crate::primitives::Balance;
use crate::primitives::Timestamp;
use crate::table::Table;

verus! {

#[derive(Clone, Copy)]
pub struct TokenStats {
    pub total_deposit: Balance,
    /// Total value currently locked in streams of this asset.
    pub tvl: Balance,
    /// Total paid out to receivers.
    pub transferred: Balance,
    /// Total refunded to owners on stop.
    pub refunded: Balance,
    pub total_commission_collected: Balance,
    pub streams: u32,
    pub active_streams: u32,
}

impl TokenStats {
    pub fn new() -> (r: TokenStats)
        ensures
            r.total_deposit == 0,
            r.tvl == 0,
            r.transferred == 0,
            r.refunded == 0,
            r.total_commission_collected == 0,
            r.streams == 0,
            r.active_streams == 0,
    {
        TokenStats {
            total_deposit: 0,
            tvl: 0,
            transferred: 0,
            refunded: 0,
            total_commission_collected: 0,
            streams: 0,
            active_streams: 0,
        }
    }
}

pub struct Stats {
    pub total_accounts: u32,
    pub total_streams: u32,
    pub total_streams_unlisted: u32,
    pub total_active_streams: u32,
    pub total_aurora_streams: u32,
    pub total_dao_tokens: u32,
    pub total_account_deposit_near: Balance,
    pub total_account_deposit_eth: Balance,
    pub dao_tokens: Table<TokenStats>,
    pub last_update_time: Timestamp,
}

impl Stats {
    pub open spec fn wf(self) -> bool {
        self.dao_tokens.wf()
    }

    pub fn new() -> (r: Stats)
        ensures
            r.wf(),
            r.total_accounts == 0,
            r.total_streams == 0,
            r.total_streams_unlisted == 0,
            r.total_active_streams == 0,
            r.total_aurora_streams == 0,
            r.total_dao_tokens == 0,
            r.total_account_deposit_near == 0,
            r.total_account_deposit_eth == 0,
            r.dao_tokens@ == Map::<Seq<char>, TokenStats>::empty(),
            r.last_update_time == 0,
    {
        Stats {
            total_accounts: 0,
            total_streams: 0,
            total_streams_unlisted: 0,
            total_active_streams: 0,
            total_aurora_streams: 0,
            total_dao_tokens: 0,
            total_account_deposit_near: 0,
            total_account_deposit_eth: 0,
            dao_tokens: Table::new(),
            last_update_time: 0,
        }
    }

    /// The per-asset record under `k`, or a fresh zero record if absent.
    pub open spec fn spec_token_stats(self, k: Seq<char>) -> TokenStats {
        if self.dao_tokens@.dom().contains(k) {
            self.dao_tokens@[k]
        } else {
            TokenStats {
                total_deposit: 0,
                tvl: 0,
                transferred: 0,
                refunded: 0,
                total_commission_collected: 0,
                streams: 0,
                active_streams: 0,
            }
        }
    }

    fn get_or_zero(&self, token_account_id: &AccountId) -> (r: TokenStats)
        requires
            self.wf(),
        ensures
            r == self.spec_token_stats(token_account_id@),
    {
        match self.dao_tokens.get(token_account_id) {
            Some(ts) => *ts,
            None => TokenStats::new(),
        }
    }

    /// Registers an asset in the per-asset table with zeroed counters.
    pub fn add_token(&mut self, token_account_id: &AccountId)
        requires
            old(self).wf(),
        ensures
            final(self).wf(),
            *final(self) == (Stats {
                dao_tokens: final(self).dao_tokens,
                ..*old(self)
            }),
            final(self).dao_tokens@ == old(self).dao_tokens@.insert(
                token_account_id@,
                old(self).spec_token_stats(token_account_id@),
            ),
    {
        let ts = self.get_or_zero(token_account_id);
        self.dao_tokens.insert(token_account_id.clone(), ts);
    }

    /// Counts a created stream, globally and per asset.
    pub fn inc_streams(&mut self, token_account_id: &AccountId, is_aurora: bool, is_listed: bool)
        requires
            old(self).wf(),
        ensures
            final(self).wf(),
            final(self).total_streams == old(self).total_streams.saturating_add(1),
            final(self).total_aurora_streams == if is_aurora {
                old(self).total_aurora_streams.saturating_add(1)
            } else {
                old(self).total_aurora_streams
            },
            final(self).total_streams_unlisted == if !is_listed {
                old(self).total_streams_unlisted.saturating_add(1)
            } else {
                old(self).total_streams_unlisted
            },
            final(self).dao_tokens@ == old(self).dao_tokens@.insert(
                token_account_id@,
                (TokenStats {
                    streams: old(self).spec_token_stats(token_account_id@).streams.saturating_add(
                        1,
                    ),
                    ..old(self).spec_token_stats(token_account_id@)
                }),
            ),
            *final(self) == (Stats {
                total_streams: final(self).total_streams,
                total_aurora_streams: final(self).total_aurora_streams,
                total_streams_unlisted: final(self).total_streams_unlisted,
                dao_tokens: final(self).dao_tokens,
                ..*old(self)
            }),
    {
        self.total_streams = self.total_streams.saturating_add(1);
        if is_aurora {
            self.total_aurora_streams = self.total_aurora_streams.saturating_add(1);
        }
        if !is_listed {
            self.total_streams_unlisted = self.total_streams_unlisted.saturating_add(1);
        }
        let mut ts = self.get_or_zero(token_account_id);
        ts.streams = ts.streams.saturating_add(1);
        self.dao_tokens.insert(token_account_id.clone(), ts);
    }

    /// Counts a stream becoming active.
    pub fn inc_active_streams(&mut self, token_account_id: &AccountId)
        requires
            old(self).wf(),
        ensures
            final(self).wf(),
            final(self).total_active_streams == old(self).total_active_streams.saturating_add(1),
            final(self).dao_tokens@ == old(self).dao_tokens@.insert(
                token_account_id@,
                (TokenStats {
                    active_streams: old(self).spec_token_stats(
                        token_account_id@,
                    ).active_streams.saturating_add(1),
                    ..old(self).spec_token_stats(token_account_id@)
                }),
            ),
            *final(self) == (Stats {
                total_active_streams: final(self).total_active_streams,
                dao_tokens: final(self).dao_tokens,
                ..*old(self)
            }),
    {
        self.total_active_streams = self.total_active_streams.saturating_add(1);
        let mut ts = self.get_or_zero(token_account_id);
        ts.active_streams = ts.active_streams.saturating_add(1);
        self.dao_tokens.insert(token_account_id.clone(), ts);
    }

    /// Counts a stream leaving the active state.
    pub fn dec_active_streams(&mut self, token_account_id: &AccountId)
        requires
            old(self).wf(),
        ensures
            final(self).wf(),
            final(self).total_active_streams == old(self).total_active_streams.saturating_sub(1),
            final(self).dao_tokens@ == old(self).dao_tokens@.insert(
                token_account_id@,
                (TokenStats {
                    active_streams: old(self).spec_token_stats(
                        token_account_id@,
                    ).active_streams.saturating_sub(1),
                    ..old(self).spec_token_stats(token_account_id@)
                }),
            ),
            *final(self) == (Stats {
                total_active_streams: final(self).total_active_streams,
                dao_tokens: final(self).dao_tokens,
                ..*old(self)
            }),
    {
        self.total_active_streams = self.total_active_streams.saturating_sub(1);
        let mut ts = self.get_or_zero(token_account_id);
        ts.active_streams = ts.active_streams.saturating_sub(1);
        self.dao_tokens.insert(token_account_id.clone(), ts);
    }

    /// Accounts a settlement: `payment` paid out and `commission` collected;
    /// both leave the locked value.
    pub fn withdraw(&mut self, token_account_id: &AccountId, payment: Balance, commission: Balance)
        requires
            old(self).wf(),
        ensures
            final(self).wf(),
            final(self).dao_tokens@ == old(self).dao_tokens@.insert(
                token_account_id@,
                (TokenStats {
                    transferred: old(self).spec_token_stats(
                        token_account_id@,
                    ).transferred.saturating_add(payment),
                    total_commission_collected: old(self).spec_token_stats(
                        token_account_id@,
                    ).total_commission_collected.saturating_add(commission),
                    tvl: old(self).spec_token_stats(token_account_id@).tvl.saturating_sub(
                        payment.saturating_add(commission),
                    ),
                    ..old(self).spec_token_stats(token_account_id@)
                }),
            ),
            *final(self) == (Stats {
                dao_tokens: final(self).dao_tokens,
                ..*old(self)
            }),
    {
        let mut ts = self.get_or_zero(token_account_id);
        ts.transferred = ts.transferred.saturating_add(payment);
        ts.total_commission_collected = ts.total_commission_collected.saturating_add(commission);
        ts.tvl = ts.tvl.saturating_sub(payment.saturating_add(commission));
        self.dao_tokens.insert(token_account_id.clone(), ts);
    }

    /// Accounts a refund of remaining principal to the owner.
    pub fn refund(&mut self, token_account_id: &AccountId, amount: Balance)
        requires
            old(self).wf(),
        ensures
            final(self).wf(),
            final(self).dao_tokens@ == old(self).dao_tokens@.insert(
                token_account_id@,
                (TokenStats {
                    refunded: old(self).spec_token_stats(token_account_id@).refunded.saturating_add(
                        amount,
                    ),
                    tvl: old(self).spec_token_stats(token_account_id@).tvl.saturating_sub(amount),
                    ..old(self).spec_token_stats(token_account_id@)
                }),
            ),
            *final(self) == (Stats {
                dao_tokens: final(self).dao_tokens,
                ..*old(self)
            }),
    {
        let mut ts = self.get_or_zero(token_account_id);
        ts.refunded = ts.refunded.saturating_add(amount);
        ts.tvl = ts.tvl.saturating_sub(amount);
        self.dao_tokens.insert(token_account_id.clone(), ts);
    }

    /// Accounts value deposited into a stream, and the creation commission.
    pub fn inc_stream_deposit(
        &mut self,
        token_account_id: &AccountId,
        deposit: Balance,
        commission: Balance,
    )
        requires
            old(self).wf(),
        ensures
            final(self).wf(),
            final(self).dao_tokens@ == old(self).dao_tokens@.insert(
                token_account_id@,
                (TokenStats {
                    total_deposit: old(self).spec_token_stats(
                        token_account_id@,
                    ).total_deposit.saturating_add(deposit),
                    tvl: old(self).spec_token_stats(token_account_id@).tvl.saturating_add(deposit),
                    total_commission_collected: old(self).spec_token_stats(
                        token_account_id@,
                    ).total_commission_collected.saturating_add(commission),
                    ..old(self).spec_token_stats(token_account_id@)
                }),
            ),
            *final(self) == (Stats {
                dao_tokens: final(self).dao_tokens,
                ..*old(self)
            }),
    {
        let mut ts = self.get_or_zero(token_account_id);
        ts.total_deposit = ts.total_deposit.saturating_add(deposit);
        ts.tvl = ts.tvl.saturating_add(deposit);
        ts.total_commission_collected = ts.total_commission_collected.saturating_add(commission);
        self.dao_tokens.insert(token_account_id.clone(), ts);
    }

    /// Accounts a native-currency (or bridged) deposit into an account.
    pub fn inc_account_deposit(&mut self, amount: Balance, is_eth: bool)
        requires
            old(self).wf(),
        ensures
            final(self).wf(),
            final(self).total_account_deposit_near == if !is_eth {
                old(self).total_account_deposit_near.saturating_add(amount)
            } else {
                old(self).total_account_deposit_near
            },
            final(self).total_account_deposit_eth == if is_eth {
                old(self).total_account_deposit_eth.saturating_add(amount)
            } else {
                old(self).total_account_deposit_eth
            },
            *final(self) == (Stats {
                total_account_deposit_near: final(self).total_account_deposit_near,
                total_account_deposit_eth: final(self).total_account_deposit_eth,
                ..*old(self)
            }),
    {
        if is_eth {
            self.total_account_deposit_eth = self.total_account_deposit_eth.saturating_add(amount);
        } else {
            self.total_account_deposit_near = self.total_account_deposit_near.saturating_add(
                amount,
            );
        }
    }

    /// Counts a created account.
    pub fn inc_accounts(&mut self)
        requires
            old(self).wf(),
        ensures
            final(self).wf(),
            final(self).total_accounts == old(self).total_accounts.saturating_add(1),
            *final(self) == (Stats {
                total_accounts: final(self).total_accounts,
                ..*old(self)
            }),
    {
        self.total_accounts = self.total_accounts.saturating_add(1);
    }
}

} // verus!
