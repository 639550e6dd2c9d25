//! The stream entity and its settlement arithmetic: accrual, withdrawal
//! settlement with commission, cliff handling, and natural finishing.

use vstd::prelude::*;
use vstd::arithmetic::div_mod::lemma_div_is_ordered;
use vstd::arithmetic::mul::lemma_mul_inequality;

use crate::primitives::AccountId;
use crate::primitives::Balance;
use crate::primitives::StreamFinishReason;
use crate::primitives::StreamId;
use crate::primitives::StreamStatus;
use crate::primitives::Timestamp;
use crate::primitives::MAX_AMOUNT;
use crate::primitives::MAX_STREAMING_SPEED;
use crate::primitives::MIN_STREAMING_SPEED;
use crate::primitives::TICKS_PER_SECOND;
use crate::token::Token;

verus! {

pub struct Stream {
    pub id: StreamId,
    pub description: Option<String>,
    pub creator_id: AccountId,
    pub owner_id: AccountId,
    pub receiver_id: AccountId,
    pub token_account_id: AccountId,
    pub timestamp_created: Timestamp,
    /// The last point up to which accrual was settled; non-decreasing.
    pub last_action: Timestamp,
    /// Remaining undistributed principal.
    pub balance: Balance,
    /// Accrual rate per second.
    pub tokens_per_sec: Balance,
    pub status: StreamStatus,
    /// Everything that ever left `balance` through settlement; non-decreasing.
    pub tokens_total_withdrawn: Balance,
    /// Before this moment ordinary withdrawal is disabled; cleared once
    /// passed, never to reappear.
    pub cliff: Option<Timestamp>,
    /// An expirable stream is force-finished when a deposit races with its
    /// natural expiry.
    pub is_expirable: bool,
    /// A locked stream cannot be paused, stopped mid-flight or transferred;
    /// its whole lifetime commission is charged up front.
    pub is_locked: bool,
}

impl Clone for Stream {
    fn clone(&self) -> (res: Self)
        ensures
            res == *self,
    {
        Stream {
            id: self.id,
            description: match &self.description {
                Some(d) => Some(d.clone()),
                None => None,
            },
            creator_id: self.creator_id.clone(),
            owner_id: self.owner_id.clone(),
            receiver_id: self.receiver_id.clone(),
            token_account_id: self.token_account_id.clone(),
            timestamp_created: self.timestamp_created,
            last_action: self.last_action,
            balance: self.balance,
            tokens_per_sec: self.tokens_per_sec,
            status: self.status,
            tokens_total_withdrawn: self.tokens_total_withdrawn,
            cliff: self.cliff,
            is_expirable: self.is_expirable,
            is_locked: self.is_locked,
        }
    }
}

impl Stream {
    /// Bounds every settlement computation: the principal never exceeds the
    /// global cap, the rate is in range, and the lifetime total fits.
    pub open spec fn wf(self) -> bool {
        &&& self.balance <= MAX_AMOUNT
        &&& MIN_STREAMING_SPEED <= self.tokens_per_sec <= MAX_STREAMING_SPEED
        &&& self.tokens_total_withdrawn + self.balance <= u128::MAX
    }

    #[allow(clippy::too_many_arguments)]
    pub fn new(
        id: StreamId,
        description: Option<String>,
        creator_id: AccountId,
        owner_id: AccountId,
        receiver_id: AccountId,
        token_account_id: AccountId,
        balance: Balance,
        tokens_per_sec: Balance,
        cliff: Option<Timestamp>,
        is_expirable: bool,
        is_locked: bool,
        now: Timestamp,
    ) -> (r: Stream)
        requires
            balance <= MAX_AMOUNT,
            MIN_STREAMING_SPEED <= tokens_per_sec <= MAX_STREAMING_SPEED,
        ensures
            r.wf(),
            r.id == id,
            r.description == description,
            r.creator_id@ == creator_id@,
            r.owner_id@ == owner_id@,
            r.receiver_id@ == receiver_id@,
            r.token_account_id@ == token_account_id@,
            r.timestamp_created == now,
            r.last_action == now,
            r.balance == balance,
            r.tokens_per_sec == tokens_per_sec,
            r.status == StreamStatus::Initialized,
            r.tokens_total_withdrawn == 0,
            r.cliff == cliff,
            r.is_expirable == is_expirable,
            r.is_locked == is_locked,
    {
        Stream {
            id,
            description,
            creator_id,
            owner_id,
            receiver_id,
            token_account_id,
            timestamp_created: now,
            last_action: now,
            balance,
            tokens_per_sec,
            status: StreamStatus::Initialized,
            tokens_total_withdrawn: 0,
            cliff,
            is_expirable,
            is_locked,
        }
    }

    /// What has accrued and can leave the stream at `now`: zero unless
    /// active, otherwise whole elapsed seconds times the rate, capped by the
    /// remaining principal.
    pub open spec fn spec_available(self, now: Timestamp) -> int {
        if self.status is Active {
            let accrued = ((now - self.last_action) / (TICKS_PER_SECOND as int))
                * self.tokens_per_sec;
            if self.balance <= accrued {
                self.balance as int
            } else {
                accrued
            }
        } else {
            0
        }
    }

    pub proof fn lemma_available_bounds(self, now: Timestamp)
        requires
            self.wf(),
            self.last_action <= now,
        ensures
            0 <= self.spec_available(now) <= self.balance,
    {
        if self.status is Active {
            let periods = (now - self.last_action) / (TICKS_PER_SECOND as int);
            assert(periods >= 0) by {
                vstd::arithmetic::div_mod::lemma_div_pos_is_pos(
                    now - self.last_action,
                    TICKS_PER_SECOND as int,
                );
            }
            vstd::arithmetic::mul::lemma_mul_nonnegative(periods, self.tokens_per_sec as int);
        }
    }

    pub fn available_to_withdraw(&self, now: Timestamp) -> (r: Balance)
        requires
            self.wf(),
            self.last_action <= now,
        ensures
            r == self.spec_available(now),
            r <= self.balance,
    {
        proof {
            self.lemma_available_bounds(now);
        }
        if self.status == (StreamStatus::Active) {
            let period = now - self.last_action;
            let periods: u64 = period / TICKS_PER_SECOND;
            proof {
                lemma_div_is_ordered(
                    period as int,
                    u64::MAX as int,
                    TICKS_PER_SECOND as int,
                );
                lemma_mul_inequality(
                    periods as int,
                    (u64::MAX / TICKS_PER_SECOND) as int,
                    self.tokens_per_sec as int,
                );
                lemma_mul_inequality(
                    self.tokens_per_sec as int,
                    MAX_STREAMING_SPEED as int,
                    (u64::MAX / TICKS_PER_SECOND) as int,
                );
                vstd::arithmetic::mul::lemma_mul_is_commutative(
                    (u64::MAX / TICKS_PER_SECOND) as int,
                    self.tokens_per_sec as int,
                );
            }
            let accrued: u128 = (periods as u128) * self.tokens_per_sec;
            if self.balance <= accrued {
                self.balance
            } else {
                accrued
            }
        } else {
            0
        }
    }

    /// The stream after cliff maintenance at `now`: a reached cliff is
    /// cleared, anything else is untouched.
    pub open spec fn spec_update_cliff(self, now: Timestamp) -> Stream {
        if self.cliff is Some && now >= self.cliff->0 {
            Stream { cliff: None, ..self }
        } else {
            self
        }
    }

    /// Clears the cliff once its moment has passed. Must run before any
    /// availability or withdrawal check; once cleared the cliff never
    /// reappears.
    pub fn update_cliff(&mut self, now: Timestamp)
        ensures
            *final(self) == old(self).spec_update_cliff(now),
    {
        match self.cliff {
            Some(cliff) => {
                if now >= cliff {
                    self.cliff = None;
                }
            },
            None => {},
        }
    }

    /// Settlement is idempotent on the cliff: clearing it twice at one moment
    /// is the same as clearing it once.
    pub proof fn lemma_update_cliff_idempotent(self, now: Timestamp)
        ensures
            self.spec_update_cliff(now).spec_update_cliff(now) == self.spec_update_cliff(now),
    {
    }

    /// The `(stream, payment, commission)` outcome of settling at `now`:
    /// the accrued amount is split into receiver payment and protocol
    /// commission; during a cliff only the commission part is realized; a
    /// locked stream reports zero commission (it was charged up front); a
    /// drained stream finishes naturally; `last_action` always advances.
    pub open spec fn spec_settled(self, token: Token, now: Timestamp) -> (Stream, int, int) {
        let avail = self.spec_available(now);
        let com0 = if token.is_payment {
            token.spec_commission(avail)
        } else {
            0
        };
        let pay0 = avail - com0;
        let payment = if self.cliff is Some {
            0
        } else {
            pay0
        };
        let gross = if self.cliff is Some {
            com0
        } else {
            avail
        };
        let commission = if self.is_locked {
            0
        } else {
            com0
        };
        let balance2 = self.balance - gross;
        let stream2 = Stream {
            tokens_total_withdrawn: (self.tokens_total_withdrawn + gross) as u128,
            balance: balance2 as u128,
            status: if balance2 == 0 {
                StreamStatus::Finished { reason: StreamFinishReason::FinishedNaturally }
            } else {
                self.status
            },
            last_action: now,
            ..self
        };
        (stream2, payment, commission)
    }

    /// Computes the accrued amount, splits it into payment and commission,
    /// and advances the stream's bookkeeping, exactly as `spec_settled`
    /// states. Settled value moves from `balance` to `tokens_total_withdrawn`
    /// and their sum is conserved; the total withdrawn never decreases.
    pub fn process_withdraw(&mut self, token: &Token, now: Timestamp) -> (r: (Balance, Balance))
        requires
            old(self).wf(),
            token.wf(),
            old(self).last_action <= now,
        ensures
            *final(self) == old(self).spec_settled(*token, now).0,
            r.0 == old(self).spec_settled(*token, now).1,
            r.1 == old(self).spec_settled(*token, now).2,
            final(self).wf(),
            final(self).tokens_total_withdrawn + final(self).balance == old(
                self,
            ).tokens_total_withdrawn + old(self).balance,
            final(self).tokens_total_withdrawn >= old(self).tokens_total_withdrawn,
            r.0 + r.1 <= old(self).spec_available(now),
    {
        proof {
            old(self).lemma_available_bounds(now);
        }
        let mut gross_payment = self.available_to_withdraw(now);
        let (mut payment, mut commission) = if token.is_payment {
            self.token_commission(token, gross_payment)
        } else {
            (gross_payment, 0)
        };
        if self.cliff.is_some() {
            payment = 0;
            gross_payment = commission;
        }
        self.tokens_total_withdrawn = self.tokens_total_withdrawn + gross_payment;
        if self.is_locked {
            // The commission was already taken in full when the stream
            // started.
            commission = 0;
        }
        self.balance = self.balance - gross_payment;
        if self.balance == 0 {
            self.status = StreamStatus::Finished { reason: StreamFinishReason::FinishedNaturally };
        }
        self.last_action = now;
        (payment, commission)
    }

    /// Applies the token's commission split to an accrued amount.
    fn token_commission(&self, token: &Token, amount: Balance) -> (r: (Balance, Balance))
        requires
            self.wf(),
            token.wf(),
            amount <= self.balance,
        ensures
            r.1 == token.spec_commission(amount as int),
            r.0 + r.1 == amount,
            r.1 <= amount,
    {
        proof {
            crate::safe_float::lemma_commission_at_most_one(token.commission_coef);
        }
        token.apply_commission(amount)
    }
}

/// The versioned persistence wrapper of a stream record.
pub enum VStream {
    Current(Stream),
}

impl VStream {
    pub fn from(stream: Stream) -> (r: VStream)
        ensures
            r matches VStream::Current(s) && s == stream,
    {
        VStream::Current(stream)
    }

    pub fn into_stream(self) -> (r: Stream)
        ensures
            self matches VStream::Current(s) && r == s,
    {
        match self {
            VStream::Current(s) => s,
        }
    }
}

/// A plain, serialization-ready image of a stream.
pub struct StreamView {
    pub id: StreamId,
    pub description: Option<String>,
    pub creator_id: AccountId,
    pub owner_id: AccountId,
    pub receiver_id: AccountId,
    pub token_account_id: AccountId,
    pub timestamp_created: Timestamp,
    pub last_action: Timestamp,
    pub balance: Balance,
    pub tokens_per_sec: Balance,
    pub status: StreamStatus,
    pub tokens_total_withdrawn: Balance,
    pub cliff: Option<Timestamp>,
    pub is_expirable: bool,
    pub is_locked: bool,
}

impl StreamView {
    /// Whether this view images `s` field for field.
    pub open spec fn images(self, s: Stream) -> bool {
        &&& self.id == s.id
        &&& self.description == s.description
        &&& self.creator_id@ == s.creator_id@
        &&& self.owner_id@ == s.owner_id@
        &&& self.receiver_id@ == s.receiver_id@
        &&& self.token_account_id@ == s.token_account_id@
        &&& self.timestamp_created == s.timestamp_created
        &&& self.last_action == s.last_action
        &&& self.balance == s.balance
        &&& self.tokens_per_sec == s.tokens_per_sec
        &&& self.status == s.status
        &&& self.tokens_total_withdrawn == s.tokens_total_withdrawn
        &&& self.cliff == s.cliff
        &&& self.is_expirable == s.is_expirable
        &&& self.is_locked == s.is_locked
    }

    pub fn from(stream: &Stream) -> (r: StreamView)
        ensures
            r.images(*stream),
    {
        let s = stream.clone();
        StreamView {
            id: s.id,
            description: s.description,
            creator_id: s.creator_id,
            owner_id: s.owner_id,
            receiver_id: s.receiver_id,
            token_account_id: s.token_account_id,
            timestamp_created: s.timestamp_created,
            last_action: s.last_action,
            balance: s.balance,
            tokens_per_sec: s.tokens_per_sec,
            status: s.status,
            tokens_total_withdrawn: s.tokens_total_withdrawn,
            cliff: s.cliff,
            is_expirable: s.is_expirable,
            is_locked: s.is_locked,
        }
    }
}

} // verus!
