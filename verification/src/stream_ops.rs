//! The action state machine. Every lifecycle transition of a stream funnels
//! through `process_action`, which drives the stream, both parties' account
//! indices and the statistics in lockstep, so that the account-index
//! invariant is preserved at every step.

use vstd::prelude::*;

use crate::account::tally_add;
use crate::account::tally_of;
use crate::account::tally_sub;
use crate::account::Account;
use crate::contract::stream_indexed;
use crate::contract::Contract;
use crate::dao::Dao;
use crate::err::ContractError;
use crate::primitives::check_integrity;
use crate::primitives::AccountId;
use crate::primitives::ActionType;
use crate::primitives::Balance;
use crate::primitives::MAX_AMOUNT;
use crate::primitives::MAX_STREAMING_SPEED;
use crate::primitives::TICKS_PER_SECOND;
use crate::primitives::StreamFinishReason;
use crate::primitives::StreamId;
use crate::primitives::StreamStatus;
use crate::primitives::Timestamp;
use crate::stats::Stats;
use crate::stats::TokenStats;
use crate::stream::Stream;
use crate::transfer::spec_finance_transfer;
use crate::transfer::Instruction;

verus! {

/// Whether the asset `k` is registered and accepted as payment.
pub open spec fn dao_is_listed(dao: Dao, k: Seq<char>) -> bool {
    dao.tokens@.dom().contains(k) && dao.tokens@[k].is_payment
}

/// The commission the registry charges on a settled amount of asset `k`:
/// zero for unlisted assets.
pub open spec fn dao_commission(dao: Dao, k: Seq<char>, amount: int) -> int {
    if dao_is_listed(dao, k) {
        dao.tokens@[k].spec_commission(amount)
    } else {
        0
    }
}

/// The `(stream, payment, commission)` outcome of settling `s` at `now`
/// under the registry's current policy for its asset; equals
/// `Stream::spec_settled` applied to the freshly fetched token entry.
pub open spec fn spec_settled_dao(s: Stream, dao: Dao, now: Timestamp) -> (Stream, int, int) {
    let avail = s.spec_available(now);
    let com0 = dao_commission(dao, s.token_account_id@, avail);
    let pay0 = avail - com0;
    let payment = if s.cliff is Some {
        0
    } else {
        pay0
    };
    let gross = if s.cliff is Some {
        com0
    } else {
        avail
    };
    let commission = if s.is_locked {
        0
    } else {
        com0
    };
    let balance2 = s.balance - gross;
    let stream2 = Stream {
        tokens_total_withdrawn: (s.tokens_total_withdrawn + gross) as u128,
        balance: balance2 as u128,
        status: if balance2 == 0 {
            StreamStatus::Finished { reason: StreamFinishReason::FinishedNaturally }
        } else {
            s.status
        },
        last_action: now,
        ..s
    };
    (stream2, payment, commission)
}

/// Fetching the token entry and settling against it agrees with the
/// dao-level settle specification.
proof fn lemma_settled_dao(s: Stream, dao: Dao, token: crate::token::Token, now: Timestamp)
    requires
        dao.tokens@.dom().contains(s.token_account_id@) ==> token == dao.tokens@.index(
            s.token_account_id@,
        ),
        !dao.tokens@.dom().contains(s.token_account_id@) ==> token.is_unlisted_for(
            s.token_account_id@,
        ),
    ensures
        s.spec_settled(token, now) == spec_settled_dao(s, dao, now),
{
    let avail = s.spec_available(now);
    if !dao_is_listed(dao, s.token_account_id@) {
        if !token.is_payment {
        } else {
            assert(token.spec_commission(avail) == dao_commission(dao, s.token_account_id@, avail))
                by {
                assert(false);
            }
        }
        if token.is_payment {
        } else {
            assert((if token.is_payment {
                token.spec_commission(avail)
            } else {
                0
            }) == 0);
        }
    }
}

/// `post.stats` is `pre.stats` after accounting a settlement of `pay` paid
/// out and `com` collected on asset `k`.
pub open spec fn stats_withdraw_applied(
    pre: Stats,
    post: Stats,
    k: Seq<char>,
    pay: int,
    com: int,
) -> bool {
    &&& post.dao_tokens@ == pre.dao_tokens@.insert(
        k,
        TokenStats {
            transferred: pre.spec_token_stats(k).transferred.saturating_add(pay as u128),
            total_commission_collected: pre.spec_token_stats(
                k,
            ).total_commission_collected.saturating_add(com as u128),
            tvl: pre.spec_token_stats(k).tvl.saturating_sub(
                (pay as u128).saturating_add(com as u128),
            ),
            ..pre.spec_token_stats(k)
        },
    )
    &&& post == (Stats { dao_tokens: post.dao_tokens, ..pre })
}

impl Contract {
    /// Settles the stream, credits the receiver's received tally, accounts
    /// the settlement in statistics, and returns the payment instruction
    /// owed to the receiver (none when nothing is due).
    pub(crate) fn process_payment(
        &mut self,
        stream: &mut Stream,
        account: &mut Account,
        now: Timestamp,
    ) -> (r: Result<Option<Instruction>, ContractError>)
        requires
            old(self).dao.wf(),
            old(self).stats.wf(),
            old(stream).wf(),
            old(account).wf(),
            old(stream).last_action <= now,
        ensures
            r is Ok,
            *final(stream) == spec_settled_dao(*old(stream), old(self).dao, now).0,
            final(stream).wf(),
            final(stream).tokens_total_withdrawn + final(stream).balance == old(
                stream,
            ).tokens_total_withdrawn + old(stream).balance,
            final(stream).tokens_total_withdrawn >= old(stream).tokens_total_withdrawn,
            final(account).wf(),
            *final(account) == (Account {
                total_received: final(account).total_received,
                ..*old(account)
            }),
            final(account).total_received@ == old(account).total_received@.insert(
                old(stream).token_account_id@,
                (tally_of(old(account).total_received@, old(stream).token_account_id@)
                    as u128).saturating_add(
                    spec_settled_dao(*old(stream), old(self).dao, now).1 as u128,
                ),
            ),
            final(self).stats.wf(),
            stats_withdraw_applied(
                old(self).stats,
                final(self).stats,
                old(stream).token_account_id@,
                spec_settled_dao(*old(stream), old(self).dao, now).1,
                spec_settled_dao(*old(stream), old(self).dao, now).2,
            ),
            *final(self) == (Contract { stats: final(self).stats, ..*old(self) }),
            r matches Ok(i) && spec_finance_transfer(
                old(self).finance_id@,
                old(stream).token_account_id@,
                old(stream).receiver_id@,
                spec_settled_dao(*old(stream), old(self).dao, now).1,
                i,
            ),
    {
        let token = self.dao.get_token(&stream.token_account_id);
        proof {
            lemma_settled_dao(*stream, self.dao, token, now);
        }
        let (payment, commission) = stream.process_withdraw(&token, now);
        tally_add(&mut account.total_received, &stream.token_account_id, payment);
        self.stats.withdraw(&stream.token_account_id, payment, commission);
        self.ft_transfer_from_finance(
            token.account_id,
            stream.receiver_id.clone(),
            payment,
        )
    }
}

/// `post.stats` is `pre.stats` after accounting a refund of `amount` on
/// asset `k`.
pub open spec fn stats_refund_applied(pre: Stats, post: Stats, k: Seq<char>, amount: int) -> bool {
    &&& post.dao_tokens@ == pre.dao_tokens@.insert(
        k,
        TokenStats {
            refunded: pre.spec_token_stats(k).refunded.saturating_add(amount as u128),
            tvl: pre.spec_token_stats(k).tvl.saturating_sub(amount as u128),
            ..pre.spec_token_stats(k)
        },
    )
    &&& post == (Stats { dao_tokens: post.dao_tokens, ..pre })
}

impl Contract {
    /// Returns the whole remaining principal to the owner: the balance drops
    /// to zero, the refund is accounted, and the refund instruction (if any)
    /// is returned.
    pub(crate) fn process_refund(&mut self, stream: &mut Stream) -> (r: Result<
        Option<Instruction>,
        ContractError,
    >)
        requires
            old(self).dao.wf(),
            old(self).stats.wf(),
            old(stream).wf(),
        ensures
            r is Ok,
            *final(stream) == (Stream { balance: 0, ..*old(stream) }),
            final(stream).wf(),
            final(self).stats.wf(),
            stats_refund_applied(
                old(self).stats,
                final(self).stats,
                old(stream).token_account_id@,
                old(stream).balance as int,
            ),
            *final(self) == (Contract { stats: final(self).stats, ..*old(self) }),
            r matches Ok(i) && spec_finance_transfer(
                old(self).finance_id@,
                old(stream).token_account_id@,
                old(stream).owner_id@,
                old(stream).balance as int,
                i,
            ),
    {
        let token = self.dao.get_token(&stream.token_account_id);
        let refund = stream.balance;
        stream.balance = 0;
        self.stats.refund(&stream.token_account_id, refund);
        self.ft_transfer_from_finance(token.account_id, stream.owner_id.clone(), refund)
    }
}

/// A set that may differ from `s0` only in whether it holds `id`.
pub open spec fn set_step(s1: Set<StreamId>, s0: Set<StreamId>, id: StreamId) -> bool {
    s1 == s0 || s1 == s0.insert(id) || s1 == s0.remove(id)
}

/// Re-establishes the account-index invariant after one transition: the
/// stream `s1` replaces the entry under its id, only the owner's outgoing
/// sets and the receiver's incoming sets changed (and only at this id), and
/// the new memberships match the new status.
pub proof fn lemma_index_update(
    pre: Contract,
    post: Contract,
    m_pre: Map<StreamId, Stream>,
    s1: Stream,
)
    requires
        pre.index_ok_for(m_pre),
        s1.owner_id@ != s1.receiver_id@,
        s1.wf(),
        pre.accounts@.dom().contains(s1.owner_id@),
        pre.accounts@.dom().contains(s1.receiver_id@),
        m_pre.dom().contains(s1.id) ==> m_pre[s1.id].owner_id@ == s1.owner_id@
            && m_pre[s1.id].receiver_id@ == s1.receiver_id@,
        post.accounts@ == pre.accounts@.insert(
            s1.owner_id@,
            post.accounts@.index(s1.owner_id@),
        ).insert(s1.receiver_id@, post.accounts@.index(s1.receiver_id@)),
        stream_indexed(
            post.accounts@.index(s1.owner_id@),
            post.accounts@.index(s1.receiver_id@),
            s1,
        ),
        set_step(
            post.accounts@.index(s1.owner_id@).active_outgoing_streams@,
            pre.accounts@.index(s1.owner_id@).active_outgoing_streams@,
            s1.id,
        ),
        set_step(
            post.accounts@.index(s1.owner_id@).inactive_outgoing_streams@,
            pre.accounts@.index(s1.owner_id@).inactive_outgoing_streams@,
            s1.id,
        ),
        set_step(
            post.accounts@.index(s1.receiver_id@).active_incoming_streams@,
            pre.accounts@.index(s1.receiver_id@).active_incoming_streams@,
            s1.id,
        ),
        set_step(
            post.accounts@.index(s1.receiver_id@).inactive_incoming_streams@,
            pre.accounts@.index(s1.receiver_id@).inactive_incoming_streams@,
            s1.id,
        ),
        post.accounts@.index(s1.owner_id@).active_incoming_streams@ == pre.accounts@.index(
            s1.owner_id@,
        ).active_incoming_streams@,
        post.accounts@.index(s1.owner_id@).inactive_incoming_streams@ == pre.accounts@.index(
            s1.owner_id@,
        ).inactive_incoming_streams@,
        post.accounts@.index(s1.receiver_id@).active_outgoing_streams@ == pre.accounts@.index(
            s1.receiver_id@,
        ).active_outgoing_streams@,
        post.accounts@.index(s1.receiver_id@).inactive_outgoing_streams@ == pre.accounts@.index(
            s1.receiver_id@,
        ).inactive_outgoing_streams@,
    ensures
        post.index_ok_for(m_pre.insert(s1.id, s1)),
{
    let id = s1.id;
    let ow = s1.owner_id@;
    let re = s1.receiver_id@;
    let m2 = m_pre.insert(id, s1);
    let a0 = pre.accounts@[ow];
    let b0 = pre.accounts@[re];
    let a1 = post.accounts@[ow];
    let b1 = post.accounts@[re];
    // Forward: every stream entry of m2 is correctly indexed.
    assert forall|id2: StreamId| #[trigger] m2.dom().contains(id2) implies post.stream_entry_ok(
        m2,
        id2,
    ) by {
        if id2 == id {
            assert(m2[id2] == s1);
        } else {
            let s = m2[id2];
            assert(m_pre.dom().contains(id2));
            assert(m_pre[id2] == s);
            assert(pre.stream_entry_ok(m_pre, id2));
            let ok = s.owner_id@;
            let rk = s.receiver_id@;
            assert(post.accounts@.dom().contains(ok));
            assert(post.accounts@.dom().contains(rk));
            // Membership of id2 in any party's sets is unchanged.
            if ok == ow {
                assert(a1.active_outgoing_streams@.contains(id2) == a0.active_outgoing_streams@
                    .contains(id2));
                assert(a1.inactive_outgoing_streams@.contains(id2) == a0.inactive_outgoing_streams@
                    .contains(id2));
            } else if ok == re {
                assert(post.accounts@[ok] == b1);
            } else {
                assert(post.accounts@[ok] == pre.accounts@[ok]);
            }
            if rk == ow {
                assert(post.accounts@[rk] == a1);
            } else if rk == re {
                assert(b1.active_incoming_streams@.contains(id2) == b0.active_incoming_streams@
                    .contains(id2));
                assert(b1.inactive_incoming_streams@.contains(id2) == b0.inactive_incoming_streams@
                    .contains(id2));
            } else {
                assert(post.accounts@[rk] == pre.accounts@[rk]);
            }
        }
    }
    // Backward: every indexed id points to a matching stream of m2.
    assert forall|k: Seq<char>, id2: StreamId|
        post.accounts@.dom().contains(k) && #[trigger] post.accounts@.index(
            k,
        ).active_outgoing_streams@.contains(id2) implies m2.dom().contains(id2) && m2[
        id2
    ].owner_id@ == k && m2[id2].status is Active by {
        if id2 == id {
            if k != ow {
                if k == re {
                    assert(b0.active_outgoing_streams@.contains(id));
                } else {
                    assert(post.accounts@[k] == pre.accounts@[k]);
                    assert(pre.accounts@[k].active_outgoing_streams@.contains(id));
                }
                assert(m_pre.dom().contains(id) && m_pre[id].owner_id@ == k);
                assert(false);
            }
            assert(stream_indexed(a1, b1, s1));
            if !(s1.status is Active) {
                assert(!a1.active_outgoing_streams@.contains(id));
                assert(false);
            }
        } else {
            if k == ow {
                assert(a0.active_outgoing_streams@.contains(id2));
            } else if k == re {
                assert(b0.active_outgoing_streams@.contains(id2));
            } else {
                assert(post.accounts@[k] == pre.accounts@[k]);
                assert(pre.accounts@[k].active_outgoing_streams@.contains(id2));
            }
            assert(m_pre.dom().contains(id2) && m_pre[id2].owner_id@ == k && m_pre[
                id2
            ].status is Active);
        }
    }
    assert forall|k: Seq<char>, id2: StreamId|
        post.accounts@.dom().contains(k) && #[trigger] post.accounts@.index(
            k,
        ).inactive_outgoing_streams@.contains(id2) implies m2.dom().contains(id2) && m2[
        id2
    ].owner_id@ == k && (m2[id2].status is Initialized || m2[id2].status is Paused) by {
        if id2 == id {
            if k != ow {
                if k == re {
                    assert(b0.inactive_outgoing_streams@.contains(id));
                } else {
                    assert(post.accounts@[k] == pre.accounts@[k]);
                    assert(pre.accounts@[k].inactive_outgoing_streams@.contains(id));
                }
                assert(m_pre.dom().contains(id) && m_pre[id].owner_id@ == k);
                assert(false);
            }
            assert(stream_indexed(a1, b1, s1));
            if !(s1.status is Initialized || s1.status is Paused) {
                assert(!a1.inactive_outgoing_streams@.contains(id));
                assert(false);
            }
        } else {
            if k == ow {
                assert(a0.inactive_outgoing_streams@.contains(id2));
            } else if k == re {
                assert(b0.inactive_outgoing_streams@.contains(id2));
            } else {
                assert(post.accounts@[k] == pre.accounts@[k]);
                assert(pre.accounts@[k].inactive_outgoing_streams@.contains(id2));
            }
            assert(m_pre.dom().contains(id2) && m_pre[id2].owner_id@ == k && (m_pre[
                id2
            ].status is Initialized || m_pre[id2].status is Paused));
        }
    }
    assert forall|k: Seq<char>, id2: StreamId|
        post.accounts@.dom().contains(k) && #[trigger] post.accounts@.index(
            k,
        ).active_incoming_streams@.contains(id2) implies m2.dom().contains(id2) && m2[
        id2
    ].receiver_id@ == k && m2[id2].status is Active by {
        if id2 == id {
            if k != re {
                if k == ow {
                    assert(a0.active_incoming_streams@.contains(id));
                } else {
                    assert(post.accounts@[k] == pre.accounts@[k]);
                    assert(pre.accounts@[k].active_incoming_streams@.contains(id));
                }
                assert(m_pre.dom().contains(id) && m_pre[id].receiver_id@ == k);
                assert(false);
            }
            assert(stream_indexed(a1, b1, s1));
            if !(s1.status is Active) {
                assert(!b1.active_incoming_streams@.contains(id));
                assert(false);
            }
        } else {
            if k == re {
                assert(b0.active_incoming_streams@.contains(id2));
            } else if k == ow {
                assert(a0.active_incoming_streams@.contains(id2));
            } else {
                assert(post.accounts@[k] == pre.accounts@[k]);
                assert(pre.accounts@[k].active_incoming_streams@.contains(id2));
            }
            assert(m_pre.dom().contains(id2) && m_pre[id2].receiver_id@ == k && m_pre[
                id2
            ].status is Active);
        }
    }
    assert forall|k: Seq<char>, id2: StreamId|
        post.accounts@.dom().contains(k) && #[trigger] post.accounts@.index(
            k,
        ).inactive_incoming_streams@.contains(id2) implies m2.dom().contains(id2) && m2[
        id2
    ].receiver_id@ == k && (m2[id2].status is Initialized || m2[id2].status is Paused) by {
        if id2 == id {
            if k != re {
                if k == ow {
                    assert(a0.inactive_incoming_streams@.contains(id));
                } else {
                    assert(post.accounts@[k] == pre.accounts@[k]);
                    assert(pre.accounts@[k].inactive_incoming_streams@.contains(id));
                }
                assert(m_pre.dom().contains(id) && m_pre[id].receiver_id@ == k);
                assert(false);
            }
            assert(stream_indexed(a1, b1, s1));
            if !(s1.status is Initialized || s1.status is Paused) {
                assert(!b1.inactive_incoming_streams@.contains(id));
                assert(false);
            }
        } else {
            if k == re {
                assert(b0.inactive_incoming_streams@.contains(id2));
            } else if k == ow {
                assert(a0.inactive_incoming_streams@.contains(id2));
            } else {
                assert(post.accounts@[k] == pre.accounts@[k]);
                assert(pre.accounts@[k].inactive_incoming_streams@.contains(id2));
            }
            assert(m_pre.dom().contains(id2) && m_pre[id2].receiver_id@ == k && (m_pre[
                id2
            ].status is Initialized || m_pre[id2].status is Paused));
        }
    }
}

impl Contract {
    /// Preconditions shared by every action: well-formed state, distinct
    /// parties both on record, a fresh settlement time, and the stream
    /// extracted from (or not yet in) the stream store.
    pub open spec fn action_pre(self, s0: Stream, now: Timestamp) -> bool {
        &&& self.wf_base()
        &&& s0.wf()
        &&& s0.last_action <= now
        &&& s0.owner_id@ != s0.receiver_id@
        &&& self.accounts@.dom().contains(s0.owner_id@)
        &&& self.accounts@.dom().contains(s0.receiver_id@)
        &&& !self.streams@.dom().contains(s0.id)
    }

    /// Postconditions shared by every action: the state is well-formed again
    /// once the transitioned stream is reinserted under its unchanged id.
    pub open spec fn action_post(self, post: Contract, s0: Stream, s1: Stream) -> bool {
        &&& post.wf_base()
        &&& post.index_ok_for(post.streams@.insert(s1.id, s1))
        &&& post.streams == self.streams
        &&& post.dao == self.dao
        &&& post.finance_id == self.finance_id
        &&& post == (Contract {
            accounts: post.accounts,
            stats: post.stats,
            ..self
        })
        &&& s1.id == s0.id
        &&& s1.owner_id == s0.owner_id
        &&& s1.receiver_id == s0.receiver_id
        &&& s1.token_account_id == s0.token_account_id
        &&& s1.wf()
    }
}

/// Registration of a freshly created stream: the id enters both parties'
/// inactive sets; nothing else moves.
pub open spec fn init_applied(
    pre: Contract,
    post: Contract,
    s0: Stream,
    s1: Stream,
    now: Timestamp,
) -> bool {
    let id = s0.id;
    let ow = s0.owner_id@;
    let re = s0.receiver_id@;
    let a0 = pre.accounts@[ow];
    let b0 = pre.accounts@[re];
    let a1 = post.accounts@[ow];
    let b1 = post.accounts@[re];
    &&& s1 == (Stream { last_action: now, ..s0 })
    &&& post.accounts@ == pre.accounts@.insert(ow, a1).insert(re, b1)
    &&& a1 == (Account { inactive_outgoing_streams: a1.inactive_outgoing_streams, ..a0 })
    &&& a1.inactive_outgoing_streams@ == a0.inactive_outgoing_streams@.insert(id)
    &&& b1 == (Account { inactive_incoming_streams: b1.inactive_incoming_streams, ..b0 })
    &&& b1.inactive_incoming_streams@ == b0.inactive_incoming_streams@.insert(id)
    &&& post.stats == pre.stats
}

impl Contract {
    fn apply_init(&mut self, stream: &mut Stream, now: Timestamp) -> (r: Result<
        Vec<Instruction>,
        ContractError,
    >)
        requires
            old(self).action_pre(*old(stream), now),
            old(self).index_ok_for(old(self).streams@),
            old(stream).status is Initialized,
        ensures
            r is Ok,
            r matches Ok(v) ==> v@.len() == 0,
            init_applied(*old(self), *final(self), *old(stream), *final(stream), now),
            old(self).action_post(*final(self), *old(stream), *final(stream)),
    {
        let ghost pre = *self;
        let ghost s0 = *stream;
        let ghost id = s0.id;
        let ghost ow = s0.owner_id@;
        let ghost re = s0.receiver_id@;
        proof {
            // A fresh stream id is indexed nowhere: any membership would
            // point back to an entry of the stream store.
            assert(!pre.accounts@.index(ow).active_outgoing_streams@.contains(id));
            assert(!pre.accounts@.index(ow).inactive_outgoing_streams@.contains(id));
            assert(!pre.accounts@.index(re).active_incoming_streams@.contains(id));
            assert(!pre.accounts@.index(re).inactive_incoming_streams@.contains(id));
        }
        let mut owner = match self.extract_account(&stream.owner_id) {
            Ok(a) => a,
            Err(e) => {
                proof {
                    assert(false);
                }
                return Err(e);
            },
        };
        let mut receiver = match self.extract_account(&stream.receiver_id) {
            Ok(a) => a,
            Err(e) => {
                proof {
                    assert(false);
                }
                return Err(e);
            },
        };
        check_integrity(owner.inactive_outgoing_streams.insert(stream.id))?;
        check_integrity(receiver.inactive_incoming_streams.insert(stream.id))?;
        stream.last_action = now;
        self.save_account(owner)?;
        self.save_account(receiver)?;
        proof {
            let post = *self;
            let s1 = *stream;
            assert(post.accounts@ =~= pre.accounts@.insert(ow, post.accounts@.index(ow)).insert(
                re,
                post.accounts@.index(re),
            ));
            assert forall|k: Seq<char>| post.accounts@.dom().contains(k) implies (
            #[trigger] post.accounts@[k]).wf() && post.accounts@[k].id@ == k by {
                if k != ow && k != re {
                    assert(post.accounts@[k] == pre.accounts@[k]);
                }
            }
            lemma_index_update(pre, post, pre.streams@, s1);
        }
        Ok(Vec::new())
    }
}

/// `post` is `pre` after counting one stream of asset `k` becoming active.
pub open spec fn stats_inc_active_applied(pre: Stats, post: Stats, k: Seq<char>) -> bool {
    &&& post.total_active_streams == pre.total_active_streams.saturating_add(1)
    &&& post.dao_tokens@ == pre.dao_tokens@.insert(
        k,
        TokenStats {
            active_streams: pre.spec_token_stats(k).active_streams.saturating_add(1),
            ..pre.spec_token_stats(k)
        },
    )
    &&& post == (Stats {
        total_active_streams: post.total_active_streams,
        dao_tokens: post.dao_tokens,
        ..pre
    })
}

/// `post` is `pre` after counting one stream of asset `k` leaving the
/// active state.
pub open spec fn stats_dec_active_applied(pre: Stats, post: Stats, k: Seq<char>) -> bool {
    &&& post.total_active_streams == pre.total_active_streams.saturating_sub(1)
    &&& post.dao_tokens@ == pre.dao_tokens@.insert(
        k,
        TokenStats {
            active_streams: pre.spec_token_stats(k).active_streams.saturating_sub(1),
            ..pre.spec_token_stats(k)
        },
    )
    &&& post == (Stats {
        total_active_streams: post.total_active_streams,
        dao_tokens: post.dao_tokens,
        ..pre
    })
}

/// Activation: the id moves from both parties' inactive sets to their active
/// sets, the accrual rate joins both rate tallies, and the stream turns
/// `Active`.
pub open spec fn start_applied(
    pre: Contract,
    post: Contract,
    s0: Stream,
    s1: Stream,
    now: Timestamp,
) -> bool {
    &&& start_accounts_applied(pre, post, s0, s1, now)
    &&& stats_inc_active_applied(pre.stats, post.stats, s0.token_account_id@)
}

/// The account-side effects of activation.
pub open spec fn start_accounts_applied(
    pre: Contract,
    post: Contract,
    s0: Stream,
    s1: Stream,
    now: Timestamp,
) -> bool {
    let id = s0.id;
    let ow = s0.owner_id@;
    let re = s0.receiver_id@;
    let tok = s0.token_account_id@;
    let a0 = pre.accounts@[ow];
    let b0 = pre.accounts@[re];
    let a1 = post.accounts@[ow];
    let b1 = post.accounts@[re];
    &&& s1 == (Stream { status: StreamStatus::Active, last_action: now, ..s0 })
    &&& post.accounts@ == pre.accounts@.insert(ow, a1).insert(re, b1)
    &&& a1 == (Account {
        inactive_outgoing_streams: a1.inactive_outgoing_streams,
        active_outgoing_streams: a1.active_outgoing_streams,
        total_outgoing: a1.total_outgoing,
        ..a0
    })
    &&& a1.inactive_outgoing_streams@ == a0.inactive_outgoing_streams@.remove(id)
    &&& a1.active_outgoing_streams@ == a0.active_outgoing_streams@.insert(id)
    &&& a1.total_outgoing@ == a0.total_outgoing@.insert(
        tok,
        (tally_of(a0.total_outgoing@, tok) as u128).saturating_add(s0.tokens_per_sec),
    )
    &&& b1 == (Account {
        inactive_incoming_streams: b1.inactive_incoming_streams,
        active_incoming_streams: b1.active_incoming_streams,
        total_incoming: b1.total_incoming,
        ..b0
    })
    &&& b1.inactive_incoming_streams@ == b0.inactive_incoming_streams@.remove(id)
    &&& b1.active_incoming_streams@ == b0.active_incoming_streams@.insert(id)
    &&& b1.total_incoming@ == b0.total_incoming@.insert(
        tok,
        (tally_of(b0.total_incoming@, tok) as u128).saturating_add(s0.tokens_per_sec),
    )
}

impl Contract {
    fn apply_start(&mut self, stream: &mut Stream, now: Timestamp) -> (r: Result<
        Vec<Instruction>,
        ContractError,
    >)
        requires
            old(self).action_pre(*old(stream), now),
            old(self).index_ok_for(old(self).streams@.insert(old(stream).id, *old(stream))),
            old(stream).status is Initialized || old(stream).status is Paused,
        ensures
            r is Ok,
            r matches Ok(v) ==> v@.len() == 0,
            start_applied(*old(self), *final(self), *old(stream), *final(stream), now),
            old(self).action_post(*final(self), *old(stream), *final(stream)),
    {
        let ghost pre = *self;
        let ghost s0 = *stream;
        let ghost id = s0.id;
        let ghost ow = s0.owner_id@;
        let ghost re = s0.receiver_id@;
        let ghost m_pre = pre.streams@.insert(id, s0);
        proof {
            assert(m_pre.dom().contains(id));
            assert(pre.stream_entry_ok(m_pre, id));
        }
        let mut owner = match self.extract_account(&stream.owner_id) {
            Ok(a) => a,
            Err(e) => {
                proof {
                    assert(false);
                }
                return Err(e);
            },
        };
        let mut receiver = match self.extract_account(&stream.receiver_id) {
            Ok(a) => a,
            Err(e) => {
                proof {
                    assert(false);
                }
                return Err(e);
            },
        };
        check_integrity(owner.inactive_outgoing_streams.remove(stream.id))?;
        check_integrity(receiver.inactive_incoming_streams.remove(stream.id))?;
        check_integrity(owner.active_outgoing_streams.insert(stream.id))?;
        check_integrity(receiver.active_incoming_streams.insert(stream.id))?;
        tally_add(&mut owner.total_outgoing, &stream.token_account_id, stream.tokens_per_sec);
        tally_add(&mut receiver.total_incoming, &stream.token_account_id, stream.tokens_per_sec);
        stream.status = StreamStatus::Active;
        stream.last_action = now;
        self.stats.inc_active_streams(&stream.token_account_id);
        self.save_account(owner)?;
        self.save_account(receiver)?;
        proof {
            let post = *self;
            let s1 = *stream;
            assert(post.accounts@ =~= pre.accounts@.insert(ow, post.accounts@.index(ow)).insert(
                re,
                post.accounts@.index(re),
            ));
            assert forall|k: Seq<char>| post.accounts@.dom().contains(k) implies (
            #[trigger] post.accounts@[k]).wf() && post.accounts@[k].id@ == k by {
                if k != ow && k != re {
                    assert(post.accounts@[k] == pre.accounts@[k]);
                }
            }
            lemma_index_update(pre, post, m_pre, s1);
            assert(m_pre.insert(id, s1) =~= post.streams@.insert(id, s1));
        }
        Ok(Vec::new())
    }
}

/// Settlement-driven withdrawal: the accrued amount is paid out; if it
/// drained the stream, the stream finished naturally and leaves both active
/// sets and both rate tallies.
pub open spec fn withdraw_applied(
    pre: Contract,
    post: Contract,
    s0: Stream,
    s1: Stream,
    now: Timestamp,
    instr: Seq<Instruction>,
) -> bool {
    let id = s0.id;
    let ow = s0.owner_id@;
    let re = s0.receiver_id@;
    let tok = s0.token_account_id@;
    let a0 = pre.accounts@[ow];
    let b0 = pre.accounts@[re];
    let a1 = post.accounts@[ow];
    let b1 = post.accounts@[re];
    let st = spec_settled_dao(s0, pre.dao, now).0;
    let pay = spec_settled_dao(s0, pre.dao, now).1;
    let com = spec_settled_dao(s0, pre.dao, now).2;
    let ts0 = pre.stats.spec_token_stats(tok);
    &&& s1 == st
    &&& post.accounts@ == pre.accounts@.insert(ow, a1).insert(re, b1)
    &&& b1.total_received@ == crate::account::tally_added(b0.total_received@, tok, pay as u128)
    &&& (if st.status is Finished {
        &&& a1 == (Account {
            active_outgoing_streams: a1.active_outgoing_streams,
            total_outgoing: a1.total_outgoing,
            ..a0
        })
        &&& a1.active_outgoing_streams@ == a0.active_outgoing_streams@.remove(id)
        &&& a1.total_outgoing@ == crate::account::tally_subbed(
            a0.total_outgoing@,
            tok,
            s0.tokens_per_sec,
        )
        &&& b1 == (Account {
            active_incoming_streams: b1.active_incoming_streams,
            total_incoming: b1.total_incoming,
            total_received: b1.total_received,
            ..b0
        })
        &&& b1.active_incoming_streams@ == b0.active_incoming_streams@.remove(id)
        &&& b1.total_incoming@ == crate::account::tally_subbed(
            b0.total_incoming@,
            tok,
            s0.tokens_per_sec,
        )
        &&& post.stats.total_active_streams == pre.stats.total_active_streams.saturating_sub(1)
        &&& post.stats.dao_tokens@ == pre.stats.dao_tokens@.insert(
            tok,
            TokenStats {
                transferred: ts0.transferred.saturating_add(pay as u128),
                total_commission_collected: ts0.total_commission_collected.saturating_add(
                    com as u128,
                ),
                tvl: ts0.tvl.saturating_sub((pay as u128).saturating_add(com as u128)),
                active_streams: ts0.active_streams.saturating_sub(1),
                ..ts0
            },
        )
        &&& post.stats == (Stats {
            total_active_streams: post.stats.total_active_streams,
            dao_tokens: post.stats.dao_tokens,
            ..pre.stats
        })
    } else {
        &&& a1 == a0
        &&& b1 == (Account { total_received: b1.total_received, ..b0 })
        &&& stats_withdraw_applied(pre.stats, post.stats, tok, pay, com)
    })
    &&& (pay == 0 ==> instr.len() == 0)
    &&& (pay != 0 ==> instr.len() == 1 && spec_finance_transfer(
        pre.finance_id@,
        tok,
        re,
        pay,
        Some(instr[0]),
    ))
}

impl Contract {
    fn apply_withdraw(&mut self, stream: &mut Stream, now: Timestamp) -> (r: Result<
        Vec<Instruction>,
        ContractError,
    >)
        requires
            old(self).action_pre(*old(stream), now),
            old(self).index_ok_for(old(self).streams@.insert(old(stream).id, *old(stream))),
            old(stream).status is Active,
        ensures
            r is Ok,
            r matches Ok(v) ==> withdraw_applied(
                *old(self),
                *final(self),
                *old(stream),
                *final(stream),
                now,
                v@,
            ),
            old(self).action_post(*final(self), *old(stream), *final(stream)),
    {
        let ghost pre = *self;
        let ghost s0 = *stream;
        let ghost id = s0.id;
        let ghost ow = s0.owner_id@;
        let ghost re = s0.receiver_id@;
        let ghost m_pre = pre.streams@.insert(id, s0);
        proof {
            assert(m_pre.dom().contains(id));
            assert(pre.stream_entry_ok(m_pre, id));
        }
        let mut owner = match self.extract_account(&stream.owner_id) {
            Ok(a) => a,
            Err(e) => {
                proof {
                    assert(false);
                }
                return Err(e);
            },
        };
        let mut receiver = match self.extract_account(&stream.receiver_id) {
            Ok(a) => a,
            Err(e) => {
                proof {
                    assert(false);
                }
                return Err(e);
            },
        };
        let mut promises: Vec<Instruction> = Vec::new();
        match self.process_payment(stream, &mut receiver, now)? {
            Some(ins) => promises.push(ins),
            None => {},
        }
        if stream.status.is_terminated() {
            check_integrity(
                stream.status == (StreamStatus::Finished {
                    reason: StreamFinishReason::FinishedNaturally,
                }),
            )?;
            check_integrity(owner.active_outgoing_streams.remove(stream.id))?;
            check_integrity(receiver.active_incoming_streams.remove(stream.id))?;
            tally_sub(&mut owner.total_outgoing, &stream.token_account_id, stream.tokens_per_sec);
            tally_sub(
                &mut receiver.total_incoming,
                &stream.token_account_id,
                stream.tokens_per_sec,
            );
            self.stats.dec_active_streams(&stream.token_account_id);
        }
        stream.last_action = now;
        self.save_account(owner)?;
        self.save_account(receiver)?;
        proof {
            let post = *self;
            let s1 = *stream;
            assert(post.accounts@ =~= pre.accounts@.insert(ow, post.accounts@.index(ow)).insert(
                re,
                post.accounts@.index(re),
            ));
            assert forall|k: Seq<char>| post.accounts@.dom().contains(k) implies (
            #[trigger] post.accounts@[k]).wf() && post.accounts@[k].id@ == k by {
                if k != ow && k != re {
                    assert(post.accounts@[k] == pre.accounts@[k]);
                }
            }
            lemma_index_update(pre, post, m_pre, s1);
            assert(m_pre.insert(id, s1) =~= post.streams@.insert(id, s1));
            let tok = s0.token_account_id@;
            let st = spec_settled_dao(s0, pre.dao, now).0;
            let pay = spec_settled_dao(s0, pre.dao, now).1;
            let com = spec_settled_dao(s0, pre.dao, now).2;
            let ts0 = pre.stats.spec_token_stats(tok);
            assert(s1 == st);
            if st.status is Finished {
                assert(post.stats.dao_tokens@ =~= pre.stats.dao_tokens@.insert(
                    tok,
                    TokenStats {
                        transferred: ts0.transferred.saturating_add(pay as u128),
                        total_commission_collected: ts0.total_commission_collected.saturating_add(
                            com as u128,
                        ),
                        tvl: ts0.tvl.saturating_sub((pay as u128).saturating_add(com as u128)),
                        active_streams: ts0.active_streams.saturating_sub(1),
                        ..ts0
                    },
                ));
            }
        }
        Ok(promises)
    }
}

/// Pausing: settle first, then the id leaves both active sets and the rate
/// leaves both tallies; unless settlement already finished the stream, the
/// id re-enters the inactive sets and the stream turns `Paused`.
pub open spec fn pause_applied(
    pre: Contract,
    post: Contract,
    s0: Stream,
    s1: Stream,
    now: Timestamp,
    instr: Seq<Instruction>,
) -> bool {
    let id = s0.id;
    let ow = s0.owner_id@;
    let re = s0.receiver_id@;
    let tok = s0.token_account_id@;
    let a0 = pre.accounts@[ow];
    let b0 = pre.accounts@[re];
    let a1 = post.accounts@[ow];
    let b1 = post.accounts@[re];
    let st = spec_settled_dao(s0, pre.dao, now).0;
    let pay = spec_settled_dao(s0, pre.dao, now).1;
    let com = spec_settled_dao(s0, pre.dao, now).2;
    let ts0 = pre.stats.spec_token_stats(tok);
    &&& s1 == (if st.status is Finished {
        st
    } else {
        Stream { status: StreamStatus::Paused, ..st }
    })
    &&& post.accounts@ == pre.accounts@.insert(ow, a1).insert(re, b1)
    &&& a1 == (Account {
        active_outgoing_streams: a1.active_outgoing_streams,
        inactive_outgoing_streams: a1.inactive_outgoing_streams,
        total_outgoing: a1.total_outgoing,
        ..a0
    })
    &&& a1.active_outgoing_streams@ == a0.active_outgoing_streams@.remove(id)
    &&& a1.inactive_outgoing_streams@ == (if st.status is Finished {
        a0.inactive_outgoing_streams@
    } else {
        a0.inactive_outgoing_streams@.insert(id)
    })
    &&& a1.total_outgoing@ == crate::account::tally_subbed(
        a0.total_outgoing@,
        tok,
        s0.tokens_per_sec,
    )
    &&& b1 == (Account {
        active_incoming_streams: b1.active_incoming_streams,
        inactive_incoming_streams: b1.inactive_incoming_streams,
        total_incoming: b1.total_incoming,
        total_received: b1.total_received,
        ..b0
    })
    &&& b1.active_incoming_streams@ == b0.active_incoming_streams@.remove(id)
    &&& b1.inactive_incoming_streams@ == (if st.status is Finished {
        b0.inactive_incoming_streams@
    } else {
        b0.inactive_incoming_streams@.insert(id)
    })
    &&& b1.total_incoming@ == crate::account::tally_subbed(
        b0.total_incoming@,
        tok,
        s0.tokens_per_sec,
    )
    &&& b1.total_received@ == crate::account::tally_added(b0.total_received@, tok, pay as u128)
    &&& post.stats.total_active_streams == pre.stats.total_active_streams.saturating_sub(1)
    &&& post.stats.dao_tokens@ == pre.stats.dao_tokens@.insert(
        tok,
        TokenStats {
            transferred: ts0.transferred.saturating_add(pay as u128),
            total_commission_collected: ts0.total_commission_collected.saturating_add(com as u128),
            tvl: ts0.tvl.saturating_sub((pay as u128).saturating_add(com as u128)),
            active_streams: ts0.active_streams.saturating_sub(1),
            ..ts0
        },
    )
    &&& post.stats == (Stats {
        total_active_streams: post.stats.total_active_streams,
        dao_tokens: post.stats.dao_tokens,
        ..pre.stats
    })
    &&& (pay == 0 ==> instr.len() == 0)
    &&& (pay != 0 ==> instr.len() == 1 && spec_finance_transfer(
        pre.finance_id@,
        tok,
        re,
        pay,
        Some(instr[0]),
    ))
}

impl Contract {
    fn apply_pause(&mut self, stream: &mut Stream, now: Timestamp) -> (r: Result<
        Vec<Instruction>,
        ContractError,
    >)
        requires
            old(self).action_pre(*old(stream), now),
            old(self).index_ok_for(old(self).streams@.insert(old(stream).id, *old(stream))),
            old(stream).status is Active,
        ensures
            r is Ok,
            r matches Ok(v) ==> pause_applied(
                *old(self),
                *final(self),
                *old(stream),
                *final(stream),
                now,
                v@,
            ),
            old(self).action_post(*final(self), *old(stream), *final(stream)),
    {
        let ghost pre = *self;
        let ghost s0 = *stream;
        let ghost id = s0.id;
        let ghost ow = s0.owner_id@;
        let ghost re = s0.receiver_id@;
        let ghost m_pre = pre.streams@.insert(id, s0);
        proof {
            assert(m_pre.dom().contains(id));
            assert(pre.stream_entry_ok(m_pre, id));
        }
        check_integrity(stream.status == StreamStatus::Active)?;
        let mut owner = match self.extract_account(&stream.owner_id) {
            Ok(a) => a,
            Err(e) => {
                proof {
                    assert(false);
                }
                return Err(e);
            },
        };
        let mut receiver = match self.extract_account(&stream.receiver_id) {
            Ok(a) => a,
            Err(e) => {
                proof {
                    assert(false);
                }
                return Err(e);
            },
        };
        let mut promises: Vec<Instruction> = Vec::new();
        match self.process_payment(stream, &mut receiver, now)? {
            Some(ins) => promises.push(ins),
            None => {},
        }
        tally_sub(&mut owner.total_outgoing, &stream.token_account_id, stream.tokens_per_sec);
        tally_sub(&mut receiver.total_incoming, &stream.token_account_id, stream.tokens_per_sec);
        check_integrity(owner.active_outgoing_streams.remove(stream.id))?;
        check_integrity(receiver.active_incoming_streams.remove(stream.id))?;
        if !stream.status.is_terminated() {
            check_integrity(owner.inactive_outgoing_streams.insert(stream.id))?;
            check_integrity(receiver.inactive_incoming_streams.insert(stream.id))?;
        }
        if stream.status == StreamStatus::Active {
            // The stream may have finished while the payment was settled.
            stream.status = StreamStatus::Paused;
        }
        self.stats.dec_active_streams(&stream.token_account_id);
        stream.last_action = now;
        self.save_account(owner)?;
        self.save_account(receiver)?;
        proof {
            let post = *self;
            let s1 = *stream;
            assert(post.accounts@ =~= pre.accounts@.insert(ow, post.accounts@.index(ow)).insert(
                re,
                post.accounts@.index(re),
            ));
            assert forall|k: Seq<char>| post.accounts@.dom().contains(k) implies (
            #[trigger] post.accounts@[k]).wf() && post.accounts@[k].id@ == k by {
                if k != ow && k != re {
                    assert(post.accounts@[k] == pre.accounts@[k]);
                }
            }
            lemma_index_update(pre, post, m_pre, s1);
            assert(m_pre.insert(id, s1) =~= post.streams@.insert(id, s1));
            let tok = s0.token_account_id@;
            let pay = spec_settled_dao(s0, pre.dao, now).1;
            let com = spec_settled_dao(s0, pre.dao, now).2;
            let ts0 = pre.stats.spec_token_stats(tok);
            assert(post.stats.dao_tokens@ =~= pre.stats.dao_tokens@.insert(
                tok,
                TokenStats {
                    transferred: ts0.transferred.saturating_add(pay as u128),
                    total_commission_collected: ts0.total_commission_collected.saturating_add(
                        com as u128,
                    ),
                    tvl: ts0.tvl.saturating_sub((pay as u128).saturating_add(com as u128)),
                    active_streams: ts0.active_streams.saturating_sub(1),
                    ..ts0
                },
            ));
        }
        Ok(promises)
    }
}

/// Stopping: an active stream settles first; the id leaves whichever sets
/// held it; unless settlement already finished the stream, the remaining
/// principal is refunded to the owner and the stream finishes with `reason`.
pub open spec fn stop_applied(
    pre: Contract,
    post: Contract,
    s0: Stream,
    s1: Stream,
    now: Timestamp,
    reason: StreamFinishReason,
    instr: Seq<Instruction>,
) -> bool {
    let id = s0.id;
    let ow = s0.owner_id@;
    let re = s0.receiver_id@;
    let tok = s0.token_account_id@;
    let a0 = pre.accounts@[ow];
    let b0 = pre.accounts@[re];
    let a1 = post.accounts@[ow];
    let b1 = post.accounts@[re];
    let st = spec_settled_dao(s0, pre.dao, now).0;
    let pay = spec_settled_dao(s0, pre.dao, now).1;
    let com = spec_settled_dao(s0, pre.dao, now).2;
    let refund = if s0.status is Active {
        if st.status is Finished {
            0
        } else {
            st.balance as int
        }
    } else {
        s0.balance as int
    };
    let ts0 = pre.stats.spec_token_stats(tok);
    &&& post.accounts@ == pre.accounts@.insert(ow, a1).insert(re, b1)
    &&& (if s0.status is Active {
        &&& s1 == (if st.status is Finished {
            st
        } else {
            Stream { balance: 0, status: StreamStatus::Finished { reason }, ..st }
        })
        &&& a1 == (Account {
            active_outgoing_streams: a1.active_outgoing_streams,
            total_outgoing: a1.total_outgoing,
            ..a0
        })
        &&& a1.active_outgoing_streams@ == a0.active_outgoing_streams@.remove(id)
        &&& a1.total_outgoing@ == crate::account::tally_subbed(
            a0.total_outgoing@,
            tok,
            s0.tokens_per_sec,
        )
        &&& b1 == (Account {
            active_incoming_streams: b1.active_incoming_streams,
            total_incoming: b1.total_incoming,
            total_received: b1.total_received,
            ..b0
        })
        &&& b1.active_incoming_streams@ == b0.active_incoming_streams@.remove(id)
        &&& b1.total_incoming@ == crate::account::tally_subbed(
            b0.total_incoming@,
            tok,
            s0.tokens_per_sec,
        )
        &&& b1.total_received@ == crate::account::tally_added(b0.total_received@, tok, pay as u128)
        &&& post.stats.total_active_streams == pre.stats.total_active_streams.saturating_sub(1)
        &&& post.stats.dao_tokens@ == pre.stats.dao_tokens@.insert(
            tok,
            TokenStats {
                transferred: ts0.transferred.saturating_add(pay as u128),
                total_commission_collected: ts0.total_commission_collected.saturating_add(
                    com as u128,
                ),
                tvl: (ts0.tvl.saturating_sub(
                    (pay as u128).saturating_add(com as u128),
                )).saturating_sub(refund as u128),
                active_streams: ts0.active_streams.saturating_sub(1),
                refunded: ts0.refunded.saturating_add(refund as u128),
                ..ts0
            },
        )
        &&& post.stats == (Stats {
            total_active_streams: post.stats.total_active_streams,
            dao_tokens: post.stats.dao_tokens,
            ..pre.stats
        })
        &&& (pay == 0 && refund == 0 ==> instr.len() == 0)
        &&& (pay != 0 ==> spec_finance_transfer(pre.finance_id@, tok, re, pay, Some(instr[0])))
        &&& (refund != 0 ==> spec_finance_transfer(
            pre.finance_id@,
            tok,
            ow,
            refund,
            Some(
                instr[if pay != 0 {
                    1int
                } else {
                    0int
                }],
            ),
        ))
        &&& instr.len() == (if pay != 0 {
            1int
        } else {
            0int
        }) + (if refund != 0 {
            1int
        } else {
            0int
        })
    } else {
        &&& s1 == (Stream {
            balance: 0,
            status: StreamStatus::Finished { reason },
            last_action: now,
            ..s0
        })
        &&& a1 == (Account { inactive_outgoing_streams: a1.inactive_outgoing_streams, ..a0 })
        &&& a1.inactive_outgoing_streams@ == a0.inactive_outgoing_streams@.remove(id)
        &&& b1 == (Account { inactive_incoming_streams: b1.inactive_incoming_streams, ..b0 })
        &&& b1.inactive_incoming_streams@ == b0.inactive_incoming_streams@.remove(id)
        &&& post.stats.dao_tokens@ == pre.stats.dao_tokens@.insert(
            tok,
            TokenStats {
                refunded: ts0.refunded.saturating_add(refund as u128),
                tvl: ts0.tvl.saturating_sub(refund as u128),
                ..ts0
            },
        )
        &&& post.stats == (Stats { dao_tokens: post.stats.dao_tokens, ..pre.stats })
        &&& (refund == 0 ==> instr.len() == 0)
        &&& (refund != 0 ==> instr.len() == 1 && spec_finance_transfer(
            pre.finance_id@,
            tok,
            ow,
            refund,
            Some(instr[0]),
        ))
    })
}

impl Contract {
    fn apply_stop(
        &mut self,
        stream: &mut Stream,
        reason: StreamFinishReason,
        now: Timestamp,
    ) -> (r: Result<Vec<Instruction>, ContractError>)
        requires
            old(self).action_pre(*old(stream), now),
            old(self).index_ok_for(old(self).streams@.insert(old(stream).id, *old(stream))),
            !old(stream).status.spec_is_terminated(),
        ensures
            r is Ok,
            r matches Ok(v) ==> stop_applied(
                *old(self),
                *final(self),
                *old(stream),
                *final(stream),
                now,
                reason,
                v@,
            ),
            old(self).action_post(*final(self), *old(stream), *final(stream)),
    {
        let ghost pre = *self;
        let ghost s0 = *stream;
        let ghost id = s0.id;
        let ghost ow = s0.owner_id@;
        let ghost re = s0.receiver_id@;
        let ghost m_pre = pre.streams@.insert(id, s0);
        proof {
            assert(m_pre.dom().contains(id));
            assert(pre.stream_entry_ok(m_pre, id));
        }
        let mut owner = match self.extract_account(&stream.owner_id) {
            Ok(a) => a,
            Err(e) => {
                proof {
                    assert(false);
                }
                return Err(e);
            },
        };
        let mut receiver = match self.extract_account(&stream.receiver_id) {
            Ok(a) => a,
            Err(e) => {
                proof {
                    assert(false);
                }
                return Err(e);
            },
        };
        let mut promises: Vec<Instruction> = Vec::new();
        if stream.status == StreamStatus::Active {
            match self.process_payment(stream, &mut receiver, now)? {
                Some(ins) => promises.push(ins),
                None => {},
            }
            check_integrity(owner.active_outgoing_streams.remove(stream.id))?;
            check_integrity(receiver.active_incoming_streams.remove(stream.id))?;
            tally_sub(&mut owner.total_outgoing, &stream.token_account_id, stream.tokens_per_sec);
            tally_sub(
                &mut receiver.total_incoming,
                &stream.token_account_id,
                stream.tokens_per_sec,
            );
            self.stats.dec_active_streams(&stream.token_account_id);
        } else {
            check_integrity(owner.inactive_outgoing_streams.remove(stream.id))?;
            check_integrity(receiver.inactive_incoming_streams.remove(stream.id))?;
        }
        if !stream.status.is_terminated() {
            // A refund is owed only if settlement did not already finish the
            // stream naturally.
            match self.process_refund(stream)? {
                Some(ins) => promises.push(ins),
                None => {},
            }
            stream.status = StreamStatus::Finished { reason };
        }
        stream.last_action = now;
        self.save_account(owner)?;
        self.save_account(receiver)?;
        proof {
            let post = *self;
            let s1 = *stream;
            assert(post.accounts@ =~= pre.accounts@.insert(ow, post.accounts@.index(ow)).insert(
                re,
                post.accounts@.index(re),
            ));
            assert forall|k: Seq<char>| post.accounts@.dom().contains(k) implies (
            #[trigger] post.accounts@[k]).wf() && post.accounts@[k].id@ == k by {
                if k != ow && k != re {
                    assert(post.accounts@[k] == pre.accounts@[k]);
                }
            }
            lemma_index_update(pre, post, m_pre, s1);
            assert(m_pre.insert(id, s1) =~= post.streams@.insert(id, s1));
            let tok = s0.token_account_id@;
            let st = spec_settled_dao(s0, pre.dao, now).0;
            let pay = spec_settled_dao(s0, pre.dao, now).1;
            let com = spec_settled_dao(s0, pre.dao, now).2;
            let ts0 = pre.stats.spec_token_stats(tok);
            if s0.status is Active {
                let refund: u128 = if st.status is Finished {
                    0
                } else {
                    st.balance
                };
                assert(post.stats.dao_tokens@ =~= pre.stats.dao_tokens@.insert(
                    tok,
                    TokenStats {
                        transferred: ts0.transferred.saturating_add(pay as u128),
                        total_commission_collected: ts0.total_commission_collected.saturating_add(
                            com as u128,
                        ),
                        tvl: (ts0.tvl.saturating_sub(
                            (pay as u128).saturating_add(com as u128),
                        )).saturating_sub(refund),
                        active_streams: ts0.active_streams.saturating_sub(1),
                        refunded: ts0.refunded.saturating_add(refund),
                        ..ts0
                    },
                ));
            } else {
                assert(post.stats.dao_tokens@ =~= pre.stats.dao_tokens@.insert(
                    tok,
                    TokenStats {
                        refunded: ts0.refunded.saturating_add(s0.balance),
                        tvl: ts0.tvl.saturating_sub(s0.balance),
                        ..ts0
                    },
                ));
            }
        }
        Ok(promises)
    }
}

/// The account index is insensitive to changes that leave every account's
/// four stream-id sets untouched and only add accounts with empty sets.
pub proof fn lemma_index_accounts_extend(pre: Contract, post: Contract, m: Map<StreamId, Stream>)
    requires
        pre.index_ok_for(m),
        forall|k: Seq<char>| #[trigger]
            pre.accounts@.dom().contains(k) ==> post.accounts@.dom().contains(k)
                && post.accounts@[k].active_outgoing_streams@ == pre.accounts@[
                k
            ].active_outgoing_streams@ && post.accounts@[k].inactive_outgoing_streams@
                == pre.accounts@[k].inactive_outgoing_streams@ && post.accounts@[
                k
            ].active_incoming_streams@ == pre.accounts@[k].active_incoming_streams@
                && post.accounts@[k].inactive_incoming_streams@ == pre.accounts@[
                k
            ].inactive_incoming_streams@,
        forall|k: Seq<char>| #[trigger]
            post.accounts@.dom().contains(k) && !pre.accounts@.dom().contains(k)
                ==> post.accounts@[k].active_outgoing_streams@ == Set::<StreamId>::empty()
                && post.accounts@[k].inactive_outgoing_streams@ == Set::<StreamId>::empty()
                && post.accounts@[k].active_incoming_streams@ == Set::<StreamId>::empty()
                && post.accounts@[k].inactive_incoming_streams@ == Set::<StreamId>::empty(),
    ensures
        post.index_ok_for(m),
{
    assert forall|id2: StreamId| #[trigger] m.dom().contains(id2) implies post.stream_entry_ok(
        m,
        id2,
    ) by {
        assert(pre.stream_entry_ok(m, id2));
    }
    assert forall|k: Seq<char>, id2: StreamId|
        post.accounts@.dom().contains(k) && #[trigger] post.accounts@.index(
            k,
        ).active_outgoing_streams@.contains(id2) implies m.dom().contains(id2) && m[
        id2
    ].owner_id@ == k && m[id2].status is Active by {
        assert(pre.accounts@.dom().contains(k));
    }
    assert forall|k: Seq<char>, id2: StreamId|
        post.accounts@.dom().contains(k) && #[trigger] post.accounts@.index(
            k,
        ).inactive_outgoing_streams@.contains(id2) implies m.dom().contains(id2) && m[
        id2
    ].owner_id@ == k && (m[id2].status is Initialized || m[id2].status is Paused) by {
        assert(pre.accounts@.dom().contains(k));
    }
    assert forall|k: Seq<char>, id2: StreamId|
        post.accounts@.dom().contains(k) && #[trigger] post.accounts@.index(
            k,
        ).active_incoming_streams@.contains(id2) implies m.dom().contains(id2) && m[
        id2
    ].receiver_id@ == k && m[id2].status is Active by {
        assert(pre.accounts@.dom().contains(k));
    }
    assert forall|k: Seq<char>, id2: StreamId|
        post.accounts@.dom().contains(k) && #[trigger] post.accounts@.index(
            k,
        ).inactive_incoming_streams@.contains(id2) implies m.dom().contains(id2) && m[
        id2
    ].receiver_id@ == k && (m[id2].status is Initialized || m[id2].status is Paused) by {
        assert(pre.accounts@.dom().contains(k));
    }
}

impl Contract {
    /// The single choke point every lifecycle transition funnels through:
    /// it drives the stream, both parties' account indices and the
    /// statistics in lockstep, preserving the account-index invariant.
    pub fn process_action(
        &mut self,
        stream: &mut Stream,
        action_type: ActionType,
        now: Timestamp,
    ) -> (r: Result<Vec<Instruction>, ContractError>)
        requires
            old(self).action_pre(*old(stream), now),
            match action_type {
                ActionType::Init => old(self).index_ok_for(old(self).streams@) && (old(
                    stream,
                ).status is Initialized || old(stream).status.spec_is_terminated()),
                ActionType::Start => old(self).index_ok_for(
                    old(self).streams@.insert(old(stream).id, *old(stream)),
                ) && (old(stream).status is Initialized || old(stream).status is Paused || old(
                    stream,
                ).status.spec_is_terminated()),
                ActionType::Pause => old(self).index_ok_for(
                    old(self).streams@.insert(old(stream).id, *old(stream)),
                ) && (old(stream).status is Active || old(stream).status.spec_is_terminated()),
                ActionType::Withdraw => old(self).index_ok_for(
                    old(self).streams@.insert(old(stream).id, *old(stream)),
                ) && (old(stream).status is Active || old(stream).status.spec_is_terminated()),
                ActionType::Stop { reason: _ } => old(self).index_ok_for(
                    old(self).streams@.insert(old(stream).id, *old(stream)),
                ),
            },
        ensures
            r is Ok <==> !old(stream).status.spec_is_terminated(),
            // No action applies to a terminal stream: the defensive check
            // answers with the integrity fault and touches nothing.
            old(stream).status.spec_is_terminated() ==> r == Result::<
                Vec<Instruction>,
                ContractError,
            >::Err(ContractError::DataCorruption) && *final(self) == *old(self) && *final(stream)
                == *old(stream),
            !old(stream).status.spec_is_terminated() ==> old(self).action_post(
                *final(self),
                *old(stream),
                *final(stream),
            ),
            !old(stream).status.spec_is_terminated() ==> match action_type {
                ActionType::Init => r matches Ok(v) && v@.len() == 0 && init_applied(
                    *old(self),
                    *final(self),
                    *old(stream),
                    *final(stream),
                    now,
                ),
                ActionType::Start => r matches Ok(v) && v@.len() == 0 && start_applied(
                    *old(self),
                    *final(self),
                    *old(stream),
                    *final(stream),
                    now,
                ),
                ActionType::Pause => r matches Ok(v) && pause_applied(
                    *old(self),
                    *final(self),
                    *old(stream),
                    *final(stream),
                    now,
                    v@,
                ),
                ActionType::Withdraw => r matches Ok(v) && withdraw_applied(
                    *old(self),
                    *final(self),
                    *old(stream),
                    *final(stream),
                    now,
                    v@,
                ),
                ActionType::Stop { reason } => r matches Ok(v) && stop_applied(
                    *old(self),
                    *final(self),
                    *old(stream),
                    *final(stream),
                    now,
                    reason,
                    v@,
                ),
            },
    {
        check_integrity(!stream.status.is_terminated())?;
        match action_type {
            ActionType::Init => self.apply_init(stream, now),
            ActionType::Start => self.apply_start(stream, now),
            ActionType::Pause => self.apply_pause(stream, now),
            ActionType::Withdraw => self.apply_withdraw(stream, now),
            ActionType::Stop { reason } => self.apply_stop(stream, reason, now),
        }
    }
}

impl Contract {
    /// Whether `Start` succeeds for `sender` on `id`.
    pub open spec fn can_start(self, sender: Seq<char>, id: StreamId) -> bool {
        &&& self.streams@.dom().contains(id)
        &&& !(self.streams@[id].is_locked && !(self.streams@[id].status is Initialized))
        &&& self.streams@[id].owner_id@ == sender
        &&& (self.streams@[id].status is Initialized || self.streams@[id].status is Paused)
        &&& self.streams@[id].balance > 0
    }

    /// Starts a stream: only the owner, only from `Initialized` or `Paused`,
    /// never a locked stream that already ran, and never on an empty
    /// balance. On success the stream turns `Active`, its id moves to both
    /// parties' active sets, the rate joins both tallies, and for a locked
    /// listed stream the whole lifetime commission is recorded up front. Any
    /// failure leaves the state untouched.
    pub fn start_stream_op(
        &mut self,
        sender_id: &AccountId,
        stream_id: StreamId,
        now: Timestamp,
    ) -> (r: Result<(), ContractError>)
        requires
            old(self).wf(),
            old(self).time_ok(now),
        ensures
            final(self).wf(),
            final(self).time_ok(now),
            r is Err ==> *final(self) == *old(self),
            r is Ok <==> old(self).can_start(sender_id@, stream_id),
            !old(self).streams@.dom().contains(stream_id) ==> r == Result::<(), ContractError>::Err(
                ContractError::StreamNotExist { stream_id },
            ),
            old(self).streams@.dom().contains(stream_id) ==> ({
                let s0 = old(self).streams@[stream_id];
                &&& (s0.is_locked && !(s0.status is Initialized)) ==> r == Result::<
                    (),
                    ContractError,
                >::Err(ContractError::StreamLocked { stream_id })
                &&& (!(s0.is_locked && !(s0.status is Initialized)) && s0.owner_id@ != sender_id@)
                    ==> r == Result::<(), ContractError>::Err(
                    ContractError::CallerIsNotStreamOwner {
                        expected: s0.owner_id,
                        received: *sender_id,
                    },
                )
                &&& (!(s0.is_locked && !(s0.status is Initialized)) && s0.owner_id@ == sender_id@
                    && !(s0.status is Initialized || s0.status is Paused)) ==> r == Result::<
                    (),
                    ContractError,
                >::Err(ContractError::CannotStartStream { stream_status: s0.status })
                &&& (!(s0.is_locked && !(s0.status is Initialized)) && s0.owner_id@ == sender_id@
                    && (s0.status is Initialized || s0.status is Paused) && s0.balance == 0) ==> r
                    == Result::<(), ContractError>::Err(ContractError::ZeroBalanceStreamStart)
            }),
            r is Ok ==> ({
                let s0 = old(self).streams@[stream_id];
                let s1 = Stream { status: StreamStatus::Active, last_action: now, ..s0 };
                let tok = s0.token_account_id@;
                let lock_com = if s0.is_locked && dao_is_listed(old(self).dao, tok) {
                    dao_commission(old(self).dao, tok, s0.balance as int)
                } else {
                    0
                };
                let ts0 = old(self).stats.spec_token_stats(tok);
                &&& final(self).streams@ == old(self).streams@.insert(stream_id, s1)
                &&& start_accounts_applied(*old(self), *final(self), s0, s1, now)
                &&& final(self).stats.total_active_streams == old(
                    self,
                ).stats.total_active_streams.saturating_add(1)
                &&& final(self).stats.dao_tokens@ == old(self).stats.dao_tokens@.insert(
                    tok,
                    TokenStats {
                        active_streams: ts0.active_streams.saturating_add(1),
                        total_commission_collected: ts0.total_commission_collected.saturating_add(
                            lock_com as u128,
                        ),
                        ..ts0
                    },
                )
                &&& final(self).stats == (Stats {
                    total_active_streams: final(self).stats.total_active_streams,
                    dao_tokens: final(self).stats.dao_tokens,
                    ..old(self).stats
                })
                &&& final(self).dao == old(self).dao
                &&& final(self).finance_id == old(self).finance_id
            }),
    {
        let ghost pre = *self;
        match self.view_stream(stream_id) {
            Err(e) => {
                return Err(e);
            },
            Ok(s) => {
                if s.is_locked && !(s.status == StreamStatus::Initialized) {
                    return Err(ContractError::StreamLocked { stream_id: s.id });
                }
                if s.owner_id != *sender_id {
                    return Err(ContractError::CallerIsNotStreamOwner {
                        expected: s.owner_id.clone(),
                        received: sender_id.clone(),
                    });
                }
                if !(s.status == StreamStatus::Paused) && !(s.status
                    == StreamStatus::Initialized) {
                    return Err(ContractError::CannotStartStream { stream_status: s.status });
                }
                if s.balance == 0 {
                    return Err(ContractError::ZeroBalanceStreamStart);
                }
            },
        }
        let mut stream = match self.extract_stream(stream_id) {
            Ok(s) => s,
            Err(e) => {
                proof {
                    assert(false);
                }
                return Err(e);
            },
        };
        if stream.is_locked {
            let token = self.dao.get_token(&stream.token_account_id);
            if token.is_payment {
                // For locked streams the whole lifetime commission is
                // recorded when the stream starts.
                proof {
                    crate::safe_float::lemma_commission_at_most_one(token.commission_coef);
                }
                let (_, commission) = token.apply_commission(stream.balance);
                self.stats.inc_stream_deposit(&stream.token_account_id, 0, commission);
            }
        }
        proof {
            let s0 = pre.streams@[stream_id];
            assert(pre.stream_entry_ok(pre.streams@, stream_id));
            assert(self.accounts == pre.accounts);
            assert(self.streams@.insert(stream_id, stream) =~= pre.streams@);
            assert(self.index_ok_for(pre.streams@));
        }
        let res = self.process_action(&mut stream, ActionType::Start, now);
        match res {
            Ok(_) => {},
            Err(e) => {
                proof {
                    assert(false);
                }
                return Err(e);
            },
        }
        match self.save_stream(stream) {
            Ok(_) => {},
            Err(e) => {
                proof {
                    assert(false);
                }
                return Err(e);
            },
        }
        proof {
            let post = *self;
            let s0 = pre.streams@[stream_id];
            let s1 = post.streams@[stream_id];
            let tok = s0.token_account_id@;
            let ts0 = pre.stats.spec_token_stats(tok);
            assert(post.streams@ =~= pre.streams@.insert(stream_id, s1));
            assert forall|id2: StreamId| #[trigger] post.streams@.dom().contains(id2) implies
                post.streams@[id2].last_action <= now by {
                if id2 != stream_id {
                    assert(post.streams@[id2] == pre.streams@[id2]);
                }
            }
        }
        Ok(())
    }
}

impl Contract {
    /// Whether `Pause` succeeds for `sender` on `id` at `now`.
    pub open spec fn can_pause(self, sender: Seq<char>, id: StreamId, now: Timestamp) -> bool {
        &&& self.streams@.dom().contains(id)
        &&& !self.streams@[id].is_locked
        &&& (self.streams@[id].owner_id@ == sender || self.streams@[id].receiver_id@ == sender)
        &&& self.streams@[id].status is Active
        &&& !(self.streams@[id].cliff is Some && now < self.streams@[id].cliff->0)
    }

    /// Pauses a stream: either party, only while `Active`, never locked, and
    /// only once the cliff has passed. The accrued amount is settled and
    /// paid first; the stream then leaves the active sets and tallies, and
    /// turns `Paused` unless settlement finished it. Any failure leaves the
    /// state untouched.
    pub fn pause_stream_op(
        &mut self,
        sender_id: &AccountId,
        stream_id: StreamId,
        now: Timestamp,
    ) -> (r: Result<Vec<Instruction>, ContractError>)
        requires
            old(self).wf(),
            old(self).time_ok(now),
        ensures
            final(self).wf(),
            final(self).time_ok(now),
            r is Err ==> *final(self) == *old(self),
            r is Ok <==> old(self).can_pause(sender_id@, stream_id, now),
            !old(self).streams@.dom().contains(stream_id) ==> r == Result::<
                Vec<Instruction>,
                ContractError,
            >::Err(ContractError::StreamNotExist { stream_id }),
            old(self).streams@.dom().contains(stream_id) ==> ({
                let s0 = old(self).streams@[stream_id];
                &&& s0.is_locked ==> r == Result::<Vec<Instruction>, ContractError>::Err(
                    ContractError::StreamLocked { stream_id },
                )
                &&& (!s0.is_locked && s0.owner_id@ != sender_id@ && s0.receiver_id@ != sender_id@)
                    ==> r == Result::<Vec<Instruction>, ContractError>::Err(
                    ContractError::CallerIsNotStreamActor {
                        owner: s0.owner_id,
                        receiver: s0.receiver_id,
                        caller: *sender_id,
                    },
                )
                &&& (!s0.is_locked && (s0.owner_id@ == sender_id@ || s0.receiver_id@ == sender_id@)
                    && !(s0.status is Active)) ==> r == Result::<Vec<Instruction>, ContractError,
                >::Err(ContractError::CannotPauseStream { stream_status: s0.status })
                &&& (!s0.is_locked && (s0.owner_id@ == sender_id@ || s0.receiver_id@ == sender_id@)
                    && s0.status is Active && s0.cliff is Some && now < s0.cliff->0) ==> r
                    == Result::<Vec<Instruction>, ContractError>::Err(
                    ContractError::CliffNotPassed { timestamp: s0.cliff->0 },
                )
            }),
            r matches Ok(v) ==> ({
                let s_mid = old(self).streams@[stream_id].spec_update_cliff(now);
                let st = spec_settled_dao(s_mid, old(self).dao, now).0;
                let s1 = if st.status is Finished {
                    st
                } else {
                    Stream { status: StreamStatus::Paused, ..st }
                };
                &&& final(self).streams@ == old(self).streams@.insert(stream_id, s1)
                &&& pause_applied(*old(self), *final(self), s_mid, s1, now, v@)
                &&& final(self).dao == old(self).dao
                &&& final(self).finance_id == old(self).finance_id
            }),
    {
        let ghost pre = *self;
        match self.view_stream(stream_id) {
            Err(e) => {
                return Err(e);
            },
            Ok(s) => {
                if s.is_locked {
                    return Err(ContractError::StreamLocked { stream_id: s.id });
                }
                if s.owner_id != *sender_id && s.receiver_id != *sender_id {
                    return Err(ContractError::CallerIsNotStreamActor {
                        owner: s.owner_id.clone(),
                        receiver: s.receiver_id.clone(),
                        caller: sender_id.clone(),
                    });
                }
                if !(s.status == StreamStatus::Active) {
                    return Err(ContractError::CannotPauseStream { stream_status: s.status });
                }
                match s.cliff {
                    Some(cliff) => {
                        if now < cliff {
                            return Err(ContractError::CliffNotPassed { timestamp: cliff });
                        }
                    },
                    None => {},
                }
            },
        }
        let mut stream = match self.extract_stream(stream_id) {
            Ok(s) => s,
            Err(e) => {
                proof {
                    assert(false);
                }
                return Err(e);
            },
        };
        stream.update_cliff(now);
        proof {
            let s0 = pre.streams@[stream_id];
            assert(pre.stream_entry_ok(pre.streams@, stream_id));
            assert(self.accounts == pre.accounts);
            assert(self.index_ok_for(pre.streams@));
            pre.lemma_index_substitute(pre.streams@, stream_id, stream);
            assert(self.streams@.insert(stream_id, stream) =~= pre.streams@.insert(
                stream_id,
                stream,
            ));
        }
        let promises = match self.process_action(&mut stream, ActionType::Pause, now) {
            Ok(v) => v,
            Err(e) => {
                proof {
                    assert(false);
                }
                return Err(e);
            },
        };
        match self.save_stream(stream) {
            Ok(_) => {},
            Err(e) => {
                proof {
                    assert(false);
                }
                return Err(e);
            },
        }
        proof {
            let post = *self;
            let s1 = post.streams@[stream_id];
            assert(post.streams@ =~= pre.streams@.insert(stream_id, s1));
            assert forall|id2: StreamId| #[trigger] post.streams@.dom().contains(id2) implies
                post.streams@[id2].last_action <= now by {
                if id2 != stream_id {
                    assert(post.streams@[id2] == pre.streams@[id2]);
                }
            }
        }
        Ok(promises)
    }

    /// Whether `Stop` succeeds for `sender` on `id`.
    pub open spec fn can_stop(self, sender: Seq<char>, id: StreamId) -> bool {
        &&& self.streams@.dom().contains(id)
        &&& !(self.streams@[id].is_locked && !(self.streams@[id].status is Initialized))
        &&& (self.streams@[id].owner_id@ == sender || self.streams@[id].receiver_id@ == sender)
        &&& !self.streams@[id].status.spec_is_terminated()
    }

    /// Stops a stream for good: either party, any non-terminal status, and a
    /// locked stream only before it ever ran. An active stream settles and
    /// pays the receiver first; the rest of the principal is refunded to the
    /// owner and the stream finishes with the caller's reason (or keeps
    /// `FinishedNaturally` if settlement drained it). Any failure leaves the
    /// state untouched.
    pub fn stop_stream_op(
        &mut self,
        sender_id: &AccountId,
        stream_id: StreamId,
        now: Timestamp,
    ) -> (r: Result<Vec<Instruction>, ContractError>)
        requires
            old(self).wf(),
            old(self).time_ok(now),
        ensures
            final(self).wf(),
            final(self).time_ok(now),
            r is Err ==> *final(self) == *old(self),
            r is Ok <==> old(self).can_stop(sender_id@, stream_id),
            !old(self).streams@.dom().contains(stream_id) ==> r == Result::<
                Vec<Instruction>,
                ContractError,
            >::Err(ContractError::StreamNotExist { stream_id }),
            old(self).streams@.dom().contains(stream_id) ==> ({
                let s0 = old(self).streams@[stream_id];
                &&& (s0.is_locked && !(s0.status is Initialized)) ==> r == Result::<
                    Vec<Instruction>,
                    ContractError,
                >::Err(ContractError::StreamLocked { stream_id })
                &&& (!(s0.is_locked && !(s0.status is Initialized)) && s0.owner_id@ != sender_id@
                    && s0.receiver_id@ != sender_id@) ==> r == Result::<
                    Vec<Instruction>,
                    ContractError,
                >::Err(
                    ContractError::CallerIsNotStreamActor {
                        owner: s0.owner_id,
                        receiver: s0.receiver_id,
                        caller: *sender_id,
                    },
                )
                &&& (!(s0.is_locked && !(s0.status is Initialized)) && (s0.owner_id@ == sender_id@
                    || s0.receiver_id@ == sender_id@) && s0.status.spec_is_terminated()) ==> r
                    == Result::<Vec<Instruction>, ContractError>::Err(
                    ContractError::CannotStopStream { stream_status: s0.status },
                )
            }),
            r matches Ok(v) ==> ({
                let s0 = old(self).streams@[stream_id];
                let s_mid = s0.spec_update_cliff(now);
                let reason = if s0.owner_id@ == sender_id@ {
                    StreamFinishReason::StoppedByOwner
                } else {
                    StreamFinishReason::StoppedByReceiver
                };
                let st = spec_settled_dao(s_mid, old(self).dao, now).0;
                let s1 = if s_mid.status is Active {
                    if st.status is Finished {
                        st
                    } else {
                        Stream { balance: 0, status: StreamStatus::Finished { reason }, ..st }
                    }
                } else {
                    Stream {
                        balance: 0,
                        status: StreamStatus::Finished { reason },
                        last_action: now,
                        ..s_mid
                    }
                };
                &&& final(self).streams@ == old(self).streams@.insert(stream_id, s1)
                &&& stop_applied(*old(self), *final(self), s_mid, s1, now, reason, v@)
                &&& final(self).dao == old(self).dao
                &&& final(self).finance_id == old(self).finance_id
            }),
    {
        let ghost pre = *self;
        match self.view_stream(stream_id) {
            Err(e) => {
                return Err(e);
            },
            Ok(s) => {
                if s.is_locked && !(s.status == StreamStatus::Initialized) {
                    return Err(ContractError::StreamLocked { stream_id: s.id });
                }
                if s.owner_id != *sender_id && s.receiver_id != *sender_id {
                    return Err(ContractError::CallerIsNotStreamActor {
                        owner: s.owner_id.clone(),
                        receiver: s.receiver_id.clone(),
                        caller: sender_id.clone(),
                    });
                }
                if s.status.is_terminated() {
                    return Err(ContractError::CannotStopStream { stream_status: s.status });
                }
            },
        }
        let mut stream = match self.extract_stream(stream_id) {
            Ok(s) => s,
            Err(e) => {
                proof {
                    assert(false);
                }
                return Err(e);
            },
        };
        let reason = if stream.owner_id == *sender_id {
            StreamFinishReason::StoppedByOwner
        } else {
            StreamFinishReason::StoppedByReceiver
        };
        stream.update_cliff(now);
        proof {
            assert(pre.stream_entry_ok(pre.streams@, stream_id));
            assert(self.accounts == pre.accounts);
            assert(self.index_ok_for(pre.streams@));
            pre.lemma_index_substitute(pre.streams@, stream_id, stream);
            assert(self.streams@.insert(stream_id, stream) =~= pre.streams@.insert(
                stream_id,
                stream,
            ));
        }
        let promises = match self.process_action(&mut stream, ActionType::Stop { reason }, now) {
            Ok(v) => v,
            Err(e) => {
                proof {
                    assert(false);
                }
                return Err(e);
            },
        };
        match self.save_stream(stream) {
            Ok(_) => {},
            Err(e) => {
                proof {
                    assert(false);
                }
                return Err(e);
            },
        }
        proof {
            let post = *self;
            let s1 = post.streams@[stream_id];
            assert(post.streams@ =~= pre.streams@.insert(stream_id, s1));
            assert forall|id2: StreamId| #[trigger] post.streams@.dom().contains(id2) implies
                post.streams@[id2].last_action <= now by {
                if id2 != stream_id {
                    assert(post.streams@[id2] == pre.streams@[id2]);
                }
            }
        }
        Ok(promises)
    }

    /// Whether `Withdraw` succeeds for `sender` on `id` at `now`.
    pub open spec fn can_withdraw(self, sender: Seq<char>, id: StreamId, now: Timestamp) -> bool {
        &&& self.streams@.dom().contains(id)
        &&& (self.streams@[id].receiver_id@ == sender || self.accounts@.index(
            self.streams@[id].receiver_id@,
        ).is_cron_allowed)
        &&& self.streams@[id].status is Active
        &&& !(self.streams@[id].cliff is Some && now < self.streams@[id].cliff->0)
    }

    /// Withdraws everything accrued: the receiver (or anyone, if the
    /// receiver allows automated calls), only while `Active`, only past the
    /// cliff. If settlement drains the stream it finishes naturally and
    /// leaves the active sets and tallies. Any failure leaves the state
    /// untouched.
    pub fn withdraw_op(
        &mut self,
        sender_id: &AccountId,
        stream_id: StreamId,
        now: Timestamp,
    ) -> (r: Result<Vec<Instruction>, ContractError>)
        requires
            old(self).wf(),
            old(self).time_ok(now),
        ensures
            final(self).wf(),
            final(self).time_ok(now),
            r is Err ==> *final(self) == *old(self),
            r is Ok <==> old(self).can_withdraw(sender_id@, stream_id, now),
            !old(self).streams@.dom().contains(stream_id) ==> r == Result::<
                Vec<Instruction>,
                ContractError,
            >::Err(ContractError::StreamNotExist { stream_id }),
            old(self).streams@.dom().contains(stream_id) ==> ({
                let s0 = old(self).streams@[stream_id];
                let cron = old(self).accounts@.index(s0.receiver_id@).is_cron_allowed;
                &&& (s0.receiver_id@ != sender_id@ && !cron) ==> (r matches Err(e) && e matches
                    ContractError::CronCallsForbidden { received } && received@
                    == s0.receiver_id@)
                &&& ((s0.receiver_id@ == sender_id@ || cron) && !(s0.status is Active)) ==> r
                    == Result::<Vec<Instruction>, ContractError>::Err(
                    ContractError::CannotWithdraw { stream_status: s0.status },
                )
                &&& ((s0.receiver_id@ == sender_id@ || cron) && s0.status is Active
                    && s0.cliff is Some && now < s0.cliff->0) ==> r == Result::<
                    Vec<Instruction>,
                    ContractError,
                >::Err(ContractError::CliffNotPassed { timestamp: s0.cliff->0 })
            }),
            r matches Ok(v) ==> ({
                let s_mid = old(self).streams@[stream_id].spec_update_cliff(now);
                let s1 = spec_settled_dao(s_mid, old(self).dao, now).0;
                &&& final(self).streams@ == old(self).streams@.insert(stream_id, s1)
                &&& withdraw_applied(*old(self), *final(self), s_mid, s1, now, v@)
                &&& final(self).dao == old(self).dao
                &&& final(self).finance_id == old(self).finance_id
            }),
    {
        let ghost pre = *self;
        match self.view_stream(stream_id) {
            Err(e) => {
                return Err(e);
            },
            Ok(s) => {
                proof {
                    assert(pre.stream_entry_ok(pre.streams@, stream_id));
                }
                let receiver_view = match self.view_account(&s.receiver_id) {
                    Some(a) => a,
                    None => {
                        proof {
                            assert(false);
                        }
                        return Err(ContractError::AccountNotExist {
                            account_id: s.receiver_id.clone(),
                        });
                    },
                };
                if receiver_view.id != *sender_id && !receiver_view.is_cron_allowed {
                    return Err(ContractError::CronCallsForbidden {
                        received: receiver_view.id.clone(),
                    });
                }
                if !(s.status == StreamStatus::Active) {
                    return Err(ContractError::CannotWithdraw { stream_status: s.status });
                }
                match s.cliff {
                    Some(cliff) => {
                        if now < cliff {
                            return Err(ContractError::CliffNotPassed { timestamp: cliff });
                        }
                    },
                    None => {},
                }
            },
        }
        let mut stream = match self.extract_stream(stream_id) {
            Ok(s) => s,
            Err(e) => {
                proof {
                    assert(false);
                }
                return Err(e);
            },
        };
        stream.update_cliff(now);
        proof {
            assert(pre.stream_entry_ok(pre.streams@, stream_id));
            assert(self.accounts == pre.accounts);
            assert(self.index_ok_for(pre.streams@));
            pre.lemma_index_substitute(pre.streams@, stream_id, stream);
            assert(self.streams@.insert(stream_id, stream) =~= pre.streams@.insert(
                stream_id,
                stream,
            ));
        }
        let promises = match self.process_action(&mut stream, ActionType::Withdraw, now) {
            Ok(v) => v,
            Err(e) => {
                proof {
                    assert(false);
                }
                return Err(e);
            },
        };
        match self.save_stream(stream) {
            Ok(_) => {},
            Err(e) => {
                proof {
                    assert(false);
                }
                return Err(e);
            },
        }
        proof {
            let post = *self;
            let s1 = post.streams@[stream_id];
            assert(post.streams@ =~= pre.streams@.insert(stream_id, s1));
            assert forall|id2: StreamId| #[trigger] post.streams@.dom().contains(id2) implies
                post.streams@[id2].last_action <= now by {
                if id2 != stream_id {
                    assert(post.streams@[id2] == pre.streams@[id2]);
                }
            }
        }
        Ok(promises)
    }

    /// Whether a description is over the limit, measured in bytes.
    pub open spec fn spec_description_too_long(d: Option<String>) -> bool {
        d is Some && vstd::utf8::encode_utf8(d->0@).len() as usize
            > crate::primitives::MAX_DESCRIPTION_LEN
    }

    /// Changes the description: only the owner, never on a locked or
    /// terminated stream, and only within the length limit. Any failure
    /// leaves the state untouched.
    pub fn change_description_op(
        &mut self,
        sender_id: &AccountId,
        stream_id: StreamId,
        new_description: Option<String>,
    ) -> (r: Result<(), ContractError>)
        requires
            old(self).wf(),
        ensures
            final(self).wf(),
            r is Err ==> *final(self) == *old(self),
            r is Ok <==> (old(self).streams@.dom().contains(stream_id) && ({
                let s0 = old(self).streams@[stream_id];
                &&& !s0.status.spec_is_terminated()
                &&& !s0.is_locked
                &&& s0.owner_id@ == sender_id@
                &&& !Contract::spec_description_too_long(new_description)
            })),
            r is Ok ==> final(self).streams@ == old(self).streams@.insert(
                stream_id,
                (Stream { description: new_description, ..old(self).streams@[stream_id] }),
            ) && *final(self) == (Contract { streams: final(self).streams, ..*old(self) }),
    {
        let ghost pre = *self;
        match self.view_stream(stream_id) {
            Err(e) => {
                return Err(e);
            },
            Ok(s) => {
                if s.status.is_terminated() {
                    return Err(ContractError::StreamTerminated { stream_id });
                }
                if s.is_locked {
                    return Err(ContractError::StreamLocked { stream_id });
                }
                if s.owner_id != *sender_id {
                    return Err(ContractError::CallerIsNotStreamOwner {
                        expected: s.owner_id.clone(),
                        received: sender_id.clone(),
                    });
                }
            },
        }
        match &new_description {
            Some(text) => {
                if text.as_str().len() > crate::primitives::MAX_DESCRIPTION_LEN {
                    return Err(ContractError::DescriptionTooLong {
                        max_description_len: crate::primitives::MAX_DESCRIPTION_LEN,
                        received: text.as_str().len(),
                    });
                }
            },
            None => {},
        }
        let mut stream = match self.extract_stream(stream_id) {
            Ok(s) => s,
            Err(e) => {
                proof {
                    assert(false);
                }
                return Err(e);
            },
        };
        stream.description = new_description;
        proof {
            assert(pre.stream_entry_ok(pre.streams@, stream_id));
            pre.lemma_index_substitute(pre.streams@, stream_id, stream);
            assert(self.streams@.insert(stream_id, stream) =~= pre.streams@.insert(
                stream_id,
                stream,
            ));
        }
        match self.save_stream(stream) {
            Ok(_) => {},
            Err(e) => {
                proof {
                    assert(false);
                }
                return Err(e);
            },
        }
        proof {
            let post = *self;
            assert(post.streams@ =~= pre.streams@.insert(stream_id, post.streams@[stream_id]));
            assert(post.index_ok_for(post.streams@)) by {
                assert(pre.index_ok_for(post.streams@));
            }
        }
        Ok(())
    }
}

impl Contract {
    /// The deposit races with natural expiry: everything accrued already
    /// covers the whole balance of an expirable stream.
    pub open spec fn spec_deposit_expiry(self, id: StreamId, now: Timestamp) -> bool {
        let s = self.streams@[id];
        s.spec_available(now) == s.balance && s.balance > 0 && s.is_expirable
    }

    /// Whether `Deposit` succeeds on `id` at `now`.
    pub open spec fn can_deposit(
        self,
        token_k: Seq<char>,
        id: StreamId,
        amount: int,
        now: Timestamp,
    ) -> bool {
        &&& self.streams@.dom().contains(id)
        &&& !self.streams@[id].status.spec_is_terminated()
        &&& !(self.streams@[id].is_locked && !(self.streams@[id].status is Initialized))
        &&& !(self.streams@[id].cliff is Some && now < self.streams@[id].cliff->0)
        &&& !self.spec_deposit_expiry(id, now)
        &&& self.streams@[id].token_account_id@ == token_k
        &&& amount <= MAX_AMOUNT
        &&& self.streams@[id].balance + amount <= MAX_AMOUNT
    }

    /// Tops up a stream's balance. A deposit racing with the natural expiry
    /// of an expirable stream is rejected and the stream is force-stopped
    /// instead — expiry wins; the settlement instructions of that stop are
    /// appended to `promises` even though the deposit itself reports
    /// `StreamExpired`. Every other failure leaves the state untouched.
    pub fn deposit_op(
        &mut self,
        token_account_id: AccountId,
        stream_id: StreamId,
        amount: Balance,
        now: Timestamp,
        promises: &mut Vec<Instruction>,
    ) -> (r: Result<(), ContractError>)
        requires
            old(self).wf(),
            old(self).time_ok(now),
            amount > 0,
            old(self).streams@.dom().contains(stream_id) ==> old(self).streams@[
                stream_id
            ].tokens_total_withdrawn + old(self).streams@[stream_id].balance + amount
                <= u128::MAX,
        ensures
            final(self).wf(),
            final(self).time_ok(now),
            r is Ok <==> old(self).can_deposit(token_account_id@, stream_id, amount as int, now),
            !old(self).streams@.dom().contains(stream_id) ==> r == Result::<(), ContractError>::Err(
                ContractError::StreamNotExist { stream_id },
            ) && *final(self) == *old(self) && *final(promises) == *old(promises),
            old(self).streams@.dom().contains(stream_id) ==> ({
                let s0 = old(self).streams@[stream_id];
                &&& s0.status.spec_is_terminated() ==> r == Result::<(), ContractError>::Err(
                    ContractError::StreamTerminated { stream_id },
                ) && *final(self) == *old(self) && *final(promises) == *old(promises)
                &&& (!s0.status.spec_is_terminated() && s0.is_locked && !(
                s0.status is Initialized)) ==> r == Result::<(), ContractError>::Err(
                    ContractError::StreamLocked { stream_id },
                ) && *final(self) == *old(self) && *final(promises) == *old(promises)
                &&& (!s0.status.spec_is_terminated() && !(s0.is_locked && !(
                s0.status is Initialized)) && s0.cliff is Some && now < s0.cliff->0) ==> r
                    == Result::<(), ContractError>::Err(
                    ContractError::CliffNotPassed { timestamp: s0.cliff->0 },
                ) && *final(self) == *old(self) && *final(promises) == *old(promises)
                &&& (!s0.status.spec_is_terminated() && !(s0.is_locked && !(
                s0.status is Initialized)) && !(s0.cliff is Some && now < s0.cliff->0) && old(
                    self,
                ).spec_deposit_expiry(stream_id, now)) ==> ({
                    let s_mid = s0.spec_update_cliff(now);
                    let st = spec_settled_dao(s_mid, old(self).dao, now).0;
                    let reason = StreamFinishReason::FinishedBecauseCannotBeExtended;
                    let s1 = if s_mid.status is Active {
                        if st.status is Finished {
                            st
                        } else {
                            Stream { balance: 0, status: StreamStatus::Finished { reason }, ..st }
                        }
                    } else {
                        Stream {
                            balance: 0,
                            status: StreamStatus::Finished { reason },
                            last_action: now,
                            ..s_mid
                        }
                    };
                    &&& r == Result::<(), ContractError>::Err(
                        ContractError::StreamExpired { stream_id },
                    )
                    &&& final(self).streams@ == old(self).streams@.insert(stream_id, s1)
                    &&& old(promises)@.len() <= final(promises)@.len()
                    &&& final(promises)@.subrange(0, old(promises)@.len() as int) == old(promises)@
                    &&& stop_applied(
                        *old(self),
                        *final(self),
                        s_mid,
                        s1,
                        now,
                        reason,
                        final(promises)@.subrange(
                            old(promises)@.len() as int,
                            final(promises)@.len() as int,
                        ),
                    )
                })
                &&& (!s0.status.spec_is_terminated() && !(s0.is_locked && !(
                s0.status is Initialized)) && !(s0.cliff is Some && now < s0.cliff->0) && !old(
                    self,
                ).spec_deposit_expiry(stream_id, now) && s0.token_account_id@
                    != token_account_id@) ==> (r matches Err(e) && e matches
                    ContractError::InvalidToken { expected, received } && expected@
                    == s0.token_account_id@ && received@ == token_account_id@ && *final(self)
                    == *old(self) && *final(promises) == *old(promises))
                &&& (!s0.status.spec_is_terminated() && !(s0.is_locked && !(
                s0.status is Initialized)) && !(s0.cliff is Some && now < s0.cliff->0) && !old(
                    self,
                ).spec_deposit_expiry(stream_id, now) && s0.token_account_id@ == token_account_id@
                    && (amount > MAX_AMOUNT || s0.balance + amount > MAX_AMOUNT)) ==> r
                    == Result::<(), ContractError>::Err(
                    ContractError::ExceededMaxBalance { max_amount: MAX_AMOUNT },
                ) && *final(self) == *old(self) && *final(promises) == *old(promises)
            }),
            r is Ok ==> ({
                let s0 = old(self).streams@[stream_id];
                let s_mid = s0.spec_update_cliff(now);
                let s1 = Stream { balance: (s_mid.balance + amount) as u128, ..s_mid };
                let ts0 = old(self).stats.spec_token_stats(s0.token_account_id@);
                &&& final(self).streams@ == old(self).streams@.insert(stream_id, s1)
                &&& final(self).stats.dao_tokens@ == old(self).stats.dao_tokens@.insert(
                    s0.token_account_id@,
                    TokenStats {
                        total_deposit: ts0.total_deposit.saturating_add(amount),
                        tvl: ts0.tvl.saturating_add(amount),
                        ..ts0
                    },
                )
                &&& final(self).stats == (Stats {
                    dao_tokens: final(self).stats.dao_tokens,
                    ..old(self).stats
                })
                &&& *final(self) == (Contract {
                    streams: final(self).streams,
                    stats: final(self).stats,
                    ..*old(self)
                })
                &&& final(promises)@.len() == old(promises)@.len() + 1
                &&& final(promises)@.subrange(0, old(promises)@.len() as int) == old(promises)@
                &&& crate::transfer::spec_self_transfer(
                    s0.token_account_id@,
                    old(self).finance_id@,
                    amount as int,
                    Some(final(promises)@.last()),
                )
            }),
    {
        let ghost pre = *self;
        match self.view_stream(stream_id) {
            Err(e) => {
                return Err(e);
            },
            Ok(s) => {
                if s.status.is_terminated() {
                    return Err(ContractError::StreamTerminated { stream_id });
                }
                if s.is_locked && !(s.status == StreamStatus::Initialized) {
                    return Err(ContractError::StreamLocked { stream_id: s.id });
                }
                match s.cliff {
                    Some(cliff) => {
                        if now < cliff {
                            return Err(ContractError::CliffNotPassed { timestamp: cliff });
                        }
                    },
                    None => {},
                }
                proof {
                    assert(pre.stream_entry_ok(pre.streams@, stream_id));
                }
                let available = s.available_to_withdraw(now);
                if available == s.balance && s.balance > 0 && s.is_expirable {
                    // Fall through to the force-stop below.
                } else {
                    if s.token_account_id != token_account_id {
                        return Err(ContractError::InvalidToken {
                            expected: s.token_account_id.clone(),
                            received: token_account_id,
                        });
                    }
                    if amount > MAX_AMOUNT || s.balance + amount > MAX_AMOUNT {
                        return Err(ContractError::ExceededMaxBalance { max_amount: MAX_AMOUNT });
                    }
                }
            },
        }
        let mut stream = match self.extract_stream(stream_id) {
            Ok(s) => s,
            Err(e) => {
                proof {
                    assert(false);
                }
                return Err(e);
            },
        };
        stream.update_cliff(now);
        proof {
            assert(pre.stream_entry_ok(pre.streams@, stream_id));
            assert(self.accounts == pre.accounts);
            assert(self.index_ok_for(pre.streams@));
            pre.lemma_index_substitute(pre.streams@, stream_id, stream);
            assert(self.streams@.insert(stream_id, stream) =~= pre.streams@.insert(
                stream_id,
                stream,
            ));
        }
        let available = stream.available_to_withdraw(now);
        if available == stream.balance && stream.balance > 0 && stream.is_expirable {
            // The deposit races with natural expiry: expiry wins. Settle and
            // force-stop, then reject the deposit.
            let mut actions = match self.process_action(
                &mut stream,
                ActionType::Stop { reason: StreamFinishReason::FinishedBecauseCannotBeExtended },
                now,
            ) {
                Ok(v) => v,
                Err(e) => {
                    proof {
                        assert(false);
                    }
                    return Err(e);
                },
            };
            promises.append(&mut actions);
            match self.save_stream(stream) {
                Ok(_) => {},
                Err(e) => {
                    proof {
                        assert(false);
                    }
                    return Err(e);
                },
            }
            proof {
                let post = *self;
                let s1 = post.streams@[stream_id];
                assert(post.streams@ =~= pre.streams@.insert(stream_id, s1));
                assert(promises@.subrange(0, old(promises)@.len() as int) =~= old(promises)@);
                assert forall|id2: StreamId| #[trigger] post.streams@.dom().contains(id2) implies
                    post.streams@[id2].last_action <= now by {
                    if id2 != stream_id {
                        assert(post.streams@[id2] == pre.streams@[id2]);
                    }
                }
            }
            return Err(ContractError::StreamExpired { stream_id });
        }
        stream.balance = stream.balance + amount;
        proof {
            pre.lemma_index_substitute(pre.streams@, stream_id, stream);
        }
        match self.ft_transfer_from_self(
            stream.token_account_id.clone(),
            self.finance_id.clone(),
            amount,
        ) {
            Ok(Some(ins)) => promises.push(ins),
            Ok(None) => {
                proof {
                    assert(false);
                }
            },
            Err(e) => {
                proof {
                    assert(false);
                }
                return Err(e);
            },
        }
        match self.save_stream(stream) {
            Ok(_) => {},
            Err(e) => {
                proof {
                    assert(false);
                }
                return Err(e);
            },
        }
        self.stats.inc_stream_deposit(&token_account_id, amount, 0);
        proof {
            let post = *self;
            let s1 = post.streams@[stream_id];
            assert(post.streams@ =~= pre.streams@.insert(stream_id, s1));
            assert(promises@.subrange(0, old(promises)@.len() as int) =~= old(promises)@);
            let ts0 = pre.stats.spec_token_stats(pre.streams@[stream_id].token_account_id@);
            assert(post.stats.dao_tokens@ =~= pre.stats.dao_tokens@.insert(
                pre.streams@[stream_id].token_account_id@,
                TokenStats {
                    total_deposit: ts0.total_deposit.saturating_add(amount),
                    tvl: ts0.tvl.saturating_add(amount),
                    ..ts0
                },
            ));
            assert forall|id2: StreamId| #[trigger] post.streams@.dom().contains(id2) implies
                post.streams@[id2].last_action <= now by {
                if id2 != stream_id {
                    assert(post.streams@[id2] == pre.streams@[id2]);
                }
            }
        }
        Ok(())
    }
}


impl Contract {
    /// Validates a creation request without touching any state; on success
    /// returns the funded balance after the creation commission, the total
    /// commission to record, the computed cliff, and the resolved flags.
    #[allow(clippy::too_many_arguments)]
    fn validate_create(
        &self,
        description: &Option<String>,
        creator_id: &AccountId,
        owner_id: &AccountId,
        receiver_id: &AccountId,
        token_account_id: &AccountId,
        initial_balance: Balance,
        tokens_per_sec: Balance,
        cliff_period_sec: Option<u32>,
        is_auto_start_enabled: Option<bool>,
        is_expirable: Option<bool>,
        is_locked: Option<bool>,
        stream_id: StreamId,
        now: Timestamp,
    ) -> (r: Result<(Balance, Balance, Option<Timestamp>, bool, bool, bool), ContractError>)
        requires
            self.wf(),
            initial_balance > 0,
            cliff_period_sec matches Some(p) ==> now + TICKS_PER_SECOND * p <= u64::MAX,
        ensures
            r is Ok <==> self.can_create(
                *description,
                owner_id@,
                receiver_id@,
                token_account_id@,
                initial_balance as int,
                tokens_per_sec as int,
                cliff_period_sec,
                (if is_auto_start_enabled is Some {
                    is_auto_start_enabled->0
                } else {
                    true
                }),
                (if is_locked is Some {
                    is_locked->0
                } else {
                    false
                }),
                creator_id@,
                stream_id,
            ),
            ({
                let desc_bad = description is Some && vstd::utf8::encode_utf8(
                    description->0@,
                ).len() as usize >= crate::primitives::MAX_DESCRIPTION_LEN;
                let speed_bad = tokens_per_sec == 0 || tokens_per_sec > MAX_STREAMING_SPEED;
                let auto = if is_auto_start_enabled is Some {
                    is_auto_start_enabled->0
                } else {
                    true
                };
                let listed = dao_is_listed(self.dao, token_account_id@);
                let coc = if listed {
                    self.dao.tokens@.index(token_account_id@).commission_on_create
                } else {
                    0
                };
                let balance = self.spec_create_balance(token_account_id@, initial_balance as int);
                let reserve = self.spec_reserve_of(creator_id@);
                let fee = self.dao.commission_non_payment_ft;
                let pass_funding = if listed {
                    initial_balance >= coc && (auto ==> balance > 0)
                } else {
                    reserve >= fee
                };
                &&& (desc_bad ==> r == Result::<(Balance, Balance, Option<Timestamp>, bool, bool, bool), ContractError>::Err(
                    ContractError::DescriptionTooLong {
                        max_description_len: crate::primitives::MAX_DESCRIPTION_LEN,
                        received: vstd::utf8::encode_utf8(description->0@).len() as usize,
                    },
                ))
                &&& (!desc_bad && speed_bad ==> r == Result::<(Balance, Balance, Option<Timestamp>, bool, bool, bool), ContractError>::Err(
                    ContractError::InvalidStreamingSpeed {
                        min_streaming_speed: crate::primitives::MIN_STREAMING_SPEED,
                        max_streaming_speed: MAX_STREAMING_SPEED,
                        received: tokens_per_sec,
                    },
                ))
                &&& (!desc_bad && !speed_bad && listed && initial_balance < coc ==> r
                    == Result::<(Balance, Balance, Option<Timestamp>, bool, bool, bool), ContractError>::Err(
                    ContractError::InsufficientDeposit {
                        expected: coc,
                        received: initial_balance,
                    },
                ))
                &&& (!desc_bad && !speed_bad && listed && initial_balance >= coc && auto && balance
                    == 0 ==> r == Result::<(Balance, Balance, Option<Timestamp>, bool, bool, bool), ContractError>::Err(ContractError::ZeroBalanceStreamStart))
                &&& (!desc_bad && !speed_bad && !listed && reserve < fee ==> r == Result::<(Balance, Balance, Option<Timestamp>, bool, bool, bool), ContractError>::Err(
                    ContractError::InsufficientNearBalance {
                        requested: fee,
                        left: reserve as u128,
                    },
                ))
                &&& (!desc_bad && !speed_bad && pass_funding && balance > MAX_AMOUNT ==> r
                    == Result::<(Balance, Balance, Option<Timestamp>, bool, bool, bool), ContractError>::Err(ContractError::ExceededMaxBalance { max_amount: MAX_AMOUNT }))
                &&& (!desc_bad && !speed_bad && pass_funding && balance <= MAX_AMOUNT
                    && cliff_period_sec is Some && !auto ==> r == Result::<(Balance, Balance, Option<Timestamp>, bool, bool, bool), ContractError>::Err(
                    ContractError::MustStartImmediately,
                ))
                &&& (!desc_bad && !speed_bad && pass_funding && balance <= MAX_AMOUNT && (
                cliff_period_sec is Some ==> auto) && owner_id@ == receiver_id@ ==> (r matches Err(
                    e,
                ) && e matches ContractError::AccountNotExist { account_id } && account_id@
                    == receiver_id@))
                &&& (!desc_bad && !speed_bad && pass_funding && balance <= MAX_AMOUNT && (
                cliff_period_sec is Some ==> auto) && owner_id@ != receiver_id@
                    && self.streams@.dom().contains(stream_id) ==> r == Result::<(Balance, Balance, Option<Timestamp>, bool, bool, bool), ContractError>::Err(
                    ContractError::DataCorruption,
                ))
            }),
            r matches Ok(v) ==> ({
                let auto_start = if is_auto_start_enabled is Some {
                    is_auto_start_enabled->0
                } else {
                    true
                };
                let locked = if is_locked is Some {
                    is_locked->0
                } else {
                    false
                };
                let listed = dao_is_listed(self.dao, token_account_id@);
                &&& v.0 == self.spec_create_balance(token_account_id@, initial_balance as int)
                &&& v.1 == (if listed {
                    self.dao.tokens@.index(token_account_id@).commission_on_create as int
                } else {
                    0
                }) + (if listed && auto_start && locked {
                    dao_commission(self.dao, token_account_id@, v.0 as int)
                } else {
                    0
                })
                &&& v.2 == (match cliff_period_sec {
                    Some(p) => Some((now + TICKS_PER_SECOND * p) as u64),
                    None => None::<Timestamp>,
                })
                &&& v.3 == auto_start
                &&& v.4 == (if is_expirable is Some {
                    is_expirable->0
                } else {
                    true
                })
                &&& v.5 == locked
            }),
    {
        match description {
            Some(text) => {
                if text.as_str().len() >= crate::primitives::MAX_DESCRIPTION_LEN {
                    return Err(ContractError::DescriptionTooLong {
                        max_description_len: crate::primitives::MAX_DESCRIPTION_LEN,
                        received: text.as_str().len(),
                    });
                }
            },
            None => {},
        }
        if tokens_per_sec == 0 || tokens_per_sec > MAX_STREAMING_SPEED {
            return Err(ContractError::InvalidStreamingSpeed {
                min_streaming_speed: crate::primitives::MIN_STREAMING_SPEED,
                max_streaming_speed: MAX_STREAMING_SPEED,
                received: tokens_per_sec,
            });
        }
        let auto_start = match is_auto_start_enabled {
            Some(value) => value,
            None => true,
        };
        let expirable = match is_expirable {
            Some(value) => value,
            None => true,
        };
        let locked = match is_locked {
            Some(value) => value,
            None => false,
        };
        let token = self.dao.get_token(token_account_id);
        let mut balance = initial_balance;
        let mut commission: Balance = 0;
        if token.is_payment {
            // The DAO-configured creation commission is taken from the
            // funded amount.
            if balance < token.commission_on_create {
                return Err(ContractError::InsufficientDeposit {
                    expected: token.commission_on_create,
                    received: balance,
                });
            }
            balance = balance - token.commission_on_create;
            commission = commission + token.commission_on_create;
            if auto_start && balance == 0 {
                return Err(ContractError::ZeroBalanceStreamStart);
            }
        } else {
            let reserve: Balance = match self.view_account(creator_id) {
                Some(a) => a.deposit,
                None => 0,
            };
            if reserve < self.dao.commission_non_payment_ft {
                return Err(ContractError::InsufficientNearBalance {
                    requested: self.dao.commission_non_payment_ft,
                    left: reserve,
                });
            }
        }
        if balance > MAX_AMOUNT {
            return Err(ContractError::ExceededMaxBalance { max_amount: MAX_AMOUNT });
        }
        if token.is_payment && auto_start && locked {
            // For locked streams the whole lifetime commission is recorded
            // when the stream starts.
            proof {
                crate::safe_float::lemma_commission_at_most_one(token.commission_coef);
            }
            let (_, calculated_commission) = token.apply_commission(balance);
            commission = commission + calculated_commission;
        }
        let cliff: Option<Timestamp> = match cliff_period_sec {
            Some(period) => {
                if !auto_start {
                    return Err(ContractError::MustStartImmediately);
                }
                Some(now + TICKS_PER_SECOND * (period as u64))
            },
            None => None,
        };
        if *owner_id == *receiver_id {
            return Err(ContractError::AccountNotExist { account_id: receiver_id.clone() });
        }
        if self.streams.contains_key(stream_id) {
            return Err(ContractError::DataCorruption);
        }
        Ok((balance, commission, cliff, auto_start, expirable, locked))
    }
}

impl Contract {
    /// The balance a new stream is funded with after the creation
    /// commission: for a listed asset the flat creation commission leaves
    /// the funded amount, for an unlisted one a flat native-currency fee is
    /// charged from the creator's reserve instead.
    pub open spec fn spec_create_balance(self, token_k: Seq<char>, initial: int) -> int {
        if dao_is_listed(self.dao, token_k) {
            initial - self.dao.tokens@[token_k].commission_on_create
        } else {
            initial
        }
    }

    /// The creator's native-currency reserve (zero if no record yet).
    pub open spec fn spec_reserve_of(self, k: Seq<char>) -> int {
        if self.accounts@.dom().contains(k) {
            self.accounts@[k].deposit as int
        } else {
            0
        }
    }

    /// Whether `Create` succeeds for the given request.
    #[allow(clippy::too_many_arguments)]
    pub open spec fn can_create(
        self,
        description: Option<String>,
        owner: Seq<char>,
        receiver: Seq<char>,
        token_k: Seq<char>,
        initial_balance: int,
        tokens_per_sec: int,
        cliff_period_sec: Option<u32>,
        auto_start: bool,
        locked: bool,
        creator: Seq<char>,
        stream_id: StreamId,
    ) -> bool {
        let balance = self.spec_create_balance(token_k, initial_balance);
        &&& !(description is Some && vstd::utf8::encode_utf8(description->0@).len() as usize
            >= crate::primitives::MAX_DESCRIPTION_LEN)
        &&& 0 < tokens_per_sec <= MAX_STREAMING_SPEED
        &&& (dao_is_listed(self.dao, token_k) ==> initial_balance
            >= self.dao.tokens@[token_k].commission_on_create)
        &&& (dao_is_listed(self.dao, token_k) && auto_start ==> balance > 0)
        &&& (!dao_is_listed(self.dao, token_k) ==> self.spec_reserve_of(creator)
            >= self.dao.commission_non_payment_ft)
        &&& balance <= MAX_AMOUNT
        &&& (cliff_period_sec is Some ==> auto_start)
        &&& owner != receiver
        &&& !self.streams@.dom().contains(stream_id)
    }

    /// Creates a stream from a validated funding event: deducts the creation
    /// commission (flat asset commission if listed, flat native fee from the
    /// creator's reserve if not), registers the stream in both parties'
    /// inactive sets, and, if auto-start is enabled, immediately runs the
    /// `Start` transition (recording the whole lifetime commission up front
    /// for a locked stream). The funded balance moves to the finance vault
    /// and the vault is asked to cover storage needs. Any failure leaves the
    /// state untouched.
    #[allow(clippy::too_many_arguments)]
    #[verifier::rlimit(100)]
    pub fn create_stream_op(
        &mut self,
        description: Option<String>,
        creator_id: AccountId,
        owner_id: AccountId,
        receiver_id: AccountId,
        token_account_id: AccountId,
        initial_balance: Balance,
        tokens_per_sec: Balance,
        cliff_period_sec: Option<u32>,
        is_auto_start_enabled: Option<bool>,
        is_expirable: Option<bool>,
        is_locked: Option<bool>,
        stream_id: StreamId,
        now: Timestamp,
    ) -> (r: Result<Vec<Instruction>, ContractError>)
        requires
            old(self).wf(),
            old(self).time_ok(now),
            initial_balance > 0,
            cliff_period_sec matches Some(p) ==> now + TICKS_PER_SECOND * p <= u64::MAX,
        ensures
            final(self).wf(),
            final(self).time_ok(now),
            r is Err ==> *final(self) == *old(self),
            r is Ok <==> old(self).can_create(
                description,
                owner_id@,
                receiver_id@,
                token_account_id@,
                initial_balance as int,
                tokens_per_sec as int,
                cliff_period_sec,
                (if is_auto_start_enabled is Some {
                    is_auto_start_enabled->0
                } else {
                    true
                }),
                (if is_locked is Some {
                    is_locked->0
                } else {
                    false
                }),
                creator_id@,
                stream_id,
            ),
            ({
                let desc_bad = description is Some && vstd::utf8::encode_utf8(
                    description->0@,
                ).len() as usize >= crate::primitives::MAX_DESCRIPTION_LEN;
                let speed_bad = tokens_per_sec == 0 || tokens_per_sec > MAX_STREAMING_SPEED;
                let auto = if is_auto_start_enabled is Some {
                    is_auto_start_enabled->0
                } else {
                    true
                };
                let listed = dao_is_listed(old(self).dao, token_account_id@);
                let coc = if listed {
                    old(self).dao.tokens@.index(token_account_id@).commission_on_create
                } else {
                    0
                };
                let balance = old(self).spec_create_balance(token_account_id@, initial_balance as int);
                let reserve = old(self).spec_reserve_of(creator_id@);
                let fee = old(self).dao.commission_non_payment_ft;
                let pass_funding = if listed {
                    initial_balance >= coc && (auto ==> balance > 0)
                } else {
                    reserve >= fee
                };
                &&& (desc_bad ==> r == Result::<Vec<Instruction>, ContractError>::Err(
                    ContractError::DescriptionTooLong {
                        max_description_len: crate::primitives::MAX_DESCRIPTION_LEN,
                        received: vstd::utf8::encode_utf8(description->0@).len() as usize,
                    },
                ))
                &&& (!desc_bad && speed_bad ==> r == Result::<Vec<Instruction>, ContractError>::Err(
                    ContractError::InvalidStreamingSpeed {
                        min_streaming_speed: crate::primitives::MIN_STREAMING_SPEED,
                        max_streaming_speed: MAX_STREAMING_SPEED,
                        received: tokens_per_sec,
                    },
                ))
                &&& (!desc_bad && !speed_bad && listed && initial_balance < coc ==> r
                    == Result::<Vec<Instruction>, ContractError>::Err(
                    ContractError::InsufficientDeposit {
                        expected: coc,
                        received: initial_balance,
                    },
                ))
                &&& (!desc_bad && !speed_bad && listed && initial_balance >= coc && auto && balance
                    == 0 ==> r == Result::<Vec<Instruction>, ContractError>::Err(ContractError::ZeroBalanceStreamStart))
                &&& (!desc_bad && !speed_bad && !listed && reserve < fee ==> r == Result::<Vec<Instruction>, ContractError>::Err(
                    ContractError::InsufficientNearBalance {
                        requested: fee,
                        left: reserve as u128,
                    },
                ))
                &&& (!desc_bad && !speed_bad && pass_funding && balance > MAX_AMOUNT ==> r
                    == Result::<Vec<Instruction>, ContractError>::Err(ContractError::ExceededMaxBalance { max_amount: MAX_AMOUNT }))
                &&& (!desc_bad && !speed_bad && pass_funding && balance <= MAX_AMOUNT
                    && cliff_period_sec is Some && !auto ==> r == Result::<Vec<Instruction>, ContractError>::Err(
                    ContractError::MustStartImmediately,
                ))
                &&& (!desc_bad && !speed_bad && pass_funding && balance <= MAX_AMOUNT && (
                cliff_period_sec is Some ==> auto) && owner_id@ == receiver_id@ ==> (r matches Err(
                    e,
                ) && e matches ContractError::AccountNotExist { account_id } && account_id@
                    == receiver_id@))
                &&& (!desc_bad && !speed_bad && pass_funding && balance <= MAX_AMOUNT && (
                cliff_period_sec is Some ==> auto) && owner_id@ != receiver_id@
                    && old(self).streams@.dom().contains(stream_id) ==> r == Result::<Vec<Instruction>, ContractError>::Err(
                    ContractError::DataCorruption,
                ))
            }),
            r is Ok ==> ({
                let auto_start = if is_auto_start_enabled is Some {
                    is_auto_start_enabled->0
                } else {
                    true
                };
                let expirable = if is_expirable is Some {
                    is_expirable->0
                } else {
                    true
                };
                let locked = if is_locked is Some {
                    is_locked->0
                } else {
                    false
                };
                let tok = token_account_id@;
                let balance = old(self).spec_create_balance(tok, initial_balance as int);
                let listed = dao_is_listed(old(self).dao, tok);
                let commission = (if listed {
                    old(self).dao.tokens@[tok].commission_on_create as int
                } else {
                    0
                }) + (if listed && auto_start && locked {
                    dao_commission(old(self).dao, tok, balance)
                } else {
                    0
                });
                let s1 = final(self).streams@[stream_id];
                let ts0 = old(self).stats.spec_token_stats(tok);
                let cr1 = final(self).accounts@.index(creator_id@);
                &&& final(self).streams@.dom().contains(stream_id)
                &&& s1.id == stream_id
                &&& s1.description == description
                &&& s1.creator_id@ == creator_id@
                &&& s1.owner_id@ == owner_id@
                &&& s1.receiver_id@ == receiver_id@
                &&& s1.token_account_id@ == tok
                &&& s1.timestamp_created == now
                &&& s1.last_action == now
                &&& s1.balance == balance
                &&& s1.tokens_per_sec == tokens_per_sec
                &&& s1.status == (if auto_start {
                    StreamStatus::Active
                } else {
                    StreamStatus::Initialized
                })
                &&& s1.tokens_total_withdrawn == 0
                &&& s1.cliff == (match cliff_period_sec {
                    Some(p) => Some((now + TICKS_PER_SECOND * p) as u64),
                    None => None::<Timestamp>,
                })
                &&& s1.is_expirable == expirable
                &&& s1.is_locked == locked
                &&& final(self).streams@ == old(self).streams@.insert(stream_id, s1)
                &&& final(self).accounts@.dom().contains(creator_id@)
                &&& final(self).accounts@.dom().contains(owner_id@)
                &&& final(self).accounts@.dom().contains(receiver_id@)
                &&& cr1.total_streams_created == (if old(self).accounts@.dom().contains(
                    creator_id@,
                ) {
                    old(self).accounts@[creator_id@].total_streams_created
                } else {
                    0
                }).saturating_add(1)
                &&& cr1.last_created_stream == Some(stream_id)
                &&& cr1.deposit == (if !listed {
                    (old(self).spec_reserve_of(creator_id@)
                        - old(self).dao.commission_non_payment_ft) as u128
                } else {
                    (old(self).spec_reserve_of(creator_id@)) as u128
                })
                &&& final(self).stats.total_streams == old(
                    self,
                ).stats.total_streams.saturating_add(1)
                &&& final(self).stats.total_active_streams == (if auto_start {
                    old(self).stats.total_active_streams.saturating_add(1)
                } else {
                    old(self).stats.total_active_streams
                })
                &&& final(self).stats.dao_tokens@ == old(self).stats.dao_tokens@.insert(
                    tok,
                    TokenStats {
                        total_deposit: ts0.total_deposit.saturating_add(balance as u128),
                        tvl: ts0.tvl.saturating_add(balance as u128),
                        total_commission_collected: ts0.total_commission_collected.saturating_add(
                            commission as u128,
                        ),
                        streams: ts0.streams.saturating_add(1),
                        active_streams: (if auto_start {
                            ts0.active_streams.saturating_add(1)
                        } else {
                            ts0.active_streams
                        }),
                        ..ts0
                    },
                )
                &&& final(self).dao == old(self).dao
                &&& final(self).finance_id == old(self).finance_id
                &&& (r matches Ok(v) && v@.len() == (if balance > 0 {
                    2int
                } else {
                    1int
                }) && (balance > 0 ==> crate::transfer::spec_self_transfer(
                    tok,
                    old(self).finance_id@,
                    balance,
                    Some(v@[0]),
                )) && (v@.last() matches Instruction::StorageNeedsTransfer { finance_id: f }
                    && f@ == old(self).finance_id@))
            }),
    {
        let ghost pre = *self;
        let (balance, commission, cliff, is_auto_start_enabled, is_expirable, is_locked) = match self
            .validate_create(
            &description,
            &creator_id,
            &owner_id,
            &receiver_id,
            &token_account_id,
            initial_balance,
            tokens_per_sec,
            cliff_period_sec,
            is_auto_start_enabled,
            is_expirable,
            is_locked,
            stream_id,
            now,
        ) {
            Ok(v) => v,
            Err(e) => {
                return Err(e);
            },
        };
        let token = self.dao.get_token(&token_account_id);
        // Validations passed.
        self.create_account_if_not_exist(&creator_id);
        let ghost acc1 = self.accounts@;
        self.create_account_if_not_exist(&owner_id);
        let ghost acc2 = self.accounts@;
        self.create_account_if_not_exist(&receiver_id);
        let ghost acc3 = self.accounts@;
        proof {
            assert(acc3.dom().contains(creator_id@));
            assert(acc1[creator_id@].wf() && acc1[creator_id@].id@ == creator_id@) by {
                if pre.accounts@.dom().contains(creator_id@) {
                    assert(pre.accounts@[creator_id@].wf());
                }
            }
            assert(acc2[creator_id@] == acc1[creator_id@]);
            assert(acc3[creator_id@] == acc2[creator_id@]);
        }
        let mut creator = match self.extract_account(&creator_id) {
            Ok(a) => a,
            Err(e) => {
                proof {
                    assert(false);
                }
                return Err(e);
            },
        };
        if !token.is_payment {
            creator.deposit = creator.deposit - self.dao.commission_non_payment_ft;
        }
        creator.total_streams_created = creator.total_streams_created.saturating_add(1);
        creator.last_created_stream = Some(stream_id);
        match self.save_account(creator) {
            Ok(_) => {},
            Err(e) => {
                proof {
                    assert(false);
                }
                return Err(e);
            },
        }
        let mut stream = Stream::new(
            stream_id,
            description,
            creator_id.clone(),
            owner_id,
            receiver_id,
            token_account_id,
            balance,
            tokens_per_sec,
            cliff,
            is_expirable,
            is_locked,
            now,
        );
        proof {
            assert forall|k: Seq<char>| self.accounts@.dom().contains(k) implies (
            #[trigger] self.accounts@[k]).wf() && self.accounts@[k].id@ == k by {
                if k == creator_id@ {
                    assert(acc3[creator_id@].wf());
                    assert(self.accounts@[k].wf());
                } else {
                    assert(self.accounts@[k] == acc3[k]);
                    if pre.accounts@.dom().contains(k) {
                        assert(acc1[k] == pre.accounts@[k]);
                        assert(acc2[k] == acc1[k]);
                        assert(acc3[k] == acc2[k]);
                        assert(pre.accounts@[k].wf());
                    } else {
                        if acc1.dom().contains(k) {
                            assert(acc1[k].wf() && acc1[k].id@ == k);
                            assert(acc2[k] == acc1[k]);
                            assert(acc3[k] == acc2[k]);
                        } else if acc2.dom().contains(k) {
                            assert(acc2[k].wf() && acc2[k].id@ == k);
                            assert(acc3[k] == acc2[k]);
                        } else {
                            assert(acc3[k].wf() && acc3[k].id@ == k);
                        }
                    }
                }
            }
            assert forall|k: Seq<char>| #[trigger] pre.accounts@.dom().contains(k) implies
                self.accounts@.dom().contains(k) && self.accounts@[k].active_outgoing_streams@
                == pre.accounts@[k].active_outgoing_streams@ && self.accounts@[
                k
            ].inactive_outgoing_streams@ == pre.accounts@[k].inactive_outgoing_streams@
                && self.accounts@[k].active_incoming_streams@ == pre.accounts@[
                k
            ].active_incoming_streams@ && self.accounts@[k].inactive_incoming_streams@
                == pre.accounts@[k].inactive_incoming_streams@ by {
                assert(acc1[k] == pre.accounts@[k]);
                assert(acc2[k] == acc1[k]);
                assert(acc3[k] == acc2[k]);
                if k != creator_id@ {
                    assert(self.accounts@[k] == acc3[k]);
                }
            }
            assert forall|k: Seq<char>| #[trigger] self.accounts@.dom().contains(k)
                && !pre.accounts@.dom().contains(k) implies self.accounts@[
                k
            ].active_outgoing_streams@ == Set::<StreamId>::empty() && self.accounts@[
                k
            ].inactive_outgoing_streams@ == Set::<StreamId>::empty() && self.accounts@[
                k
            ].active_incoming_streams@ == Set::<StreamId>::empty() && self.accounts@[
                k
            ].inactive_incoming_streams@ == Set::<StreamId>::empty() by {
                if k == creator_id@ {
                    assert(Contract::is_fresh_account(acc1[creator_id@], creator_id@));
                } else {
                    assert(self.accounts@[k] == acc3[k]);
                    if acc1.dom().contains(k) {
                        assert(Contract::is_fresh_account(acc1[k], k));
                        assert(acc2[k] == acc1[k]);
                        assert(acc3[k] == acc2[k]);
                    } else if acc2.dom().contains(k) {
                        assert(Contract::is_fresh_account(acc2[k], k));
                        assert(acc3[k] == acc2[k]);
                    } else {
                        assert(Contract::is_fresh_account(acc3[k], k));
                    }
                }
            }
            lemma_index_accounts_extend(pre, *self, pre.streams@);
        }
        match self.process_action(&mut stream, ActionType::Init, now) {
            Ok(_) => {},
            Err(e) => {
                proof {
                    assert(false);
                }
                return Err(e);
            },
        }
        let is_aurora = {
            let a = crate::aurora::is_aurora_address(&stream.owner_id);
            let b = crate::aurora::is_aurora_address(&stream.receiver_id);
            a || b
        };
        self.stats.inc_stream_deposit(&stream.token_account_id, balance, commission);
        proof {
            assert(self.stats.dao_tokens@ =~= pre.stats.dao_tokens@.insert(
                stream.token_account_id@,
                self.stats.dao_tokens@.index(stream.token_account_id@),
            ));
        }
        self.stats.inc_streams(&stream.token_account_id, is_aurora, token.is_payment);
        proof {
            assert(self.stats.dao_tokens@ =~= pre.stats.dao_tokens@.insert(
                stream.token_account_id@,
                self.stats.dao_tokens@.index(stream.token_account_id@),
            ));
        }
        if is_auto_start_enabled {
            match self.process_action(&mut stream, ActionType::Start, now) {
                Ok(_) => {},
                Err(e) => {
                    proof {
                        assert(false);
                    }
                    return Err(e);
                },
            }
        }
        let mut promises: Vec<Instruction> = Vec::new();
        match self.ft_transfer_from_self(
            stream.token_account_id.clone(),
            self.finance_id.clone(),
            stream.balance,
        ) {
            Ok(Some(ins)) => promises.push(ins),
            Ok(None) => {},
            Err(e) => {
                proof {
                    assert(false);
                }
                return Err(e);
            },
        }
        // The finance vault must replenish this contract's storage reserve
        // for the newly stored stream.
        promises.push(Instruction::StorageNeedsTransfer { finance_id: self.finance_id.clone() });
        match self.save_stream(stream) {
            Ok(_) => {},
            Err(e) => {
                proof {
                    assert(false);
                }
                return Err(e);
            },
        }
        proof {
            let post = *self;
            let s1 = post.streams@[stream_id];
            assert(post.streams@ =~= pre.streams@.insert(stream_id, s1));
            let tok = s1.token_account_id@;
            let ts0 = pre.stats.spec_token_stats(tok);
            assert(post.stats.dao_tokens@ =~= pre.stats.dao_tokens@.insert(
                tok,
                post.stats.dao_tokens@.index(tok),
            ));
            assert forall|id2: StreamId| #[trigger] post.streams@.dom().contains(id2) implies
                post.streams@[id2].last_action <= now by {
                if id2 != stream_id {
                    assert(post.streams@[id2] == pre.streams@[id2]);
                }
            }
        }
        Ok(promises)
    }
}

/// Re-establishes the account-index invariant after moving an active stream
/// from one receiver's incoming index to another's.
pub proof fn lemma_index_receiver_swap(
    pre: Contract,
    post: Contract,
    m_pre: Map<StreamId, Stream>,
    s1: Stream,
    prev_k: Seq<char>,
)
    requires
        pre.index_ok_for(m_pre),
        m_pre.dom().contains(s1.id),
        m_pre[s1.id].owner_id@ == s1.owner_id@,
        m_pre[s1.id].receiver_id@ == prev_k,
        m_pre[s1.id].status is Active,
        s1.status is Active,
        s1.wf(),
        s1.receiver_id@ != prev_k,
        s1.receiver_id@ != s1.owner_id@,
        s1.owner_id@ != prev_k,
        pre.accounts@.dom().contains(prev_k),
        pre.accounts@.dom().contains(s1.receiver_id@),
        post.accounts@ == pre.accounts@.insert(prev_k, post.accounts@.index(prev_k)).insert(
            s1.receiver_id@,
            post.accounts@.index(s1.receiver_id@),
        ),
        post.accounts@.index(prev_k) == (Account {
            active_incoming_streams: post.accounts@.index(prev_k).active_incoming_streams,
            total_incoming: post.accounts@.index(prev_k).total_incoming,
            ..pre.accounts@.index(prev_k)
        }),
        post.accounts@.index(prev_k).active_incoming_streams@ == pre.accounts@.index(
            prev_k,
        ).active_incoming_streams@.remove(s1.id),
        post.accounts@.index(s1.receiver_id@) == (Account {
            active_incoming_streams: post.accounts@.index(s1.receiver_id@).active_incoming_streams,
            total_incoming: post.accounts@.index(s1.receiver_id@).total_incoming,
            ..pre.accounts@.index(s1.receiver_id@)
        }),
        post.accounts@.index(s1.receiver_id@).active_incoming_streams@ == pre.accounts@.index(
            s1.receiver_id@,
        ).active_incoming_streams@.insert(s1.id),
    ensures
        post.index_ok_for(m_pre.insert(s1.id, s1)),
{
    let id = s1.id;
    let new_k = s1.receiver_id@;
    let m2 = m_pre.insert(id, s1);
    let p0 = pre.accounts@[prev_k];
    let n0 = pre.accounts@[new_k];
    let p1 = post.accounts@[prev_k];
    let n1 = post.accounts@[new_k];
    assert(pre.stream_entry_ok(m_pre, id));
    // The new receiver's sets could not have indexed this stream before.
    assert(!n0.active_incoming_streams@.contains(id));
    assert(!n0.inactive_incoming_streams@.contains(id));
    assert forall|id2: StreamId| #[trigger] m2.dom().contains(id2) implies post.stream_entry_ok(
        m2,
        id2,
    ) by {
        if id2 == id {
            assert(m2[id2] == s1);
            assert(post.accounts@[s1.owner_id@] == pre.accounts@[s1.owner_id@]);
        } else {
            let s = m2[id2];
            assert(m_pre[id2] == s);
            assert(pre.stream_entry_ok(m_pre, id2));
            if s.owner_id@ == prev_k {
                assert(post.accounts@[s.owner_id@] == p1);
            } else if s.owner_id@ == new_k {
                assert(post.accounts@[s.owner_id@] == n1);
            } else {
                assert(post.accounts@[s.owner_id@] == pre.accounts@[s.owner_id@]);
            }
            if s.receiver_id@ == prev_k {
                assert(p1.active_incoming_streams@.contains(id2) == p0.active_incoming_streams@
                    .contains(id2));
            } else if s.receiver_id@ == new_k {
                assert(n1.active_incoming_streams@.contains(id2) == n0.active_incoming_streams@
                    .contains(id2));
            } else {
                assert(post.accounts@[s.receiver_id@] == pre.accounts@[s.receiver_id@]);
            }
        }
    }
    assert forall|k: Seq<char>, id2: StreamId|
        post.accounts@.dom().contains(k) && #[trigger] post.accounts@.index(
            k,
        ).active_outgoing_streams@.contains(id2) implies m2.dom().contains(id2) && m2[
        id2
    ].owner_id@ == k && m2[id2].status is Active by {
        if k != prev_k && k != new_k {
            assert(post.accounts@[k] == pre.accounts@[k]);
        }
        assert(pre.accounts@[k].active_outgoing_streams@.contains(id2));
        assert(m_pre.dom().contains(id2) && m_pre[id2].owner_id@ == k && m_pre[
            id2
        ].status is Active);
    }
    assert forall|k: Seq<char>, id2: StreamId|
        post.accounts@.dom().contains(k) && #[trigger] post.accounts@.index(
            k,
        ).inactive_outgoing_streams@.contains(id2) implies m2.dom().contains(id2) && m2[
        id2
    ].owner_id@ == k && (m2[id2].status is Initialized || m2[id2].status is Paused) by {
        if k != prev_k && k != new_k {
            assert(post.accounts@[k] == pre.accounts@[k]);
        }
        assert(pre.accounts@[k].inactive_outgoing_streams@.contains(id2));
        assert(id2 != id);
    }
    assert forall|k: Seq<char>, id2: StreamId|
        post.accounts@.dom().contains(k) && #[trigger] post.accounts@.index(
            k,
        ).active_incoming_streams@.contains(id2) implies m2.dom().contains(id2) && m2[
        id2
    ].receiver_id@ == k && m2[id2].status is Active by {
        if id2 == id {
            if k == prev_k {
                assert(!p1.active_incoming_streams@.contains(id));
                assert(false);
            } else if k != new_k {
                assert(post.accounts@[k] == pre.accounts@[k]);
                assert(pre.accounts@[k].active_incoming_streams@.contains(id));
                assert(m_pre[id].receiver_id@ == k);
                assert(false);
            }
        } else {
            if k == prev_k {
                assert(p0.active_incoming_streams@.contains(id2));
            } else if k == new_k {
                assert(n0.active_incoming_streams@.contains(id2));
            } else {
                assert(post.accounts@[k] == pre.accounts@[k]);
                assert(pre.accounts@[k].active_incoming_streams@.contains(id2));
            }
            assert(m_pre.dom().contains(id2) && m_pre[id2].receiver_id@ == k && m_pre[
                id2
            ].status is Active);
        }
    }
    assert forall|k: Seq<char>, id2: StreamId|
        post.accounts@.dom().contains(k) && #[trigger] post.accounts@.index(
            k,
        ).inactive_incoming_streams@.contains(id2) implies m2.dom().contains(id2) && m2[
        id2
    ].receiver_id@ == k && (m2[id2].status is Initialized || m2[id2].status is Paused) by {
        if k != prev_k && k != new_k {
            assert(post.accounts@[k] == pre.accounts@[k]);
        }
        assert(pre.accounts@[k].inactive_incoming_streams@.contains(id2));
        assert(id2 != id);
    }
}

/// The effects of a successful receiver transfer: the current receiver was
/// settled and paid; the stream either moved to `new_k` (possibly charged
/// the listed registration commission), or — when its remaining balance
/// could not cover that commission — was drained into commission and
/// finished naturally.
pub open spec fn change_receiver_applied(
    pre: Contract,
    post: Contract,
    stream_id: StreamId,
    new_k: Seq<char>,
    deposit_needed: int,
    now: Timestamp,
    instr: Seq<Instruction>,
) -> bool {
    let s0 = pre.streams@[stream_id];
    let tok = s0.token_account_id@;
    let s_mid = s0.spec_update_cliff(now);
    let st = spec_settled_dao(s_mid, pre.dao, now).0;
    let com = spec_settled_dao(s_mid, pre.dao, now).2;
    let listed = dao_is_listed(pre.dao, tok);
    let fresh = !pre.accounts@.dom().contains(new_k);
    let force_stop = fresh && listed && st.balance <= pre.dao.tokens@.index(
        tok,
    ).commission_on_transfer;
    let charged = if fresh && listed && !force_stop {
        pre.dao.tokens@.index(tok).commission_on_transfer as int
    } else {
        0
    };
    let f = post.streams@[stream_id];
    let ts0 = pre.stats.spec_token_stats(tok);
    &&& post.streams@.dom().contains(stream_id)
    &&& post.streams@ == pre.streams@.insert(stream_id, f)
    &&& f.id == stream_id
    &&& f.owner_id@ == s0.owner_id@
    &&& f.tokens_per_sec == s0.tokens_per_sec
    &&& f.last_action == now
    &&& (if force_stop {
        &&& f.balance == 0
        &&& f.status == (StreamStatus::Finished {
            reason: StreamFinishReason::FinishedNaturally,
        })
        &&& f.receiver_id@ == s0.receiver_id@
        &&& post.stats.dao_tokens@.dom().contains(tok)
        &&& post.stats.dao_tokens@.index(tok).total_commission_collected
            == ts0.total_commission_collected.saturating_add(com as u128).saturating_add(
            st.balance,
        )
        &&& post.stats.total_active_streams == pre.stats.total_active_streams.saturating_sub(1)
    } else {
        &&& f.receiver_id@ == new_k
        &&& f.status is Active
        &&& f.balance == st.balance - charged
        &&& f.tokens_total_withdrawn == st.tokens_total_withdrawn
        &&& post.accounts@.dom().contains(new_k)
        &&& post.accounts@.index(new_k).total_incoming@ == crate::account::tally_bumped(
            (if fresh {
                Map::<Seq<char>, Balance>::empty()
            } else {
                pre.accounts@.index(new_k).total_incoming@
            }),
            tok,
            s0.tokens_per_sec,
        )
        &&& post.accounts@.index(s0.receiver_id@).total_incoming@ == crate::account::tally_subbed(
            pre.accounts@.index(s0.receiver_id@).total_incoming@,
            tok,
            s0.tokens_per_sec,
        )
        &&& (instr.last() matches Instruction::StorageDeposit {
            token_account_id: t,
            account_id: a,
            deposit: d,
            gas: _,
        } && t@ == tok && a@ == new_k && d == deposit_needed)
    })
    &&& post.dao == pre.dao
    &&& post.finance_id == pre.finance_id
}

impl Contract {
    /// Whether `ChangeReceiver` succeeds: the current receiver can withdraw,
    /// settlement would not finish the stream, the stream is not locked, the
    /// caller names the actual receiver, the new receiver is a third party,
    /// and — if a new unlisted-asset account must be registered — enough
    /// native currency is attached.
    #[allow(clippy::too_many_arguments)]
    pub open spec fn can_change_receiver(
        self,
        prev: Seq<char>,
        id: StreamId,
        new: Seq<char>,
        deposit_needed: int,
        attached: int,
        now: Timestamp,
    ) -> bool {
        let s0 = self.streams@[id];
        let st = spec_settled_dao(s0.spec_update_cliff(now), self.dao, now).0;
        &&& self.can_withdraw(prev, id, now)
        &&& prev == s0.receiver_id@
        &&& !(st.status is Finished)
        &&& !s0.is_locked
        &&& new != s0.owner_id@
        &&& new != s0.receiver_id@
        &&& ((!self.accounts@.dom().contains(new) && !dao_is_listed(
            self.dao,
            s0.token_account_id@,
        )) ==> attached >= self.dao.commission_non_payment_ft + deposit_needed)
    }

    /// Moves an active stream to a new receiver: the current receiver is
    /// settled and paid first; a receiver yet unknown to the engine is
    /// registered, charged either from the stream balance (listed asset) or
    /// from the attached native currency; the id and the accrual rate move
    /// between the two receivers' indices; a storage registration is
    /// instructed for the new receiver. If the stream balance cannot cover
    /// the listed registration commission, the stream is force-stopped
    /// instead and the call still succeeds. Any failure leaves the state
    /// untouched.
    #[allow(clippy::too_many_arguments)]
    #[verifier::rlimit(100)]
    pub fn change_receiver_op(
        &mut self,
        prev_receiver_id: &AccountId,
        stream_id: StreamId,
        new_receiver_id: AccountId,
        deposit_needed: Balance,
        attached_deposit: Balance,
        now: Timestamp,
    ) -> (r: Result<Vec<Instruction>, ContractError>)
        requires
            old(self).wf(),
            old(self).time_ok(now),
            old(self).dao.commission_non_payment_ft + deposit_needed <= u128::MAX,
        ensures
            final(self).wf(),
            final(self).time_ok(now),
            r is Err ==> *final(self) == *old(self),
            r is Ok <==> old(self).can_change_receiver(
                prev_receiver_id@,
                stream_id,
                new_receiver_id@,
                deposit_needed as int,
                attached_deposit as int,
                now,
            ),
            r matches Ok(v) ==> change_receiver_applied(
                *old(self),
                *final(self),
                stream_id,
                new_receiver_id@,
                deposit_needed as int,
                now,
                v@,
            ),
    {
        let ghost pre = *self;
        match self.view_stream(stream_id) {
            Err(e) => {
                return Err(e);
            },
            Ok(s) => {
                proof {
                    assert(pre.stream_entry_ok(pre.streams@, stream_id));
                }
                let receiver_view = match self.view_account(&s.receiver_id) {
                    Some(a) => a,
                    None => {
                        proof {
                            assert(false);
                        }
                        return Err(ContractError::AccountNotExist {
                            account_id: s.receiver_id.clone(),
                        });
                    },
                };
                if receiver_view.id != *prev_receiver_id && !receiver_view.is_cron_allowed {
                    return Err(ContractError::CronCallsForbidden {
                        received: receiver_view.id.clone(),
                    });
                }
                if !(s.status == StreamStatus::Active) {
                    return Err(ContractError::CannotWithdraw { stream_status: s.status });
                }
                match s.cliff {
                    Some(cliff) => {
                        if now < cliff {
                            return Err(ContractError::CliffNotPassed { timestamp: cliff });
                        }
                    },
                    None => {},
                }
                if *prev_receiver_id != s.receiver_id {
                    return Err(ContractError::DataCorruption);
                }
                // Settlement that would finish the stream wins over the
                // transfer: the stream must still be active afterwards.
                let available = s.available_to_withdraw(now);
                if available >= s.balance {
                    return Err(ContractError::StreamTerminated { stream_id });
                }
                if s.is_locked {
                    return Err(ContractError::StreamLocked { stream_id });
                }
                if new_receiver_id == s.owner_id || new_receiver_id == s.receiver_id {
                    return Err(ContractError::AccountNotExist { account_id: new_receiver_id });
                }
            },
        }
        let token_key: AccountId = match self.view_stream(stream_id) {
            Ok(s) => s.token_account_id.clone(),
            Err(_) => {
                proof {
                    assert(false);
                }
                return Err(ContractError::StreamNotExist { stream_id });
            },
        };
        let token = self.dao.get_token(&token_key);
        if !self.accounts.contains_key(&new_receiver_id) && !token.is_payment {
            // Registering the new account is charged in native currency for
            // an unlisted asset.
            if attached_deposit < self.dao.commission_non_payment_ft + deposit_needed {
                return Err(ContractError::InsufficientDeposit {
                    expected: self.dao.commission_non_payment_ft + deposit_needed,
                    received: attached_deposit,
                });
            }
        }
        // Validations passed: settle and pay the current receiver first.
        let mut promises = match self.withdraw_op(prev_receiver_id, stream_id, now) {
            Ok(v) => v,
            Err(e) => {
                proof {
                    assert(false);
                }
                return Err(e);
            },
        };
        let ghost mid = *self;
        let mut stream = match self.extract_stream(stream_id) {
            Ok(s) => s,
            Err(e) => {
                proof {
                    assert(false);
                }
                return Err(e);
            },
        };
        let fresh = !self.accounts.contains_key(&new_receiver_id);
        if fresh {
            if token.is_payment {
                if stream.balance <= token.commission_on_transfer {
                    // The remaining balance cannot cover the registration
                    // commission: charge it whole and force-stop instead.
                    let balance = stream.balance;
                    stream.balance = 0;
                    proof {
                        assert(mid.stream_entry_ok(mid.streams@, stream_id));
                        assert(self.accounts == mid.accounts);
                        assert(self.index_ok_for(mid.streams@));
                        mid.lemma_index_substitute(mid.streams@, stream_id, stream);
                        assert(self.streams@.insert(stream_id, stream) =~= mid.streams@.insert(
                            stream_id,
                            stream,
                        ));
                    }
                    let mut actions = match self.process_action(
                        &mut stream,
                        ActionType::Stop { reason: StreamFinishReason::FinishedWhileTransferred },
                        now,
                    ) {
                        Ok(v) => v,
                        Err(e) => {
                            proof {
                                assert(false);
                            }
                            return Err(e);
                        },
                    };
                    promises.append(&mut actions);
                    match self.save_stream(stream) {
                        Ok(_) => {},
                        Err(e) => {
                            proof {
                                assert(false);
                            }
                            return Err(e);
                        },
                    }
                    self.stats.withdraw(&token_key, 0, balance);
                    proof {
                        let post = *self;
                        let f = post.streams@[stream_id];
                        assert(post.streams@ =~= pre.streams@.insert(stream_id, f));
                        assert forall|id2: StreamId| #[trigger] post.streams@.dom().contains(id2)
                            implies post.streams@[id2].last_action <= now by {
                            if id2 != stream_id {
                                assert(post.streams@[id2] == pre.streams@[id2]);
                            }
                        }
                    }
                    return Ok(promises);
                }
                stream.balance = stream.balance - token.commission_on_transfer;
                self.stats.withdraw(&token_key, 0, token.commission_on_transfer);
            } else {
                self.stats.inc_account_deposit(self.dao.commission_non_payment_ft, false);
            }
            self.create_account_if_not_exist(&new_receiver_id);
        }
        let ghost c_created = *self;
        proof {
            assert(mid.stream_entry_ok(mid.streams@, stream_id));
            lemma_index_accounts_extend(mid, c_created, mid.streams@);
        }
        let mut new_receiver = match self.extract_account(&new_receiver_id) {
            Ok(a) => a,
            Err(e) => {
                proof {
                    assert(false);
                }
                return Err(e);
            },
        };
        let mut prev_receiver = match self.extract_account(&stream.receiver_id) {
            Ok(a) => a,
            Err(e) => {
                proof {
                    assert(false);
                }
                return Err(e);
            },
        };
        check_integrity(prev_receiver.active_incoming_streams.remove(stream_id))?;
        check_integrity(new_receiver.active_incoming_streams.insert(stream_id))?;
        crate::account::tally_sub(
            &mut prev_receiver.total_incoming,
            &stream.token_account_id,
            stream.tokens_per_sec,
        );
        crate::account::tally_add_existing(
            &mut new_receiver.total_incoming,
            &stream.token_account_id,
            stream.tokens_per_sec,
        );
        match self.save_account(prev_receiver) {
            Ok(_) => {},
            Err(e) => {
                proof {
                    assert(false);
                }
                return Err(e);
            },
        }
        match self.save_account(new_receiver) {
            Ok(_) => {},
            Err(e) => {
                proof {
                    assert(false);
                }
                return Err(e);
            },
        }
        promises.push(Instruction::StorageDeposit {
            token_account_id: token.account_id,
            account_id: new_receiver_id.clone(),
            deposit: deposit_needed,
            gas: token.gas_for_storage_deposit,
        });
        let ghost prev_k = stream.receiver_id@;
        stream.receiver_id = new_receiver_id;
        let ghost c_moved = *self;
        proof {
            assert(c_moved.accounts@ =~= c_created.accounts@.insert(
                prev_k,
                c_moved.accounts@.index(prev_k),
            ).insert(stream.receiver_id@, c_moved.accounts@.index(stream.receiver_id@)));
            lemma_index_receiver_swap(c_created, c_moved, mid.streams@, stream, prev_k);
            assert(mid.streams@.insert(stream_id, stream) =~= self.streams@.insert(
                stream_id,
                stream,
            ));
            assert forall|k: Seq<char>| c_moved.accounts@.dom().contains(k) implies (
            #[trigger] c_moved.accounts@[k]).wf() && c_moved.accounts@[k].id@ == k by {
                if k != prev_k && k != stream.receiver_id@ {
                    assert(c_moved.accounts@[k] == c_created.accounts@[k]);
                    if mid.accounts@.dom().contains(k) {
                        assert(c_created.accounts@[k] == mid.accounts@[k]);
                        assert(mid.accounts@[k].wf());
                    } else {
                        assert(c_created.accounts@[k].wf());
                    }
                } else if k == prev_k {
                } else {
                    if !mid.accounts@.dom().contains(k) {
                        assert(c_created.accounts@[k].wf());
                    } else {
                        assert(c_created.accounts@[k] == mid.accounts@[k]);
                        assert(mid.accounts@[k].wf());
                    }
                }
            }
        }
        match self.save_stream(stream) {
            Ok(_) => {},
            Err(e) => {
                proof {
                    assert(false);
                }
                return Err(e);
            },
        }
        proof {
            let post = *self;
            let f = post.streams@[stream_id];
            assert(post.streams@ =~= pre.streams@.insert(stream_id, f));
            assert forall|id2: StreamId| #[trigger] post.streams@.dom().contains(id2) implies
                post.streams@[id2].last_action <= now by {
                if id2 != stream_id {
                    assert(post.streams@[id2] == pre.streams@[id2]);
                }
            }
        }
        Ok(promises)
    }
}

impl Contract {
    /// Conservation through settlement: everything that leaves `balance`
    /// arrives in `tokens_total_withdrawn`, which never decreases; their sum
    /// changes only when a deposit tops the stream up or a stop refunds the
    /// remainder.
    pub proof fn lemma_settlement_conserves(s: Stream, dao: Dao, now: Timestamp)
        requires
            s.wf(),
            dao.wf(),
            s.last_action <= now,
        ensures
            spec_settled_dao(s, dao, now).0.tokens_total_withdrawn + spec_settled_dao(
                s,
                dao,
                now,
            ).0.balance == s.tokens_total_withdrawn + s.balance,
            spec_settled_dao(s, dao, now).0.tokens_total_withdrawn >= s.tokens_total_withdrawn,
            spec_settled_dao(s, dao, now).0.wf(),
    {
        s.lemma_available_bounds(now);
        let avail = s.spec_available(now);
        if dao_is_listed(dao, s.token_account_id@) {
            let tok = dao.tokens@[s.token_account_id@];
            if !(tok.commission_coef == crate::safe_float::SafeFloat::spec_zero()) && avail != 0 {
                crate::safe_float::lemma_commission_at_most_one(tok.commission_coef);
                crate::safe_float::lemma_mult_le(tok.commission_coef, avail - 1);
            }
        }
    }

    /// Index exclusivity: a non-terminal stream is in exactly one of the
    /// owner's two outgoing sets and exactly one of the receiver's two
    /// incoming sets — the active ones exactly when it is active; a terminal
    /// stream is in none of the four.
    pub proof fn lemma_index_exclusivity(self, id: StreamId)
        requires
            self.wf(),
            self.streams@.dom().contains(id),
        ensures
            ({
                let s = self.streams@[id];
                let ow = self.accounts@[s.owner_id@];
                let re = self.accounts@[s.receiver_id@];
                &&& self.accounts@.dom().contains(s.owner_id@)
                &&& self.accounts@.dom().contains(s.receiver_id@)
                &&& !s.status.spec_is_terminated() ==> (ow.active_outgoing_streams@.contains(id)
                    != ow.inactive_outgoing_streams@.contains(id)) && (
                re.active_incoming_streams@.contains(id) != re.inactive_incoming_streams@.contains(
                    id,
                )) && (ow.active_outgoing_streams@.contains(id) == (s.status is Active)) && (
                re.active_incoming_streams@.contains(id) == (s.status is Active))
                &&& s.status.spec_is_terminated() ==> !ow.active_outgoing_streams@.contains(id)
                    && !ow.inactive_outgoing_streams@.contains(id)
                    && !re.active_incoming_streams@.contains(id)
                    && !re.inactive_incoming_streams@.contains(id)
            }),
    {
        assert(self.stream_entry_ok(self.streams@, id));
    }
}

} // verus!
