//! Stream calls that bundle several operations: batched withdrawal, and the
//! NFT-mediated receiver transfer.

use vstd::prelude::*;

use crate::contract::Contract;
use crate::err::ContractError;
use crate::primitives::AccountId;
use crate::primitives::Balance;
use crate::primitives::StreamId;
use crate::primitives::Timestamp;
use crate::primitives::ONE_YOCTO;
use crate::transfer::Instruction;

verus! {

impl Contract {
    /// Withdraws from several streams in one call, concatenating their
    /// payment instructions. The first failing stream aborts the whole
    /// invocation, which the host then discards as a unit — streams already
    /// settled in it are rolled back with it. For pairwise-distinct ids the
    /// outcome is decided by the initial state: the call succeeds exactly
    /// when every listed stream is withdrawable, settles each at `now`, and
    /// touches no other stream.
    pub fn withdraw(
        &mut self,
        sender_id: &AccountId,
        stream_ids: &Vec<StreamId>,
        now: Timestamp,
    ) -> (r: Result<Vec<Instruction>, ContractError>)
        requires
            old(self).wf(),
            old(self).time_ok(now),
        ensures
            final(self).wf(),
            final(self).time_ok(now),
            stream_ids@.len() == 0 ==> (r matches Ok(v) && v@.len() == 0 && *final(self) == *old(self)),
            (stream_ids@.len() > 0 && !old(self).can_withdraw(sender_id@, stream_ids@[0], now))
                ==> (r is Err && *final(self) == *old(self)),
            r is Ok ==> (forall|j: int|
                0 <= j < stream_ids@.len() ==> old(self).can_withdraw(
                    sender_id@,
                    #[trigger] stream_ids@[j],
                    now,
                )),
            stream_ids@.no_duplicates() ==> (r is Ok <==> (forall|j: int|
                0 <= j < stream_ids@.len() ==> old(self).can_withdraw(
                    sender_id@,
                    #[trigger] stream_ids@[j],
                    now,
                ))),
            r is Ok ==> (forall|j: int|
                0 <= j < stream_ids@.len() ==> final(self).streams@.dom().contains(
                    #[trigger] stream_ids@[j],
                ) && final(self).streams@.index(stream_ids@[j]).last_action == now && final(self).streams@.index(stream_ids@[j]).tokens_total_withdrawn >= old(self).streams@.index(stream_ids@[j]).tokens_total_withdrawn),
            r is Ok ==> final(self).streams@.dom() == old(self).streams@.dom() && (forall|
                id: StreamId|
                old(self).streams@.dom().contains(id) && !stream_ids@.contains(id)
                    ==> #[trigger] final(self).streams@.index(id) == old(self).streams@.index(id)),
    {
        let ghost pre = *old(self);
        let mut promises: Vec<Instruction> = Vec::new();
        let n = stream_ids.len();
        let mut i: usize = 0;
        while i < n
            invariant
                self.wf(),
                self.time_ok(now),
                pre.wf(),
                pre == *old(self),
                i == 0 ==> *self == pre,
                i == 0 ==> promises@.len() == 0,
                n == stream_ids@.len(),
                i <= n,
                self.streams@.dom() == pre.streams@.dom(),
                self.accounts@.dom() == pre.accounts@.dom(),
                forall|k: Seq<char>| #[trigger]
                    pre.accounts@.dom().contains(k) ==> self.accounts@.index(k).is_cron_allowed
                        == pre.accounts@.index(k).is_cron_allowed,
                forall|id: StreamId|
                    pre.streams@.dom().contains(id) && !stream_ids@.subrange(0, i as int).contains(
                        id,
                    ) ==> #[trigger] self.streams@.index(id) == pre.streams@.index(id),
                forall|j: int|
                    0 <= j < i ==> pre.can_withdraw(sender_id@, #[trigger] stream_ids@[j], now),
                forall|j: int|
                    0 <= j < i ==> self.streams@.dom().contains(#[trigger] stream_ids@[j])
                        && self.streams@.index(stream_ids@[j]).last_action == now
                        && self.streams@.index(stream_ids@[j]).tokens_total_withdrawn
                        >= pre.streams@.index(stream_ids@[j]).tokens_total_withdrawn,
            decreases n - i,
        {
            let ghost mid = *self;
            let id = stream_ids[i];
            proof {
                // The stream this step sees is either untouched (so the
                // initial state decides) or was settled by an earlier step
                // for the same id.
                if mid.streams@.dom().contains(id) {
                    assert(mid.stream_entry_ok(mid.streams@, id));
                }
            }
            let mut part = match self.withdraw_op(sender_id, id, now) {
                Ok(v) => v,
                Err(e) => {
                    proof {
                        // The step's failure is decided by the initial state
                        // whenever this id was not settled earlier.
                        assert(!mid.can_withdraw(sender_id@, id, now));
                        if !stream_ids@.subrange(0, i as int).contains(id) {
                            if pre.streams@.dom().contains(id) {
                                assert(mid.streams@.index(id) == pre.streams@.index(id));
                                assert(pre.stream_entry_ok(pre.streams@, id));
                                assert(mid.accounts@.index(
                                    pre.streams@.index(id).receiver_id@,
                                ).is_cron_allowed == pre.accounts@.index(
                                    pre.streams@.index(id).receiver_id@,
                                ).is_cron_allowed);
                            }
                            assert(!pre.can_withdraw(sender_id@, id, now));
                        }
                        if stream_ids@.no_duplicates() {
                            assert(!stream_ids@.subrange(0, i as int).contains(id)) by {
                                if stream_ids@.subrange(0, i as int).contains(id) {
                                    let j = choose|j: int|
                                        0 <= j < i && stream_ids@.subrange(0, i as int)[j] == id;
                                    assert(stream_ids@[j] == stream_ids@[i as int]);
                                }
                            }
                        }
                    }
                    return Err(e);
                },
            };
            promises.append(&mut part);
            proof {
                let s_mid = mid.streams@[id];
                let s1 = self.streams@[id];
                assert(self.streams@.dom() =~= mid.streams@.dom());
                assert(self.accounts@.dom() =~= mid.accounts@.dom());
                // The step succeeded: its stream was withdrawable in the
                // initial state too.
                assert(pre.can_withdraw(sender_id@, id, now)) by {
                    if !stream_ids@.subrange(0, i as int).contains(id) {
                        assert(mid.streams@.index(id) == pre.streams@.index(id));
                        assert(mid.accounts@.index(s_mid.receiver_id@).is_cron_allowed
                            == pre.accounts@.index(s_mid.receiver_id@).is_cron_allowed);
                    } else {
                        let j = choose|j: int|
                            0 <= j < i && stream_ids@.subrange(0, i as int)[j] == id;
                        assert(stream_ids@[j] == id);
                        assert(pre.can_withdraw(sender_id@, stream_ids@[j], now));
                    }
                }
                assert forall|id2: StreamId|
                    pre.streams@.dom().contains(id2) && !stream_ids@.subrange(
                        0,
                        i as int + 1,
                    ).contains(id2) implies #[trigger] self.streams@.index(id2)
                    == pre.streams@.index(id2) by {
                    assert(!stream_ids@.subrange(0, i as int).contains(id2)) by {
                        if stream_ids@.subrange(0, i as int).contains(id2) {
                            let j = choose|j: int|
                                0 <= j < i && stream_ids@.subrange(0, i as int)[j] == id2;
                            assert(stream_ids@.subrange(0, i as int + 1)[j] == id2);
                        }
                    }
                    assert(id2 != id) by {
                        assert(stream_ids@.subrange(0, i as int + 1)[i as int] == stream_ids@[
                            i as int
                        ]);
                    }
                    assert(mid.streams@.index(id2) == pre.streams@.index(id2));
                }
                assert forall|j: int| 0 <= j < i + 1 implies self.streams@.dom().contains(
                    #[trigger] stream_ids@[j],
                ) && self.streams@.index(stream_ids@[j]).last_action == now && self.streams@.index(
                    stream_ids@[j],
                ).tokens_total_withdrawn >= pre.streams@.index(
                    stream_ids@[j],
                ).tokens_total_withdrawn by {
                    if j < i {
                        if stream_ids@[j] != id {
                            assert(self.streams@.index(stream_ids@[j]) == mid.streams@.index(
                                stream_ids@[j],
                            ));
                            assert(mid.streams@.dom().contains(stream_ids@[j]));
                        }
                    } else {
                        assert(mid.streams@.index(id).tokens_total_withdrawn
                            >= pre.streams@.index(id).tokens_total_withdrawn) by {
                            if !stream_ids@.subrange(0, i as int).contains(id) {
                                assert(mid.streams@.index(id) == pre.streams@.index(id));
                            }
                        }
                    }
                }
            }
            i = i + 1;
        }
        proof {
            if stream_ids@.len() > 0 {
                assert(stream_ids@.subrange(0, n as int) =~= stream_ids@);
            }
            assert forall|id: StreamId|
                pre.streams@.dom().contains(id) && !stream_ids@.contains(id) implies
                #[trigger] self.streams@.index(id) == pre.streams@.index(id) by {
                assert(!stream_ids@.subrange(0, n as int).contains(id)) by {
                    if stream_ids@.subrange(0, n as int).contains(id) {
                        let j = choose|j: int|
                            0 <= j < n && stream_ids@.subrange(0, n as int)[j] == id;
                        assert(stream_ids@[j] == id);
                    }
                }
            }
        }
        Ok(promises)
    }

    /// The attached value an NFT-mediated transfer must cover    /// The attached value an NFT-mediated transfer must cover: one yocto
    /// for a bridged receiver, the asset's storage balance otherwise.
    pub open spec fn spec_nft_deposit_needed(self, stream_id: StreamId) -> int {
        let s = self.streams@[stream_id];
        if crate::aurora::spec_is_aurora_address(s.receiver_id@) {
            ONE_YOCTO as int
        } else if self.dao.tokens@.dom().contains(s.token_account_id@) {
            self.dao.tokens@.index(s.token_account_id@).storage_balance_needed as int
        } else {
            crate::primitives::DEFAULT_STORAGE_BALANCE as int
        }
    }

    /// Whether the NFT-mediated transfer succeeds for these callers.
    pub open spec fn can_nft_change_receiver(
        self,
        predecessor: Seq<char>,
        signer: Seq<char>,
        stream_id: StreamId,
        new_k: Seq<char>,
        attached: int,
        now: Timestamp,
    ) -> bool {
        let s = self.streams@[stream_id];
        let need = self.spec_nft_deposit_needed(stream_id);
        &&& self.streams@.dom().contains(stream_id)
        &&& signer == s.receiver_id@
        &&& self.dao.approved_nfts@.contains(predecessor)
        &&& attached >= need
        &&& self.can_change_receiver(s.receiver_id@, stream_id, new_k, need, attached, now)
    }

    pub fn nft_change_receiver(
        &mut self,
        predecessor_id: &AccountId,
        signer_id: &AccountId,
        stream_id: StreamId,
        receiver_id: AccountId,
        attached_deposit: Balance,
        now: Timestamp,
    ) -> (r: Result<Vec<Instruction>, ContractError>)
        requires
            old(self).wf(),
            old(self).time_ok(now),
            old(self).dao.commission_non_payment_ft + attached_deposit <= u128::MAX,
        ensures
            final(self).wf(),
            final(self).time_ok(now),
            r is Err ==> *final(self) == *old(self),
            r is Ok <==> old(self).can_nft_change_receiver(
                predecessor_id@,
                signer_id@,
                stream_id,
                receiver_id@,
                attached_deposit as int,
                now,
            ),
            !old(self).streams@.dom().contains(stream_id) ==> r == Result::<
                Vec<Instruction>,
                ContractError,
            >::Err(ContractError::StreamNotExist { stream_id }),
            old(self).streams@.dom().contains(stream_id) ==> ({
                let s = old(self).streams@[stream_id];
                let need = old(self).spec_nft_deposit_needed(stream_id);
                &&& (signer_id@ != s.receiver_id@ ==> (r matches Err(e) && e matches
                    ContractError::CallerIsNotStreamActor { owner, receiver, caller } && owner@
                    == s.owner_id@ && receiver@ == s.receiver_id@ && caller@ == signer_id@))
                &&& (signer_id@ == s.receiver_id@ && !old(self).dao.approved_nfts@.contains(
                    predecessor_id@,
                ) ==> (r matches Err(e) && e matches ContractError::NFTNotApproved { account_id }
                    && account_id@ == predecessor_id@))
                &&& (signer_id@ == s.receiver_id@ && old(self).dao.approved_nfts@.contains(
                    predecessor_id@,
                ) && attached_deposit < need ==> (r matches Err(e) && e matches
                    ContractError::InsufficientDeposit { expected, received } && expected == need
                    && received == attached_deposit))
            }),
            r matches Ok(v) ==> crate::stream_ops::change_receiver_applied(
                *old(self),
                *final(self),
                stream_id,
                receiver_id@,
                old(self).spec_nft_deposit_needed(stream_id),
                now,
                v@,
            ),
    {
        let (prev_receiver, deposit_needed) = match self.view_stream(stream_id) {
            Err(e) => {
                return Err(e);
            },
            Ok(s) => {
                // The call is expected from an NFT contract acting for the
                // holder, who must be the stream's current receiver.
                if !(*signer_id == s.receiver_id) {
                    return Err(ContractError::CallerIsNotStreamActor {
                        owner: s.owner_id.clone(),
                        receiver: s.receiver_id.clone(),
                        caller: signer_id.clone(),
                    });
                }
                if !self.dao.approved_nfts.contains(predecessor_id) {
                    return Err(ContractError::NFTNotApproved {
                        account_id: predecessor_id.clone(),
                    });
                }
                let token = self.dao.get_token(&s.token_account_id);
                let deposit_needed: Balance = if crate::aurora::is_aurora_address(&s.receiver_id) {
                    // A bridged receiver needs no storage registration.
                    ONE_YOCTO
                } else {
                    // Pay the storage deposit rather than let a new user
                    // lose tokens.
                    token.storage_balance_needed
                };
                if attached_deposit < deposit_needed {
                    return Err(ContractError::InsufficientDeposit {
                        expected: deposit_needed,
                        received: attached_deposit,
                    });
                }
                (s.receiver_id.clone(), deposit_needed)
            },
        };
        proof {
            assert(old(self).dao.commission_non_payment_ft + deposit_needed <= u128::MAX);
        }
        self.change_receiver_op(
            &prev_receiver,
            stream_id,
            receiver_id,
            deposit_needed,
            attached_deposit,
            now,
        )
    }
}

} // verus!
