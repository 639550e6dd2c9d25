//! DAO-authority configuration calls: ownership, the token registry, the
//! flat unlisted-asset fee, and the oracle and approved-NFT lists.

use vstd::prelude::*;

use crate::contract::Contract;
use crate::err::ContractError;
use crate::primitives::AccountId;
use crate::primitives::Balance;
use crate::stream_ops::lemma_index_accounts_extend;
use crate::token::Token;

verus! {

impl Contract {
    /// Hands DAO authority to another account.
    pub fn dao_change_owner(&mut self, caller: &AccountId, new_dao_id: AccountId) -> (r: Result<
        (),
        ContractError,
    >)
        requires
            old(self).wf(),
        ensures
            final(self).wf(),
            r is Err ==> *final(self) == *old(self),
            r is Ok <==> caller@ == old(self).dao.dao_id@,
            r is Ok ==> final(self).dao.dao_id@ == new_dao_id@ && final(self).dao == (
            crate::dao::Dao { dao_id: final(self).dao.dao_id, ..old(self).dao }) && *final(self)
                == (Contract { dao: final(self).dao, ..*old(self) }),
    {
        let ghost pre = *self;
        match self.dao.check_owner(caller) {
            Ok(_) => {},
            Err(e) => {
                return Err(e);
            },
        }
        self.dao.dao_id = new_dao_id;
        proof {
            lemma_index_accounts_extend(pre, *self, pre.streams@);
        }
        Ok(())
    }

    /// Registers or replaces a token entry; the commission coefficient must
    /// have passed the commission-safety guard before the call.
    pub fn dao_update_token(&mut self, caller: &AccountId, token: Token) -> (r: Result<
        (),
        ContractError,
    >)
        requires
            old(self).wf(),
            token.wf(),
        ensures
            final(self).wf(),
            r is Err ==> *final(self) == *old(self),
            r is Ok <==> caller@ == old(self).dao.dao_id@,
            r is Ok ==> final(self).dao.tokens@ == old(self).dao.tokens@.insert(
                token.account_id@,
                token,
            ) && final(self).dao == (crate::dao::Dao {
                tokens: final(self).dao.tokens,
                ..old(self).dao
            }) && *final(self) == (Contract {
                dao: final(self).dao,
                stats: final(self).stats,
                ..*old(self)
            }),
            (r is Ok && old(self).dao.tokens@.dom().contains(token.account_id@)) ==> final(self).stats == old(self).stats,
            (r is Ok && !old(self).dao.tokens@.dom().contains(token.account_id@)) ==> final(self).stats.dao_tokens@ == old(self).stats.dao_tokens@.insert(
                token.account_id@,
                old(self).stats.spec_token_stats(token.account_id@),
            ) && final(self).stats == (crate::stats::Stats {
                dao_tokens: final(self).stats.dao_tokens,
                ..old(self).stats
            }),
    {
        let ghost pre = *self;
        match self.dao.check_owner(caller) {
            Ok(_) => {},
            Err(e) => {
                return Err(e);
            },
        }
        let newly_listed = match self.dao.tokens.remove(&token.account_id) {
            Some(_) => false,
            None => true,
        };
        if newly_listed {
            self.stats.add_token(&token.account_id);
        }
        token.commission_coef.assert_safe_commission();
        let ghost tok_mid = self.dao.tokens@;
        self.dao.tokens.insert(token.account_id.clone(), token);
        proof {
            assert(self.dao.tokens@ =~= pre.dao.tokens@.insert(
                token.account_id@,
                self.dao.tokens@.index(token.account_id@),
            ));
            assert forall|k: Seq<char>| self.dao.tokens@.dom().contains(k) implies (
            #[trigger] self.dao.tokens@[k]).wf() && self.dao.tokens@[k].account_id@ == k by {
                if k != token.account_id@ {
                    assert(self.dao.tokens@[k] == pre.dao.tokens@[k]);
                }
            }
            lemma_index_accounts_extend(pre, *self, pre.streams@);
        }
        Ok(())
    }

    /// Sets the flat native-currency fee charged for unlisted-asset
    /// operations.
    pub fn dao_update_commission_non_payment_ft(
        &mut self,
        caller: &AccountId,
        commission_non_payment_ft: Balance,
    ) -> (r: Result<(), ContractError>)
        requires
            old(self).wf(),
        ensures
            final(self).wf(),
            r is Err ==> *final(self) == *old(self),
            r is Ok <==> caller@ == old(self).dao.dao_id@,
            r is Ok ==> final(self).dao.commission_non_payment_ft == commission_non_payment_ft
                && final(self).dao == (crate::dao::Dao {
                commission_non_payment_ft,
                ..old(self).dao
            }) && *final(self) == (Contract { dao: final(self).dao, ..*old(self) }),
    {
        let ghost pre = *self;
        match self.dao.check_owner(caller) {
            Ok(_) => {},
            Err(e) => {
                return Err(e);
            },
        }
        self.dao.commission_non_payment_ft = commission_non_payment_ft;
        proof {
            lemma_index_accounts_extend(pre, *self, pre.streams@);
        }
        Ok(())
    }

    /// Registers an oracle.
    pub fn dao_add_oracle(&mut self, caller: &AccountId, new_oracle_id: AccountId) -> (r: Result<
        (),
        ContractError,
    >)
        requires
            old(self).wf(),
        ensures
            final(self).wf(),
            r is Err ==> *final(self) == *old(self),
            r is Ok <==> caller@ == old(self).dao.dao_id@,
            r is Ok ==> final(self).dao.oracles@ == old(self).dao.oracles@.insert(new_oracle_id@)
                && final(self).dao == (crate::dao::Dao {
                oracles: final(self).dao.oracles,
                ..old(self).dao
            }) && *final(self) == (Contract { dao: final(self).dao, ..*old(self) }),
    {
        let ghost pre = *self;
        match self.dao.check_owner(caller) {
            Ok(_) => {},
            Err(e) => {
                return Err(e);
            },
        }
        self.dao.oracles.insert(new_oracle_id);
        proof {
            lemma_index_accounts_extend(pre, *self, pre.streams@);
        }
        Ok(())
    }

    /// Removes an oracle.
    pub fn dao_remove_oracle(&mut self, caller: &AccountId, oracle_id: &AccountId) -> (r: Result<
        (),
        ContractError,
    >)
        requires
            old(self).wf(),
        ensures
            final(self).wf(),
            r is Err ==> *final(self) == *old(self),
            r is Ok <==> caller@ == old(self).dao.dao_id@,
            r is Ok ==> final(self).dao.oracles@ == old(self).dao.oracles@.remove(oracle_id@)
                && final(self).dao == (crate::dao::Dao {
                oracles: final(self).dao.oracles,
                ..old(self).dao
            }) && *final(self) == (Contract { dao: final(self).dao, ..*old(self) }),
    {
        let ghost pre = *self;
        match self.dao.check_owner(caller) {
            Ok(_) => {},
            Err(e) => {
                return Err(e);
            },
        }
        self.dao.oracles.remove(oracle_id);
        proof {
            lemma_index_accounts_extend(pre, *self, pre.streams@);
        }
        Ok(())
    }

    /// Approves an NFT contract for receiver transfers.
    pub fn dao_add_approved_nft(&mut self, caller: &AccountId, new_nft_id: AccountId) -> (r:
        Result<(), ContractError>)
        requires
            old(self).wf(),
        ensures
            final(self).wf(),
            r is Err ==> *final(self) == *old(self),
            r is Ok <==> caller@ == old(self).dao.dao_id@,
            r is Ok ==> final(self).dao.approved_nfts@ == old(self).dao.approved_nfts@.insert(
                new_nft_id@,
            ) && final(self).dao == (crate::dao::Dao {
                approved_nfts: final(self).dao.approved_nfts,
                ..old(self).dao
            }) && *final(self) == (Contract { dao: final(self).dao, ..*old(self) }),
    {
        let ghost pre = *self;
        match self.dao.check_owner(caller) {
            Ok(_) => {},
            Err(e) => {
                return Err(e);
            },
        }
        self.dao.approved_nfts.insert(new_nft_id);
        proof {
            lemma_index_accounts_extend(pre, *self, pre.streams@);
        }
        Ok(())
    }

    /// Withdraws an approved NFT contract.
    pub fn dao_remove_approved_nft(&mut self, caller: &AccountId, nft_id: &AccountId) -> (r:
        Result<(), ContractError>)
        requires
            old(self).wf(),
        ensures
            final(self).wf(),
            r is Err ==> *final(self) == *old(self),
            r is Ok <==> caller@ == old(self).dao.dao_id@,
            r is Ok ==> final(self).dao.approved_nfts@ == old(self).dao.approved_nfts@.remove(
                nft_id@,
            ) && final(self).dao == (crate::dao::Dao {
                approved_nfts: final(self).dao.approved_nfts,
                ..old(self).dao
            }) && *final(self) == (Contract { dao: final(self).dao, ..*old(self) }),
    {
        let ghost pre = *self;
        match self.dao.check_owner(caller) {
            Ok(_) => {},
            Err(e) => {
                return Err(e);
            },
        }
        self.dao.approved_nfts.remove(nft_id);
        proof {
            lemma_index_accounts_extend(pre, *self, pre.streams@);
        }
        Ok(())
    }
}

} // verus!
