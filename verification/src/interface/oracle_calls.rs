//! Oracle-reported configuration: the per-token creation commission and the
//! cross-chain conversion ratio.

use vstd::prelude::*;

use crate::contract::Contract;
use crate::err::ContractError;
use crate::primitives::AccountId;
use crate::primitives::Balance;
use crate::safe_float::SafeFloat;
use crate::stream_ops::lemma_index_accounts_extend;
use crate::token::Token;

verus! {

impl Contract {
    /// Updates the flat creation commission of a registered token; an
    /// unregistered asset is left untouched.
    pub fn oracle_update_commission_on_create(
        &mut self,
        caller: &AccountId,
        token_account_id: &AccountId,
        commission_on_create: Balance,
    ) -> (r: Result<(), ContractError>)
        requires
            old(self).wf(),
        ensures
            final(self).wf(),
            r is Err ==> *final(self) == *old(self),
            r is Ok <==> old(self).dao.oracles@.contains(caller@),
            (r is Ok && old(self).dao.tokens@.dom().contains(token_account_id@)) ==> final(self).dao.tokens@ == old(self).dao.tokens@.insert(
                token_account_id@,
                (Token {
                    commission_on_create,
                    ..old(self).dao.tokens@.index(token_account_id@)
                }),
            ) && final(self).dao == (crate::dao::Dao {
                tokens: final(self).dao.tokens,
                ..old(self).dao
            }) && *final(self) == (Contract { dao: final(self).dao, ..*old(self) }),
            (r is Ok && !old(self).dao.tokens@.dom().contains(token_account_id@)) ==> *final(self)
                == *old(self),
    {
        let ghost pre = *self;
        match self.dao.check_oracle(caller) {
            Ok(_) => {},
            Err(e) => {
                return Err(e);
            },
        }
        let updated: Option<Token> = match self.dao.tokens.get(token_account_id) {
            Some(t) => {
                let mut t2 = t.clone();
                t2.commission_on_create = commission_on_create;
                Some(t2)
            },
            None => None,
        };
        match updated {
            Some(t2) => {
                self.dao.tokens.insert(t2.account_id.clone(), t2);
                proof {
                    assert(self.dao.tokens@ =~= pre.dao.tokens@.insert(
                        token_account_id@,
                        self.dao.tokens@.index(token_account_id@),
                    ));
                    assert forall|k: Seq<char>| self.dao.tokens@.dom().contains(k) implies (
                    #[trigger] self.dao.tokens@[k]).wf() && self.dao.tokens@[k].account_id@ == k
                        by {
                        if k != token_account_id@ {
                            assert(self.dao.tokens@[k] == pre.dao.tokens@[k]);
                        }
                    }
                    lemma_index_accounts_extend(pre, *self, pre.streams@);
                }
            },
            None => {},
        }
        Ok(())
    }

    /// Updates the bridged-chain conversion ratio; the ratio must have
    /// passed the overflow-safety guard before the call.
    pub fn oracle_update_eth_near_ratio(&mut self, caller: &AccountId, ratio: SafeFloat) -> (r:
        Result<(), ContractError>)
        requires
            old(self).wf(),
            ratio.safe(),
        ensures
            final(self).wf(),
            r is Err ==> *final(self) == *old(self),
            r is Ok <==> old(self).dao.oracles@.contains(caller@),
            r is Ok ==> final(self).dao.eth_near_ratio == ratio && final(self).dao == (
            crate::dao::Dao { eth_near_ratio: ratio, ..old(self).dao }) && *final(self) == (
            Contract { dao: final(self).dao, ..*old(self) }),
    {
        let ghost pre = *self;
        match self.dao.check_oracle(caller) {
            Ok(_) => {},
            Err(e) => {
                return Err(e);
            },
        }
        ratio.assert_safe();
        self.dao.eth_near_ratio = ratio;
        proof {
            lemma_index_accounts_extend(pre, *self, pre.streams@);
        }
        Ok(())
    }
}

} // verus!
