//! Account self-service: the automated-withdrawal flag, native-currency
//! deposits into the reserve, and unstaking of the utility token.

use vstd::prelude::*;

use crate::account::Account;
use crate::contract::Contract;
use crate::err::ContractError;
use crate::primitives::AccountId;
use crate::primitives::Balance;
use crate::stream_ops::lemma_index_accounts_extend;
use crate::transfer::Instruction;

verus! {

impl Contract {
    /// Lets an account allow or forbid delegated (automated) withdrawals on
    /// its incoming streams.
    pub fn account_update_cron_flag(&mut self, caller: &AccountId, is_cron_allowed: bool) -> (r:
        Result<(), ContractError>)
        requires
            old(self).wf(),
        ensures
            final(self).wf(),
            r is Err ==> *final(self) == *old(self),
            r is Ok <==> old(self).accounts@.dom().contains(caller@),
            r is Ok ==> final(self).accounts@ == old(self).accounts@.insert(
                caller@,
                (Account {
                    is_cron_allowed,
                    ..old(self).accounts@.index(caller@)
                }),
            ) && *final(self) == (Contract { accounts: final(self).accounts, ..*old(self) }),
    {
        let ghost pre = *self;
        let mut account = match self.extract_account(caller) {
            Ok(a) => a,
            Err(e) => {
                return Err(e);
            },
        };
        account.is_cron_allowed = is_cron_allowed;
        match self.save_account(account) {
            Ok(_) => {},
            Err(e) => {
                proof {
                    assert(false);
                }
                return Err(e);
            },
        }
        proof {
            assert(self.accounts@ =~= pre.accounts@.insert(
                caller@,
                self.accounts@.index(caller@),
            ));
            assert forall|k: Seq<char>| self.accounts@.dom().contains(k) implies (
            #[trigger] self.accounts@[k]).wf() && self.accounts@[k].id@ == k by {
                if k != caller@ {
                    assert(self.accounts@[k] == pre.accounts@[k]);
                }
            }
            lemma_index_accounts_extend(pre, *self, pre.streams@);
        }
        Ok(())
    }

    /// Credits a native-currency deposit to an account's reserve, creating
    /// the record if needed; a deposit that would leave the reserve below
    /// the account-creation fee is rejected.
    pub fn account_deposit(&mut self, account_id: AccountId, deposit: Balance) -> (r: Result<
        (),
        ContractError,
    >)
        requires
            old(self).wf(),
            old(self).spec_reserve_of(account_id@) + deposit <= u128::MAX,
        ensures
            final(self).wf(),
            r is Err ==> *final(self) == *old(self),
            r is Ok <==> old(self).spec_reserve_of(account_id@) + deposit >= old(self).dao.commission_non_payment_ft,
            r is Ok ==> final(self).accounts@.dom().contains(account_id@) && final(self).accounts@.index(account_id@).deposit == old(self).spec_reserve_of(account_id@)
                + deposit && *final(self) == (Contract {
                accounts: final(self).accounts,
                ..*old(self)
            }),
    {
        let ghost pre = *self;
        let reserve: Balance = match self.view_account(&account_id) {
            Some(a) => a.deposit,
            None => 0,
        };
        // Creating accounts for free must stay impossible.
        if reserve + deposit < self.dao.commission_non_payment_ft {
            return Err(ContractError::InsufficientDeposit {
                expected: self.dao.commission_non_payment_ft - reserve,
                received: deposit,
            });
        }
        self.create_account_if_not_exist(&account_id);
        let ghost c1 = *self;
        let mut account = match self.extract_account(&account_id) {
            Ok(a) => a,
            Err(e) => {
                proof {
                    assert(false);
                }
                return Err(e);
            },
        };
        account.deposit = account.deposit + deposit;
        match self.save_account(account) {
            Ok(_) => {},
            Err(e) => {
                proof {
                    assert(false);
                }
                return Err(e);
            },
        }
        proof {
            assert forall|k: Seq<char>| self.accounts@.dom().contains(k) implies (
            #[trigger] self.accounts@[k]).wf() && self.accounts@[k].id@ == k by {
                if k != account_id@ {
                    assert(self.accounts@[k] == c1.accounts@[k]);
                    assert(c1.accounts@[k] == pre.accounts@[k]);
                } else {
                    if pre.accounts@.dom().contains(k) {
                        assert(c1.accounts@[k] == pre.accounts@[k]);
                    }
                }
            }
            lemma_index_accounts_extend(pre, *self, pre.streams@);
        }
        Ok(())
    }

    /// Returns part of an account's utility-token stake to its holder.
    pub fn account_unstake(&mut self, caller: &AccountId, amount: Balance) -> (r: Result<
        Option<Instruction>,
        ContractError,
    >)
        requires
            old(self).wf(),
        ensures
            final(self).wf(),
            r is Err ==> *final(self) == *old(self),
            r is Ok <==> (old(self).accounts@.dom().contains(caller@) && amount <= old(self).accounts@.index(caller@).stake),
            r matches Ok(i) ==> final(self).accounts@ == old(self).accounts@.insert(
                caller@,
                (Account {
                    stake: (old(self).accounts@.index(caller@).stake - amount) as u128,
                    ..old(self).accounts@.index(caller@)
                }),
            ) && *final(self) == (Contract { accounts: final(self).accounts, ..*old(self) })
                && crate::transfer::spec_self_transfer(
                old(self).dao.utility_token_id@,
                caller@,
                amount as int,
                i,
            ),
    {
        let ghost pre = *self;
        match self.view_account(caller) {
            Some(a) => {
                if amount > a.stake {
                    return Err(ContractError::InvalidTokenWithdrawAmount {
                        requested: amount,
                        left: a.stake,
                    });
                }
            },
            None => {
                return Err(ContractError::AccountNotExist { account_id: caller.clone() });
            },
        }
        let mut account = match self.extract_account(caller) {
            Ok(a) => a,
            Err(e) => {
                proof {
                    assert(false);
                }
                return Err(e);
            },
        };
        account.stake = account.stake - amount;
        match self.save_account(account) {
            Ok(_) => {},
            Err(e) => {
                proof {
                    assert(false);
                }
                return Err(e);
            },
        }
        proof {
            assert(self.accounts@ =~= pre.accounts@.insert(
                caller@,
                self.accounts@.index(caller@),
            ));
            assert forall|k: Seq<char>| self.accounts@.dom().contains(k) implies (
            #[trigger] self.accounts@[k]).wf() && self.accounts@[k].id@ == k by {
                if k != caller@ {
                    assert(self.accounts@[k] == pre.accounts@[k]);
                }
            }
            lemma_index_accounts_extend(pre, *self, pre.streams@);
        }
        let utility = self.dao.get_token(&self.dao.utility_token_id);
        self.ft_transfer_from_self(utility.account_id, caller.clone(), amount)
    }
}

} // verus!
