//! The DAO-governed configuration: the token registry, flat fees, the
//! cross-chain conversion ratio, and the authority lists.

use vstd::prelude::*;

use crate::err::ContractError;
use crate::primitives::AccountId;
use crate::primitives::Balance;
use crate::primitives::DEFAULT_COMMISSION_NON_PAYMENT_FT;
use crate::safe_float::SafeFloat;
use crate::table::NameList;
use crate::table::Table;
use crate::token::Token;

verus! {

pub struct Dao {
    pub dao_id: AccountId,
    pub tokens: Table<Token>,
    /// Flat native-currency commission for assets not accepted as payment.
    pub commission_non_payment_ft: Balance,
    pub utility_token_id: AccountId,
    pub utility_token_decimals: u8,
    /// Conversion ratio applied to value attached from the bridged chain.
    pub eth_near_ratio: SafeFloat,
    pub oracles: NameList,
    pub approved_nfts: NameList,
}

impl Dao {
    /// Every registered token is stored under its own asset id with an
    /// admissible commission coefficient, and the ratio is overflow-safe.
    pub open spec fn wf(self) -> bool {
        &&& self.tokens.wf()
        &&& forall|k: Seq<char>|
            self.tokens@.dom().contains(k) ==> (#[trigger] self.tokens@[k]).wf()
                && self.tokens@[k].account_id@ == k
        &&& self.oracles.wf()
        &&& self.approved_nfts.wf()
        &&& self.eth_near_ratio.safe()
    }

    pub fn new(dao_id: AccountId, utility_token_id: AccountId, utility_token_decimals: u8) -> (r:
        Dao)
        ensures
            r.wf(),
            r.dao_id@ == dao_id@,
            r.tokens@ == Map::<Seq<char>, Token>::empty(),
            r.commission_non_payment_ft == DEFAULT_COMMISSION_NON_PAYMENT_FT,
            r.utility_token_id@ == utility_token_id@,
            r.utility_token_decimals == utility_token_decimals,
            r.eth_near_ratio == SafeFloat::spec_zero(),
            r.oracles@ == Set::<Seq<char>>::empty(),
            r.approved_nfts@ == Set::<Seq<char>>::empty(),
    {
        Dao {
            dao_id,
            tokens: Table::new(),
            commission_non_payment_ft: DEFAULT_COMMISSION_NON_PAYMENT_FT,
            utility_token_id,
            utility_token_decimals,
            eth_near_ratio: SafeFloat::zero(),
            oracles: NameList::new(),
            approved_nfts: NameList::new(),
        }
    }

    /// Only the DAO account itself may change configuration.
    pub fn check_owner(&self, caller: &AccountId) -> (r: Result<(), ContractError>)
        ensures
            r is Ok <==> caller@ == self.dao_id@,
            r is Err ==> r == Result::<(), ContractError>::Err(
                ContractError::CallerIsNotDao {
                    expected: self.dao_id,
                    received: *caller,
                },
            ),
    {
        if *caller == self.dao_id {
            Ok(())
        } else {
            Err(ContractError::CallerIsNotDao {
                expected: self.dao_id.clone(),
                received: caller.clone(),
            })
        }
    }

    /// The registry entry for `token_account_id`, or the synthesized unlisted
    /// default if the asset is not registered. Never fails; the result is
    /// re-read on every settlement so that policy changes apply to in-flight
    /// streams.
    pub fn get_token(&self, token_account_id: &AccountId) -> (r: Token)
        requires
            self.wf(),
        ensures
            self.tokens@.dom().contains(token_account_id@) ==> r == self.tokens@.index(
                token_account_id@,
            ),
            !self.tokens@.dom().contains(token_account_id@) ==> r.is_unlisted_for(
                token_account_id@,
            ),
            r.wf(),
    {
        match self.tokens.get(token_account_id) {
            Some(token) => token.clone(),
            None => Token::new_unlisted(token_account_id),
        }
    }

    /// Only a registered oracle may report.
    pub fn check_oracle(&self, sender_id: &AccountId) -> (r: Result<(), ContractError>)
        ensures
            r is Ok <==> self.oracles@.contains(sender_id@),
            r is Err ==> r == Result::<(), ContractError>::Err(
                ContractError::UnknownOracle { received: *sender_id },
            ),
    {
        if self.oracles.contains(sender_id) {
            Ok(())
        } else {
            Err(ContractError::UnknownOracle { received: sender_id.clone() })
        }
    }
}

} // verus!
