//! Per-asset registry entry: whether the asset is accepted as payment, its
//! commission configuration, and the storage/gas budgets its transfers need.

use vstd::prelude::*;

use crate::primitives::AccountId;
use crate::primitives::Balance;
use crate::primitives::GasAmount;
use crate::primitives::DEFAULT_GAS_FOR_FT_TRANSFER;
use crate::primitives::DEFAULT_GAS_FOR_STORAGE_DEPOSIT;
use crate::primitives::DEFAULT_STORAGE_BALANCE;
use crate::primitives::MAX_AMOUNT;
use crate::safe_float::lemma_mult_fits_mono;
use crate::safe_float::lemma_mult_le;
use crate::safe_float::SafeFloat;

verus! {

pub struct Token {
    pub account_id: AccountId,
    pub is_payment: bool,
    /// Taken once from the funded amount when a stream is created, if listed.
    pub commission_on_create: Balance,
    /// Percentage of each settled amount taken as commission.
    pub commission_coef: SafeFloat,
    /// Taken from the stream balance when the receiver changes, if listed.
    pub commission_on_transfer: Balance,
    pub storage_balance_needed: Balance,
    pub gas_for_ft_transfer: GasAmount,
    pub gas_for_storage_deposit: GasAmount,
}

impl Clone for Token {
    fn clone(&self) -> (res: Self)
        ensures
            res == *self,
    {
        Token {
            account_id: self.account_id.clone(),
            is_payment: self.is_payment,
            commission_on_create: self.commission_on_create,
            commission_coef: self.commission_coef,
            commission_on_transfer: self.commission_on_transfer,
            storage_balance_needed: self.storage_balance_needed,
            gas_for_ft_transfer: self.gas_for_ft_transfer,
            gas_for_storage_deposit: self.gas_for_storage_deposit,
        }
    }
}

impl Token {
    /// The commission coefficient is admissible: overflow-free on every
    /// amount up to `MAX_AMOUNT`, and at most one.
    pub open spec fn wf(self) -> bool {
        self.commission_coef.commission_safe()
    }

    /// The fields of the synthesized entry for an asset absent from the
    /// registry: not accepted as payment, zero commissions, default budgets.
    pub open spec fn is_unlisted_for(self, asset: Seq<char>) -> bool {
        &&& self.account_id@ == asset
        &&& self.is_payment == false
        &&& self.commission_on_create == 0
        &&& self.commission_coef == SafeFloat::spec_zero()
        &&& self.commission_on_transfer == 0
        &&& self.storage_balance_needed == DEFAULT_STORAGE_BALANCE
        &&& self.gas_for_ft_transfer == DEFAULT_GAS_FOR_FT_TRANSFER
        &&& self.gas_for_storage_deposit == DEFAULT_GAS_FOR_STORAGE_DEPOSIT
    }

    pub fn new_unlisted(token_account_id: &AccountId) -> (r: Self)
        ensures
            r.is_unlisted_for(token_account_id@),
            r.wf(),
    {
        Token {
            account_id: token_account_id.clone(),
            is_payment: false,
            commission_on_create: 0,
            commission_coef: SafeFloat::zero(),
            commission_on_transfer: 0,
            storage_balance_needed: DEFAULT_STORAGE_BALANCE,
            gas_for_ft_transfer: DEFAULT_GAS_FOR_FT_TRANSFER,
            gas_for_storage_deposit: DEFAULT_GAS_FOR_STORAGE_DEPOSIT,
        }
    }

    /// The commission charged on `amount`: zero for a zero coefficient or a
    /// zero amount, otherwise rounded up and at least one unit.
    pub open spec fn spec_commission(self, amount: int) -> int {
        if self.commission_coef == SafeFloat::spec_zero() || amount == 0 {
            0
        } else {
            self.commission_coef.spec_mult(amount - 1) + 1
        }
    }

    /// Splits `amount` into `(net, commission)`; the parts always sum back to
    /// `amount`, and the commission is zero exactly for a zero coefficient or
    /// a zero amount. Admits any overflow-safe coefficient of at most one —
    /// including exactly one, which assigns the whole amount to commission.
    pub fn apply_commission(&self, amount: Balance) -> (r: (Balance, Balance))
        requires
            self.commission_coef.safe(),
            self.commission_coef.at_most_one(),
            amount <= MAX_AMOUNT,
        ensures
            r.1 == self.spec_commission(amount as int),
            r.0 + r.1 == amount,
            r.1 <= amount,
            (r.1 == 0) <==> (self.commission_coef == SafeFloat::spec_zero() || amount == 0),
    {
        if self.commission_coef == SafeFloat::zero() || amount == 0 {
            (amount, 0)
        } else {
            proof {
                lemma_mult_fits_mono(self.commission_coef, amount as int - 1);
                lemma_mult_le(self.commission_coef, amount as int - 1);
            }
            let commission = self.commission_coef.mult_safe(amount - 1) + 1;
            (amount - commission, commission)
        }
    }
}

} // verus!
