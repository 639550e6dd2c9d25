//! The well-known wrapped-native-token account, used by the dispatcher to
//! decide whether an outbound transfer should unwrap to the native currency.

use vstd::prelude::*;

use crate::primitives::AccountId;

verus! {

pub fn wrap_near_account_id() -> (r: AccountId)
    ensures
        r@ == "wrap.near"@,
{
    let r: AccountId = "wrap.near".to_owned();
    r
}

} // verus!
