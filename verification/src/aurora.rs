//! Recognition of Aurora-side destinations: a 40-character lowercase
//! hexadecimal account name is an address on the bridged chain and is routed
//! (and accounted) differently from a native account.

use vstd::prelude::*;

use vstd::std_specs::iter::IteratorSpec;

use crate::primitives::AccountId;

verus! {

broadcast use vstd::string::next_postcondition, vstd::string::axiom_spec_iter;

/// A lowercase hexadecimal digit.
pub open spec fn spec_is_hex_char(c: char) -> bool {
    (48 <= c as u32 <= 57) || (97 <= c as u32 <= 102)
}

/// A 40-character lowercase hexadecimal name.
pub open spec fn spec_is_aurora_address(s: Seq<char>) -> bool {
    s.len() == 40 && (forall|i: int| 0 <= i < s.len() ==> spec_is_hex_char(#[trigger] s[i]))
}

pub fn aurora_account_id() -> (r: AccountId)
    ensures
        r@ == "aurora"@,
{
    let r: AccountId = "aurora".to_owned();
    r
}

/// Whether `account_id` has the shape of an Aurora address.
pub fn is_aurora_address(account_id: &AccountId) -> (r: bool)
    ensures
        r == spec_is_aurora_address(account_id@),
{
    let s: &str = account_id.as_str();
    let ghost cs = account_id@;
    let mut it = s.chars();
    let mut i: usize = 0;
    loop
        invariant
            account_id@ == cs,
            i <= cs.len(),
            i <= 40,
            IteratorSpec::remaining(&it) == cs.skip(i as int),
            IteratorSpec::obeys_prophetic_iter_laws(&it),
            forall|j: int| 0 <= j < i ==> spec_is_hex_char(#[trigger] cs[j]),
        ensures
            i == cs.len(),
            i <= 40,
            forall|j: int| 0 <= j < i ==> spec_is_hex_char(#[trigger] cs[j]),
        decreases cs.len() - i,
    {
        match it.next() {
            None => {
                proof {
                    assert(cs.skip(i as int).len() == 0);
                }
                break ;
            },
            Some(c) => {
                proof {
                    assert(cs.skip(i as int)[0] == cs[i as int]);
                }
                if i >= 40 {
                    proof {
                        assert(cs.len() > 40);
                    }
                    return false;
                }
                let u = c as u32;
                if !((48 <= u && u <= 57) || (97 <= u && u <= 102)) {
                    proof {
                        assert(!spec_is_hex_char(cs[i as int]));
                    }
                    return false;
                }
                proof {
                    assert(spec_is_hex_char(cs[i as int]));
                    assert(cs.skip(i as int).drop_first() =~= cs.skip(i as int + 1));
                }
                i = i + 1;
            },
        }
    }
    i == 40
}

} // verus!
