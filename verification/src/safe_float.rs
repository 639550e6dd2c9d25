//! Fixed-point percentage/ratio representation `value * 10^exponent` with
//! overflow-safe multiplication, used for commissions and cross-asset
//! conversion ratios.
//!
//! The multiplication first right-shifts the argument by powers of ten
//! (rounding down) until it is within a declared safe ceiling, then multiplies
//! by `val` and divides by the remaining power of ten. The spec model below
//! mirrors that computation exactly, and `safe()` captures the configurations
//! for which no 128-bit overflow can occur on any amount up to `MAX_AMOUNT`.

use vstd::prelude::*;
use vstd::arithmetic::div_mod::*;
use vstd::arithmetic::mul::*;

use crate::primitives::MAX_AMOUNT;

verus! {

/// 1e27: the ceiling under which a value multiplied by a `u32` stays far from
/// the 128-bit limit.
pub const MAX_SAFE: u128 = 1_000_000_000_000_000_000_000_000_000;

#[derive(Clone, Copy, PartialEq, Eq, Structural, Debug)]
pub struct SafeFloat {
    pub val: u32,
    pub pow: i8,
}

/// 10 to the `n`-th power, as a mathematical integer.
pub open spec fn pow10(n: nat) -> int
    decreases n,
{
    if n == 0 {
        1
    } else {
        10 * pow10((n - 1) as nat)
    }
}

/// The value left after the shifting loop: divide by 10 while the value is
/// above `MAX_SAFE` and shift budget remains.
pub open spec fn shift_cur(cur: int, p: nat) -> int
    decreases p,
{
    if cur > MAX_SAFE && p > 0 {
        shift_cur(cur / 10, (p - 1) as nat)
    } else {
        cur
    }
}

/// The shift budget left after the shifting loop.
pub open spec fn shift_rem(cur: int, p: nat) -> nat
    decreases p,
{
    if cur > MAX_SAFE && p > 0 {
        shift_rem(cur / 10, (p - 1) as nat)
    } else {
        p
    }
}

pub proof fn lemma_pow10_pos(n: nat)
    ensures
        pow10(n) >= 1,
    decreases n,
{
    if n > 0 {
        lemma_pow10_pos((n - 1) as nat);
    }
}

pub proof fn lemma_pow10_mono(a: nat, b: nat)
    requires
        a <= b,
    ensures
        pow10(a) <= pow10(b),
    decreases b,
{
    if a < b {
        lemma_pow10_mono(a, (b - 1) as nat);
        lemma_pow10_pos((b - 1) as nat);
    }
}

/// `a * b <= m` exactly when `a <= m / b`, for positive `b`.
pub proof fn lemma_mul_le_div(a: int, b: int, m: int)
    requires
        a >= 0,
        b >= 1,
        m >= 0,
    ensures
        a * b <= m <==> a <= m / b,
{
    if a * b <= m {
        lemma_div_is_ordered(a * b, m, b);
        lemma_div_by_multiple(a, b);
    }
    if a <= m / b {
        lemma_div_pos_is_pos(m, b);
        lemma_mul_inequality(a, m / b, b);
        lemma_fundamental_div_mod(m, b);
        lemma_mod_division_less_than_divisor(m, b);
        lemma_mul_is_commutative(m / b, b);
    }
}

impl SafeFloat {
    /// The zero ratio.
    pub open spec fn spec_zero() -> SafeFloat {
        SafeFloat { val: 0, pow: 0 }
    }

    pub fn zero() -> (r: SafeFloat)
        ensures
            r == SafeFloat::spec_zero(),
    {
        SafeFloat { val: 0, pow: 0 }
    }

    /// The magnitude of a negative exponent.
    pub open spec fn neg_pow(self) -> nat {
        (-(self.pow as int)) as nat
    }

    /// The exact mathematical result of `mult_safe` on `x`.
    pub open spec fn spec_mult(self, x: int) -> int {
        if self.pow < 0 {
            shift_cur(x, self.neg_pow()) * self.val / pow10(shift_rem(x, self.neg_pow()))
        } else {
            x * self.val * pow10(self.pow as nat)
        }
    }

    /// No intermediate value of `mult_safe(x)` exceeds `u128::MAX`.
    pub open spec fn mult_fits(self, x: int) -> bool {
        if self.pow < 0 {
            pow10(self.neg_pow()) <= u128::MAX && shift_cur(x, self.neg_pow()) * self.val
                <= u128::MAX
        } else {
            pow10(self.pow as nat) <= u128::MAX && x * self.val * pow10(self.pow as nat)
                <= u128::MAX
        }
    }

    /// The ratio can be applied to any amount up to `MAX_AMOUNT` without
    /// overflow.
    pub open spec fn safe(self) -> bool {
        self.mult_fits(MAX_AMOUNT as int)
    }

    /// A ratio admissible as a commission coefficient: safe, and rounding one
    /// single unit down to zero (which entails the ratio is at most one).
    pub open spec fn commission_safe(self) -> bool {
        self.safe() && self.spec_mult(1) == 0
    }

    /// The ratio is at most one: applying it never yields more than the
    /// argument. Strictly weaker than `commission_safe`, which additionally
    /// rounds a single unit down to zero; the exactly-one ratio satisfies
    /// this but not that.
    pub open spec fn at_most_one(self) -> bool {
        if self.pow < 0 {
            self.val as int <= pow10(self.neg_pow())
        } else {
            self.val as int * pow10(self.pow as nat) <= 1
        }
    }
}

/// After shifting, the value either came under the ceiling or the whole
/// budget was spent on exact floor division by `pow10(p)`.
proof fn lemma_shift_shape(cur: int, p: nat)
    requires
        cur >= 0,
    ensures
        shift_cur(cur, p) >= 0,
        shift_rem(cur, p) <= p,
        shift_cur(cur, p) <= cur,
        shift_cur(cur, p) <= MAX_SAFE || (shift_rem(cur, p) == 0 && shift_cur(cur, p) == cur
            / pow10(p)),
    decreases p,
{
    if cur > MAX_SAFE && p > 0 {
        lemma_div_pos_is_pos(cur, 10);
        lemma_div_nonincreasing(cur, 10);
        lemma_shift_shape(cur / 10, (p - 1) as nat);
        if !(shift_cur(cur, p) <= MAX_SAFE) {
            lemma_pow10_pos((p - 1) as nat);
            lemma_div_denominator(cur, 10, pow10((p - 1) as nat));
        }
    } else {
        if p == 0 {
            lemma_div_basics(cur);
        }
    }
}

/// The shifted value never falls below exact floor division by the full
/// power.
proof fn lemma_shift_lower(cur: int, p: nat)
    requires
        cur >= 0,
    ensures
        shift_cur(cur, p) >= cur / pow10(p),
    decreases p,
{
    lemma_pow10_pos(p);
    if cur > MAX_SAFE && p > 0 {
        lemma_div_pos_is_pos(cur, 10);
        lemma_shift_lower(cur / 10, (p - 1) as nat);
        lemma_pow10_pos((p - 1) as nat);
        lemma_div_denominator(cur, 10, pow10((p - 1) as nat));
    } else {
        lemma_div_nonincreasing(cur, pow10(p));
        lemma_div_pos_is_pos(cur, pow10(p));
    }
}

/// If a ratio is safe for `MAX_AMOUNT`, it is safe for every smaller amount.
pub proof fn lemma_mult_fits_mono(f: SafeFloat, x: int)
    requires
        f.safe(),
        0 <= x <= MAX_AMOUNT,
    ensures
        f.mult_fits(x),
{
    if f.pow < 0 {
        let p = f.neg_pow();
        lemma_shift_shape(x, p);
        lemma_shift_shape(MAX_AMOUNT as int, p);
        if shift_cur(x, p) <= MAX_SAFE {
            lemma_mul_inequality(shift_cur(x, p), MAX_SAFE as int, f.val as int);
            assert(MAX_SAFE * (f.val as int) <= MAX_SAFE * (u32::MAX as int)) by {
                lemma_mul_left_inequality(MAX_SAFE as int, f.val as int, u32::MAX as int);
            }
        } else {
            lemma_pow10_pos(p);
            lemma_div_is_ordered(x, MAX_AMOUNT as int, pow10(p));
            lemma_shift_lower(MAX_AMOUNT as int, p);
            lemma_mul_inequality(shift_cur(x, p), shift_cur(MAX_AMOUNT as int, p), f.val as int);
        }
    } else {
        lemma_pow10_pos(f.pow as nat);
        lemma_mul_inequality(x, MAX_AMOUNT as int, f.val as int);
        lemma_mul_inequality(x * f.val, MAX_AMOUNT as int * f.val, pow10(f.pow as nat));
    }
}

/// Shifting before multiplying and dividing can only round further down.
proof fn lemma_shift_mult_le(cur: int, p: nat, v: int)
    requires
        cur >= 0,
        v >= 0,
    ensures
        shift_cur(cur, p) * v / pow10(shift_rem(cur, p)) <= cur * v / pow10(p),
    decreases p,
{
    lemma_pow10_pos(p);
    lemma_mul_nonnegative(cur, v);
    if cur > MAX_SAFE && p > 0 {
        lemma_div_pos_is_pos(cur, 10);
        lemma_shift_mult_le(cur / 10, (p - 1) as nat, v);
        // (cur / 10) * v <= (cur * v) / 10
        lemma_fundamental_div_mod(cur, 10);
        lemma_mod_bound(cur, 10);
        assert((cur / 10) * v <= cur * v / 10) by {
            let q = cur / 10;
            lemma_mul_inequality(q * 10, cur, v);
            assert((q * 10) * v == (q * v) * 10) by {
                lemma_mul_is_associative(q, 10, v);
                lemma_mul_is_commutative(10, v);
                lemma_mul_is_associative(q, v, 10);
            }
            lemma_div_is_ordered((q * v) * 10, cur * v, 10);
            lemma_div_by_multiple(q * v, 10);
        }
        lemma_pow10_pos((p - 1) as nat);
        lemma_shift_shape(cur / 10, (p - 1) as nat);
        lemma_mul_nonnegative(cur / 10, v);
        lemma_div_is_ordered((cur / 10) * v, cur * v / 10, pow10((p - 1) as nat));
        lemma_div_denominator(cur * v, 10, pow10((p - 1) as nat));
    }
}

/// A commission-admissible ratio is at most one.
pub proof fn lemma_commission_at_most_one(f: SafeFloat)
    requires
        f.commission_safe(),
    ensures
        f.at_most_one(),
{
    if f.pow < 0 {
        let p = f.neg_pow();
        // From spec_mult(1) == 0: val < pow10(p).
        assert(shift_cur(1, p) == 1);
        assert(shift_rem(1, p) == p);
        lemma_pow10_pos(p);
        if f.val as int >= pow10(p) {
            lemma_div_non_zero(f.val as int, pow10(p));
            assert(false);
        }
    } else {
        lemma_pow10_pos(f.pow as nat);
        if f.val != 0 {
            assert(1 * f.val == f.val) by {
                lemma_mul_basics(f.val as int);
            }
            lemma_mul_strictly_positive(f.val as int, pow10(f.pow as nat));
            assert(false);
        }
        assert(0 * pow10(f.pow as nat) == 0) by {
            lemma_mul_by_zero_is_zero(pow10(f.pow as nat));
        }
    }
}

/// A ratio of at most one maps every non-negative amount to at most itself:
/// such a commission never exceeds the amount it is taken from.
pub proof fn lemma_mult_le(f: SafeFloat, y: int)
    requires
        f.at_most_one(),
        y >= 0,
    ensures
        f.spec_mult(y) <= y,
        f.spec_mult(y) >= 0,
{
    if f.pow < 0 {
        let p = f.neg_pow();
        lemma_pow10_pos(p);
        lemma_shift_mult_le(y, p, f.val as int);
        // y * val <= y * pow10(p), so y * val / pow10(p) <= y.
        if y > 0 {
            lemma_mul_left_inequality(y, f.val as int, pow10(p));
        } else {
            lemma_mul_by_zero_is_zero(f.val as int);
            lemma_mul_by_zero_is_zero(pow10(p));
        }
        lemma_mul_is_commutative(y, pow10(p));
        lemma_div_is_ordered(y * f.val, y * pow10(p), pow10(p));
        lemma_div_by_multiple(y, pow10(p));
        lemma_shift_shape(y, p);
        lemma_mul_nonnegative(shift_cur(y, p), f.val as int);
        lemma_pow10_pos(shift_rem(y, p));
        lemma_div_pos_is_pos(shift_cur(y, p) * f.val, pow10(shift_rem(y, p)));
    } else {
        lemma_pow10_pos(f.pow as nat);
        if f.val == 0 {
            assert(y * 0 == 0) by {
                lemma_mul_by_zero_is_zero(y);
            }
            assert(0 * pow10(f.pow as nat) == 0) by {
                lemma_mul_by_zero_is_zero(pow10(f.pow as nat));
            }
        } else {
            // val * pow10(pow) <= 1 with both factors at least 1 forces the
            // ratio to be exactly one.
            assert(f.val as int * pow10(f.pow as nat) >= pow10(f.pow as nat)) by {
                lemma_mul_inequality(1, f.val as int, pow10(f.pow as nat));
                lemma_mul_basics(pow10(f.pow as nat));
            }
            assert(pow10(f.pow as nat) == 1);
            assert(f.val as int * 1 == f.val) by {
                lemma_mul_basics(f.val as int);
            }
            assert(f.val == 1);
            assert(y * 1 == y) by {
                lemma_mul_basics(y);
            }
            assert(y * f.val == y);
            assert(y * f.val * pow10(f.pow as nat) == y);
        }
    }
}

/// 10 to the `p`-th power as a `u128`, or `None` if it does not fit.
pub fn try_pow10(p: u32) -> (r: Option<u128>)
    ensures
        match r {
            Some(d) => pow10(p as nat) == d as int,
            None => pow10(p as nat) > u128::MAX,
        },
{
    let mut acc: u128 = 1;
    let mut i: u32 = 0;
    while i < p
        invariant
            i <= p,
            acc as int == pow10(i as nat),
        decreases p - i,
    {
        if acc > u128::MAX / 10 {
            proof {
                lemma_mul_le_div(acc as int, 10, u128::MAX as int);
                lemma_mul_is_commutative(acc as int, 10);
                lemma_pow10_mono((i + 1) as nat, p as nat);
            }
            return None;
        }
        proof {
            lemma_mul_le_div(acc as int, 10, u128::MAX as int);
            lemma_mul_is_commutative(acc as int, 10);
        }
        acc = acc * 10;
        i = i + 1;
    }
    Some(acc)
}

impl SafeFloat {
    /// Computes `x * val * 10^pow` rounding down, exactly as `spec_mult`
    /// states, free of overflow for admitted inputs.
    pub fn mult_safe(&self, x: u128) -> (r: u128)
        requires
            self.mult_fits(x as int),
        ensures
            r as int == self.spec_mult(x as int),
    {
        if self.pow < 0 {
            let ghost p_total = self.neg_pow();
            let mut cur: u128 = x;
            let mut p: u32 = (-(self.pow as i32)) as u32;
            proof {
                lemma_shift_shape(x as int, p_total);
            }
            while cur > MAX_SAFE && p > 0
                invariant
                    self.pow < 0,
                    p <= p_total,
                    cur >= 0,
                    shift_cur(cur as int, p as nat) == shift_cur(x as int, p_total),
                    shift_rem(cur as int, p as nat) == shift_rem(x as int, p_total),
                    self.mult_fits(x as int),
                decreases p,
            {
                cur = cur / 10;
                p = p - 1;
            }
            proof {
                lemma_pow10_mono(p as nat, p_total);
            }
            let d = match try_pow10(p) {
                Some(d) => d,
                None => {
                    proof {
                        assert(false);
                    }
                    1
                },
            };
            proof {
                lemma_pow10_pos(p as nat);
                lemma_mul_nonnegative(cur as int, self.val as int);
            }
            cur * (self.val as u128) / d
        } else {
            let d = match try_pow10(self.pow as u32) {
                Some(d) => d,
                None => {
                    proof {
                        assert(false);
                    }
                    1
                },
            };
            proof {
                lemma_pow10_pos(self.pow as nat);
                lemma_mul_nonnegative(x as int, self.val as int);
                // x * val <= x * val * pow10(pow)
                if x as int * self.val > 0 {
                    lemma_mul_left_inequality(x as int * self.val, 1, pow10(self.pow as nat));
                } else {
                    lemma_mul_by_zero_is_zero(pow10(self.pow as nat));
                }
                lemma_mul_basics(x as int * self.val);
            }
            let t = x * (self.val as u128);
            t * d
        }
    }

    /// The configuration-time guard: succeeds exactly on ratios that cannot
    /// overflow on any admissible amount. A failing configuration must be
    /// rejected before this call, which is what `check_safe` is for.
    pub fn assert_safe(&self)
        requires
            self.safe(),
    {
        let _ = self.mult_safe(MAX_AMOUNT);
    }

    /// The stricter guard for commission coefficients: additionally the ratio
    /// must map a single unit to zero.
    pub fn assert_safe_commission(&self)
        requires
            self.commission_safe(),
    {
        self.assert_safe();
        proof {
            lemma_mult_fits_mono(*self, 1);
        }
        let one = self.mult_safe(1);
        assert(one == 0);
    }

    /// Decides `safe()` without risking overflow, for validating a
    /// configuration before it is accepted.
    pub fn check_safe(&self) -> (r: bool)
        ensures
            r == self.safe(),
    {
        if self.pow < 0 {
            let ghost p_total = self.neg_pow();
            let mut cur: u128 = MAX_AMOUNT;
            let mut p: u32 = (-(self.pow as i32)) as u32;
            proof {
                lemma_shift_shape(MAX_AMOUNT as int, p_total);
            }
            while cur > MAX_SAFE && p > 0
                invariant
                    self.pow < 0,
                    p <= p_total,
                    shift_cur(cur as int, p as nat) == shift_cur(MAX_AMOUNT as int, p_total),
                    shift_rem(cur as int, p as nat) == shift_rem(MAX_AMOUNT as int, p_total),
                decreases p,
            {
                cur = cur / 10;
                p = p - 1;
            }
            let ghost shifted = shift_cur(MAX_AMOUNT as int, p_total);
            match try_pow10((-(self.pow as i32)) as u32) {
                Some(_) => {
                    if self.val == 0 {
                        proof {
                            lemma_mul_by_zero_is_zero(shifted);
                            lemma_mul_is_commutative(shifted, 0);
                        }
                        true
                    } else {
                        proof {
                            lemma_mul_le_div(shifted, self.val as int, u128::MAX as int);
                            lemma_shift_shape(MAX_AMOUNT as int, p_total);
                        }
                        cur <= u128::MAX / (self.val as u128)
                    }
                },
                None => false,
            }
        } else {
            match try_pow10(self.pow as u32) {
                Some(d) => {
                    if self.val == 0 {
                        proof {
                            lemma_mul_by_zero_is_zero(MAX_AMOUNT as int);
                            lemma_mul_is_commutative(MAX_AMOUNT as int, 0);
                            lemma_mul_by_zero_is_zero(pow10(self.pow as nat));
                            lemma_mul_is_commutative(pow10(self.pow as nat), 0);
                        }
                        true
                    } else if MAX_AMOUNT > u128::MAX / (self.val as u128) {
                        proof {
                            lemma_mul_le_div(MAX_AMOUNT as int, self.val as int, u128::MAX as int);
                            lemma_pow10_pos(self.pow as nat);
                            lemma_mul_strictly_positive(MAX_AMOUNT as int, self.val as int);
                            lemma_mul_left_inequality(
                                MAX_AMOUNT as int * self.val,
                                1,
                                pow10(self.pow as nat),
                            );
                            lemma_mul_basics(MAX_AMOUNT as int * self.val);
                        }
                        false
                    } else {
                        proof {
                            lemma_mul_le_div(MAX_AMOUNT as int, self.val as int, u128::MAX as int);
                        }
                        let t = MAX_AMOUNT * (self.val as u128);
                        proof {
                            lemma_pow10_pos(self.pow as nat);
                            lemma_mul_nonnegative(MAX_AMOUNT as int, self.val as int);
                            lemma_mul_le_div(t as int, pow10(self.pow as nat), u128::MAX as int);
                        }
                        if d == 0 {
                            proof {
                                lemma_pow10_pos(self.pow as nat);
                            }
                            false
                        } else {
                            t <= u128::MAX / d
                        }
                    }
                },
                None => false,
            }
        }
    }

    /// Decides `commission_safe()` without risking overflow.
    pub fn check_safe_commission(&self) -> (r: bool)
        ensures
            r == self.commission_safe(),
    {
        if !self.check_safe() {
            return false;
        }
        proof {
            lemma_mult_fits_mono(*self, 1);
        }
        self.mult_safe(1) == 0
    }
}

} // verus!
