//! Wide integer arithmetic.
//!
//! Reward and commission amounts are products of two 128-bit quantities
//! divided by a third. The product does not fit in 128 bits even where the
//! quotient does, so it is formed in 256 bits and divided from there.

use vstd::arithmetic::div_mod::lemma_fundamental_div_mod_converse;
use vstd::arithmetic::power2::{lemma2_to64, lemma_pow2_adds, lemma_pow2_unfold, pow2};
use vstd::prelude::*;

verus! {

/// 2^64: the weight of the upper half of a 128-bit word.
pub const HALF_WORD: u128 = 0x1_0000_0000_0000_0000;

/// 2^127: the highest bit of a 128-bit word.
pub const TOP_BIT: u128 = 0x8000_0000_0000_0000_0000_0000_0000_0000;

/// 2^128: the weight of the upper word of a [`U256`].
pub open spec fn word() -> int {
    0x1_0000_0000_0000_0000_0000_0000_0000_0000int
}

/// An unsigned integer of 256 bits, held as two 128-bit words.
#[derive(Clone, Copy, Debug)]
pub struct U256 {
    pub hi: u128,
    pub lo: u128,
}

impl View for U256 {
    type V = nat;

    /// The number that the two words stand for.
    open spec fn view(&self) -> nat {
        (self.hi * word() + self.lo) as nat
    }
}

/// The product of two numbers below 2^64 is at most (2^64 - 1)^2.
proof fn lemma_half_product(x: int, y: int)
    requires
        0 <= x < HALF_WORD,
        0 <= y < HALF_WORD,
    ensures
        0 <= x * y <= (HALF_WORD - 1) * (HALF_WORD - 1),
{
    assert(0 <= x * y <= (HALF_WORD - 1) * (HALF_WORD - 1)) by (nonlinear_arith)
        requires
            0 <= x <= HALF_WORD - 1,
            0 <= y <= HALF_WORD - 1,
    ;
}

/// Schoolbook multiplication of two numbers given in halves.
proof fn lemma_product_of_halves(a1: int, a0: int, b1: int, b0: int, h: int)
    ensures
        (a1 * h + a0) * (b1 * h + b0) == (a1 * b1) * (h * h) + (a0 * b1) * h + (a1 * b0) * h + a0
            * b0,
{
    let x = a1 * h;
    let y = b1 * h;
    assert((x + a0) * (y + b0) == x * y + a0 * y + x * b0 + a0 * b0) by (nonlinear_arith);
    assert(x * y == (a1 * b1) * (h * h)) by (nonlinear_arith)
        requires
            x == a1 * h,
            y == b1 * h,
    ;
    assert(a0 * y == (a0 * b1) * h) by (nonlinear_arith)
        requires
            y == b1 * h,
    ;
    assert(x * b0 == (a1 * b0) * h) by (nonlinear_arith)
        requires
            x == a1 * h,
    ;
}

/// One step of binary long division: a remainder `r < d` is doubled, the next
/// bit `b` of the dividend is brought down, and the divisor is taken off once
/// if it fits.
proof fn lemma_division_step(q: int, r: int, d: int, b: int, p: int, low: int, n: int)
    requires
        0 <= r < d,
        0 <= b <= 1,
        n == (q * d + r) * (2 * p) + b * p + low,
    ensures
        2 * r + b >= d ==> n == ((2 * q + 1) * d + (2 * r + b - d)) * p + low,
        2 * r + b < d ==> n == ((2 * q) * d + (2 * r + b)) * p + low,
{
    assert((q * d + r) * (2 * p) + b * p == ((2 * q + 1) * d + (2 * r + b - d)) * p)
        by (nonlinear_arith);
    assert((q * d + r) * (2 * p) + b * p == ((2 * q) * d + (2 * r + b)) * p) by (nonlinear_arith);
}

/// 2^128 written out.
proof fn lemma_pow2_128()
    ensures
        pow2(128) == word(),
        pow2(127) == TOP_BIT,
        pow2(0) == 1,
{
    lemma2_to64();
    lemma_pow2_adds(64, 64);
    lemma_pow2_unfold(128);
}

impl U256 {
    /// The 256-bit integer equal to `x`.
    pub fn from_u128(x: u128) -> (r: U256)
        ensures
            r@ == x,
    {
        U256 { hi: 0, lo: x }
    }

    /// The full product of two 128-bit integers.
    pub fn mul_u128(a: u128, b: u128) -> (r: U256)
        ensures
            r@ == a * b,
    {
        let a0: u128 = a % HALF_WORD;
        let a1: u128 = a / HALF_WORD;
        let b0: u128 = b % HALF_WORD;
        let b1: u128 = b / HALF_WORD;
        proof {
            lemma_half_product(a0 as int, b0 as int);
            lemma_half_product(a0 as int, b1 as int);
            lemma_half_product(a1 as int, b0 as int);
            lemma_half_product(a1 as int, b1 as int);
        }
        let low_low: u128 = a0 * b0;
        let low_high: u128 = a0 * b1;
        let high_low: u128 = a1 * b0;
        let high_high: u128 = a1 * b1;
        // The two middle products overlap both words; their carries are
        // collected one at a time so that no sum leaves 128 bits.
        let mid1: u128 = low_high + low_low / HALF_WORD;
        let mid2: u128 = high_low + mid1 % HALF_WORD;
        let lo: u128 = (mid2 % HALF_WORD) * HALF_WORD + low_low % HALF_WORD;
        let hi: u128 = high_high + mid1 / HALF_WORD + mid2 / HALF_WORD;
        proof {
            lemma_product_of_halves(
                a1 as int,
                a0 as int,
                b1 as int,
                b0 as int,
                HALF_WORD as int,
            );
        }
        U256 { hi, lo }
    }

    /// The quotient of `self` by `d`, where it fits in 128 bits.
    ///
    /// Returns `None` for a zero divisor and for a quotient of 2^128 or more.
    pub fn checked_div_u128(self, d: u128) -> (r: Option<u128>)
        ensures
            r is Some <==> d > 0 && self@ / (d as nat) <= u128::MAX,
            r is Some ==> r->0 == self@ / (d as nat),
    {
        if d == 0 {
            return None;
        }
        if self.hi >= d {
            proof {
                // The dividend is at least d * 2^128.
                assert(self@ >= d * word()) by (nonlinear_arith)
                    requires
                        self@ == self.hi * word() + self.lo,
                        self.hi >= d,
                        word() > 0,
                ;
                vstd::arithmetic::div_mod::lemma_div_is_ordered(
                    d * word(),
                    self@ as int,
                    d as int,
                );
                vstd::arithmetic::div_mod::lemma_div_multiples_vanish(word(), d as int);
            }
            return None;
        }
        Some(self.div_u128(d))
    }

    /// The quotient of `self` by a `d` that is more than the upper word of
    /// `self`, so that the quotient fits in 128 bits.
    ///
    /// This is binary long division: the bits of the lower word are brought
    /// down one at a time, from the top.
    pub fn div_u128(self, d: u128) -> (q: u128)
        requires
            self.hi < d,
        ensures
            q == self@ / (d as nat),
    {
        let ghost n: int = self@ as int;
        let mut q: u128 = 0;
        let mut r: u128 = self.hi;
        let mut rest: u128 = self.lo;
        let mut i: u32 = 0;
        let ghost mut low: int = self.lo as int;
        proof {
            lemma_pow2_128();
        }
        while i < 128
            invariant
                i <= 128,
                0 < d,
                r < d,
                0 <= low < pow2((128 - i) as nat),
                rest == low * pow2(i as nat),
                q < pow2(i as nat),
                n == (q * d + r) * pow2((128 - i) as nat) + low,
            decreases 128 - i,
        {
            let ghost p: int = pow2((127 - i) as nat) as int;
            let ghost w: int = pow2(i as nat) as int;
            proof {
                lemma_pow2_128();
                lemma_pow2_unfold((128 - i) as nat);
                lemma_pow2_unfold((i + 1) as nat);
                lemma_pow2_adds((127 - i) as nat, i as nat);
                vstd::arithmetic::power2::lemma_pow2_pos(i as nat);
                vstd::arithmetic::power2::lemma_pow2_pos((127 - i) as nat);
            }
            // The next bit of the dividend is the top bit of `rest`.
            let bit: u128 = if rest >= TOP_BIT {
                1
            } else {
                0
            };
            proof {
                // rest >= 2^127 exactly when the untouched part reaches its top bit.
                assert(rest >= TOP_BIT <==> low >= p) by (nonlinear_arith)
                    requires
                        rest == low * w,
                        p * w == TOP_BIT,
                        w > 0,
                ;
            }
            let ghost low_next: int = low - bit * p;
            let rest_next: u128 = if bit == 1 {
                (rest - TOP_BIT) * 2
            } else {
                rest * 2
            };
            proof {
                assert(rest_next == low_next * (2 * w)) by (nonlinear_arith)
                    requires
                        rest == low * w,
                        p * w == TOP_BIT,
                        low_next == low - bit * p,
                        rest_next == (rest - bit * TOP_BIT) * 2,
                ;
                lemma_division_step(q as int, r as int, d as int, bit as int, p, low_next, n);
                assert(w <= TOP_BIT) by (nonlinear_arith)
                    requires
                        p * w == TOP_BIT,
                        p >= 1,
                        w >= 1,
                ;
            }
            // 2r + bit >= d, written so that nothing overflows.
            let gap: u128 = d - r;
            let carried: u128 = r + bit;
            if carried >= gap {
                r = carried - gap;
                q = q * 2 + 1;
            } else {
                r = r + carried;
                q = q * 2;
            }
            rest = rest_next;
            i = i + 1;
            proof {
                low = low_next;
            }
        }
        proof {
            lemma_pow2_128();
            assert(n == q * d + r) by (nonlinear_arith)
                requires
                    n == (q * d + r) * pow2(0) + low,
                    pow2(0) == 1,
                    low == 0,
            ;
            lemma_fundamental_div_mod_converse(n, d as int, q as int, r as int);
        }
        q
    }
}

/// The value of `a * b / d`, rounded down, where the division is defined and
/// the quotient fits in 128 bits.
pub open spec fn mul_div_spec(a: u128, b: u128, d: u128) -> Option<u128> {
    if d > 0 && (a * b) / (d as int) <= u128::MAX {
        Some(((a * b) / (d as int)) as u128)
    } else {
        None
    }
}

/// Computes `a * b / d`, rounded down, without truncating the product.
///
/// Returns `None` for a zero divisor and for a quotient of 2^128 or more.
pub fn mul_div(a: u128, b: u128, d: u128) -> (r: Option<u128>)
    ensures
        r == mul_div_spec(a, b, d),
{
    let product = U256::mul_u128(a, b);
    product.checked_div_u128(d)
}

/// Computes `a * numerator / denominator`, rounded down, for a ratio of at
/// most one. The result is at most `a`, so it always fits.
pub fn mul_ratio(a: u128, numerator: u128, denominator: u128) -> (r: u128)
    requires
        0 < denominator,
        numerator <= denominator,
    ensures
        r == (a * numerator) / (denominator as int),
        r <= a,
{
    let product = U256::mul_u128(a, numerator);
    proof {
        let bound = denominator * a;
        assert(a * numerator <= bound) by (nonlinear_arith)
            requires
                0 <= a,
                0 <= numerator <= denominator,
                bound == denominator * a,
        ;
        // The product is below 2^128 * denominator, so its upper word is
        // below the denominator.
        assert(bound < denominator * word()) by (nonlinear_arith)
            requires
                a < word(),
                0 < denominator,
                bound == denominator * a,
        ;
        assert(product.hi < denominator) by (nonlinear_arith)
            requires
                product.hi * word() + product.lo < denominator * word(),
                0 <= product.lo,
                word() > 0,
        ;
        // The quotient is at most `a`.
        vstd::arithmetic::div_mod::lemma_div_is_ordered(a * numerator, bound, denominator as int);
        vstd::arithmetic::div_mod::lemma_div_multiples_vanish(a as int, denominator as int);
    }
    product.div_u128(denominator)
}

} // verus!
