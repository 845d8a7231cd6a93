//! Executable arithmetic on the magnitudes of raw fixed-point words.
use crate::arith::{
    div_floor, is_root, lemma_mul_floor_nonneg, lemma_root_unique, lemma_split_product, mul_floor,
    root_raw, MAX_RAW, MAX_WHOLE, ROOT_LIMIT, SCALE,
};
use vstd::arithmetic::div_mod::*;
use vstd::arithmetic::mul::*;
use vstd::prelude::*;

verus! {

/// 64 to the power `i`: the weight of the `i`-th digit in a division by digits of six bits.
spec fn digit_weight(i: nat) -> int
    decreases i,
{
    if i == 0 {
        1
    } else {
        64 * digit_weight((i - 1) as nat)
    }
}

/// Eight digits of six bits make up the binary places of a word.
proof fn lemma_eight_digits()
    ensures
        digit_weight(8) == SCALE,
{
    reveal_with_fuel(digit_weight, 9);
}

/// The weight of a digit grows with its index.
proof fn lemma_digit_weight_grows(i: nat, j: nat)
    requires
        i <= j,
    ensures
        1 <= digit_weight(i) <= digit_weight(j),
    decreases j,
{
    if j == 0 {
    } else if i == j {
        lemma_digit_weight_grows(0, (j - 1) as nat);
    } else {
        lemma_digit_weight_grows(i, (j - 1) as nat);
    }
}

/// Splits a word at the binary point.
fn split(a: u128) -> (r: (u128, u128))
    requires
        a <= MAX_RAW,
    ensures
        r.0 == a / (SCALE as u128),
        r.1 == a % (SCALE as u128),
        a == r.0 * SCALE + r.1,
        r.0 <= MAX_WHOLE,
        r.1 < SCALE,
{
    let hi = a >> 48;
    let lo = a & 0xffff_ffff_ffff;
    proof {
        assert(a >> 48 == a / 0x1_0000_0000_0000) by (bit_vector);
        assert(a & 0xffff_ffff_ffff == a % 0x1_0000_0000_0000) by (bit_vector);
        lemma_fundamental_div_mod(a as int, SCALE as int);
    }
    (hi, lo)
}

/// The product of two magnitudes, rounded down; `None` when it leaves the range.
pub(crate) fn mul_mag(a: u128, b: u128) -> (r: Option<u128>)
    requires
        a <= MAX_RAW,
        b <= MAX_RAW,
    ensures
        r is Some <==> mul_floor(a as int, b as int) <= MAX_RAW,
        r is Some ==> r->0 == mul_floor(a as int, b as int),
{
    if a < 0x1_0000_0000_0000_0000 && b < 0x1_0000_0000_0000_0000 {
        proof {
            lemma_mul_upper_bound(
                a as int,
                0xffff_ffff_ffff_ffff,
                b as int,
                0xffff_ffff_ffff_ffff,
            );
        }
        let p = a * b;
        let q = p >> 48;
        proof {
            assert(p >> 48 == p / 0x1_0000_0000_0000) by (bit_vector);
        }
        return Some(q);
    }
    let (ah, al) = split(a);
    let (bh, bl) = split(b);
    proof {
        lemma_split_product(ah as int, al as int, bh as int, bl as int);
        lemma_mul_nonnegative(ah as int, bh as int);
        lemma_mul_nonnegative(ah as int, bl as int);
        lemma_mul_nonnegative(al as int, bh as int);
        lemma_mul_nonnegative(al as int, bl as int);
        lemma_div_pos_is_pos(al * bl, SCALE as int);
        lemma_mul_upper_bound(ah as int, MAX_WHOLE as int, bl as int, SCALE as int);
        lemma_mul_upper_bound(al as int, SCALE as int, bh as int, MAX_WHOLE as int);
        lemma_mul_upper_bound(al as int, SCALE as int, bl as int, SCALE as int);
    }
    let whole = match ah.checked_mul(bh) {
        Some(w) => w,
        None => {
            proof {
                lemma_mul_increases(SCALE as int, ah * bh);
            }
            return None;
        },
    };
    if whole > MAX_WHOLE {
        proof {
            lemma_mul_strict_inequality(MAX_WHOLE as int, whole as int, SCALE as int);
        }
        return None;
    }
    proof {
        lemma_mul_inequality(whole as int, MAX_WHOLE as int, SCALE as int);
    }
    let tail = al * bl;
    let low = tail >> 48;
    proof {
        assert(tail >> 48 == tail / 0x1_0000_0000_0000) by (bit_vector);
    }
    let sum = whole * (SCALE as u128) + ah * bl + al * bh + low;
    if sum > MAX_RAW as u128 {
        None
    } else {
        Some(sum)
    }
}

/// The product of two non-negative words, rounded down; `None` when it leaves the range.
pub(crate) fn mul_checked(a: i128, b: i128) -> (r: Option<i128>)
    requires
        0 <= a <= MAX_RAW,
        0 <= b <= MAX_RAW,
    ensures
        r is Some <==> mul_floor(a as int, b as int) <= MAX_RAW,
        r is Some ==> r->0 == mul_floor(a as int, b as int),
        r is Some ==> 0 <= r->0 <= MAX_RAW,
{
    proof {
        lemma_mul_floor_nonneg(a as int, b as int);
    }
    match mul_mag(a as u128, b as u128) {
        Some(v) => Some(v as i128),
        None => None,
    }
}

/// The product of two non-negative words that is known to stay within the range.
pub(crate) fn mul_fit(a: i128, b: i128) -> (r: i128)
    requires
        0 <= a <= MAX_RAW,
        0 <= b <= MAX_RAW,
        mul_floor(a as int, b as int) <= MAX_RAW,
    ensures
        r == mul_floor(a as int, b as int),
        0 <= r <= MAX_RAW,
{
    match mul_checked(a, b) {
        Some(v) => v,
        None => 0,
    }
}

/// The quotient of two magnitudes, rounded down; `None` when it leaves the range.
pub(crate) fn div_mag(a: u128, b: u128) -> (r: Option<u128>)
    requires
        a <= MAX_RAW,
        0 < b <= MAX_RAW,
    ensures
        r is Some <==> div_floor(a as int, b as int) <= MAX_RAW,
        r is Some ==> r->0 == div_floor(a as int, b as int),
{
    let mut q: u128 = a / b;
    let mut rem: u128 = a % b;
    let mut i: usize = 0;
    proof {
        lemma_fundamental_div_mod(a as int, b as int);
        lemma_mul_is_commutative(q as int, b as int);
        lemma_eight_digits();
    }
    while i < 8
        invariant
            i <= 8,
            0 < b <= MAX_RAW,
            a <= MAX_RAW,
            rem < b,
            q * b + rem == a * digit_weight(i as nat),
            digit_weight(8) == SCALE,
        decreases 8 - i,
    {
        if q > MAX_RAW as u128 {
            proof {
                lemma_quotient_from_parts(
                    a as int * digit_weight(i as nat),
                    b as int,
                    q as int,
                    rem as int,
                );
                lemma_digit_weight_grows(i as nat, 8);
                lemma_mul_inequality(digit_weight(i as nat), SCALE as int, a as int);
                lemma_mul_is_commutative(a as int, digit_weight(i as nat));
                lemma_mul_is_commutative(a as int, SCALE as int);
                lemma_div_is_ordered(a * digit_weight(i as nat), a * SCALE, b as int);
            }
            return None;
        }
        let wide = rem * 64;
        let digit = wide / b;
        let next_rem = wide % b;
        proof {
            lemma_fundamental_div_mod(wide as int, b as int);
            lemma_mul_is_commutative(digit as int, b as int);
            assert(digit < 64) by (nonlinear_arith)
                requires
                    wide == digit * b + next_rem,
                    wide < 64 * b,
                    0 < b,
                    0 <= next_rem,
            ;
            assert((q * 64 + digit) * b + next_rem == a * (64 * digit_weight(i as nat)))
                by (nonlinear_arith)
                requires
                    q * b + rem == a * digit_weight(i as nat),
                    rem * 64 == digit * b + next_rem,
            ;
        }
        q = q * 64 + digit;
        rem = next_rem;
        i = i + 1;
    }
    proof {
        lemma_quotient_from_parts(a as int * SCALE, b as int, q as int, rem as int);
    }
    if q > MAX_RAW as u128 {
        None
    } else {
        Some(q)
    }
}

/// A quotient and a remainder that make up the dividend are the quotient.
proof fn lemma_quotient_from_parts(n: int, d: int, q: int, r: int)
    requires
        0 < d,
        0 <= r < d,
        q * d + r == n,
    ensures
        n / d == q,
{
    lemma_mul_is_commutative(q, d);
    lemma_fundamental_div_mod_converse(n, d, q, r);
}

/// The square root of a magnitude, rounded down.
pub(crate) fn root_mag(x: u128) -> (r: u128)
    requires
        x < ROOT_LIMIT,
    ensures
        is_root(x as int, r as int),
        r == root_raw(x as int),
        r < 0x1_0000_0000_0000_0000,
{
    proof {
        lemma_mul_upper_bound(x as int, ROOT_LIMIT as int, SCALE as int, SCALE as int);
    }
    let n: u128 = x * (SCALE as u128);
    let mut lo: u128 = 0;
    let mut hi: u128 = 0x1_0000_0000_0000_0000;
    while hi - lo > 1
        invariant
            lo < hi <= 0x1_0000_0000_0000_0000,
            lo * lo <= n,
            n < hi * hi,
        decreases hi - lo,
    {
        let mid = lo + (hi - lo) / 2;
        proof {
            lemma_mul_upper_bound(
                mid as int,
                0xffff_ffff_ffff_ffff,
                mid as int,
                0xffff_ffff_ffff_ffff,
            );
        }
        if mid * mid <= n {
            lo = mid;
        } else {
            hi = mid;
        }
    }
    proof {
        lemma_root_unique(x as int, lo as int, root_raw(x as int));
    }
    lo
}

} // verus!
