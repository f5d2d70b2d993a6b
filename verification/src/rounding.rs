//! Rounding the way binary floating point does it, carried out on whole numbers.
//!
//! Converting, multiplying, dividing and subtracting give the exact result rounded to as many
//! significant bits as the format has, halfway cases to even. Numbers below are whole multiples of
//! a power of two that is fine enough for the last of these bits.

use vstd::arithmetic::div_mod::{
    lemma_div_is_ordered, lemma_fundamental_div_mod, lemma_fundamental_div_mod_converse,
};
use vstd::arithmetic::power2::{
    lemma2_to64, lemma_pow2_adds, lemma_pow2_pos, lemma_pow2_strictly_increases,
    lemma_pow2_unfold, pow2,
};
use vstd::prelude::*;

verus! {

/// Single precision has 24 significant bits: magnitudes below this are kept as they are.
pub const SINGLE: u128 = 0x100_0000;

/// Double precision has 53 significant bits: magnitudes below this are kept as they are.
pub const DOUBLE: u128 = 0x20_0000_0000_0000;

/// The whole number nearest to a quotient, of two equally near ones the even one.
pub open spec fn nearest(num: int, den: int) -> int {
    let q = num / den;
    let r = num % den;
    if 2 * r < den || (2 * r == den && q % 2 == 0) {
        q
    } else {
        q + 1
    }
}

/// A quotient rounded to the significant bits of a format: to a whole number where it is below
/// `limit`, to an even one where it is below twice that, and so on.
pub open spec fn rounded(num: int, den: int, limit: int) -> int
    decreases num - den,
{
    if den <= 0 || limit < 2 || num < den * limit {
        nearest(num, den)
    } else {
        proof {
            assert(den * limit >= den * 2) by (nonlinear_arith)
                requires
                    den > 0,
                    limit >= 2,
            ;
        }
        2 * rounded(num, 2 * den, limit)
    }
}

/// A whole number rounded to the significant bits of a format.
pub open spec fn kept(n: int, limit: int) -> int {
    rounded(n, 1, limit)
}

/// The whole part of a quotient in double precision, for divisors below 2^20. The rounding is
/// followed in steps of 2^-20: a quotient that is not whole lies farther than that below the next
/// whole number, so finer steps never change the whole part.
pub open spec fn whole_quotient(num: int, den: int) -> int {
    rounded(num * 0x10_0000, den, DOUBLE as int) / 0x10_0000
}

proof fn nearest_is_near(num: int, den: int)
    requires
        num >= 0,
        den > 0,
    ensures
        0 <= num / den <= nearest(num, den) <= num / den + 1,
        (num / den) * den <= num < (num / den) * den + den,
{
    lemma_fundamental_div_mod(num, den);
    assert((num / den) * den == den * (num / den)) by (nonlinear_arith);
    vstd::arithmetic::div_mod::lemma_div_pos_is_pos(num, den);
}

/// Rounding never more than doubles a quotient of one or more, and never more than halves it.
pub proof fn rounding_stays_close(num: int, den: int, limit: int)
    requires
        num >= 0,
        den > 0,
        limit >= 2,
    ensures
        0 <= rounded(num, den, limit),
        rounded(num, den, limit) * den <= num + den || rounded(num, den, limit) * den <= 2 * num,
        num >= den ==> 2 * (rounded(num, den, limit) * den) >= num,
    decreases num - den,
{
    let r = rounded(num, den, limit);
    if num < den * limit {
        nearest_is_near(num, den);
        let q = num / den;
        assert(q * den <= r * den <= q * den + den) by (nonlinear_arith)
            requires
                q <= r <= q + 1,
                den > 0,
        ;
        if num >= den {
            assert(q >= 1) by (nonlinear_arith)
                requires
                    num >= den,
                    num < q * den + den,
                    den > 0,
            ;
            assert(q * den >= den) by (nonlinear_arith)
                requires
                    q >= 1,
                    den > 0,
            ;
        }
    } else {
        assert(den * limit >= den * 2) by (nonlinear_arith)
            requires
                den > 0,
                limit >= 2,
        ;
        rounding_stays_close(num, 2 * den, limit);
        let h = rounded(num, 2 * den, limit);
        assert(r * den == h * (2 * den)) by (nonlinear_arith)
            requires
                r == 2 * h,
        ;
    }
}

proof fn nearest_is_monotonic(a: int, b: int, den: int)
    requires
        0 <= a <= b,
        den > 0,
    ensures
        nearest(a, den) <= nearest(b, den),
{
    nearest_is_near(a, den);
    nearest_is_near(b, den);
    lemma_div_is_ordered(a, b, den);
    lemma_fundamental_div_mod(a, den);
    lemma_fundamental_div_mod(b, den);
}

proof fn rounding_reaches_the_limit(num: int, den: int, limit: int)
    requires
        den > 0,
        limit >= 2,
        limit % 2 == 0,
        num >= den * limit,
    ensures
        rounded(num, den, limit) >= limit,
    decreases num - den,
{
    let half = limit / 2;
    assert(den * limit >= den * 2) by (nonlinear_arith)
        requires
            den > 0,
            limit >= 2,
    ;
    assert(half * (2 * den) == den * limit) by (nonlinear_arith)
        requires
            limit == 2 * half,
    ;
    if num < 2 * den * limit {
        nearest_is_near(num, 2 * den);
        lemma_div_is_ordered(half * (2 * den), num, 2 * den);
        lemma_fundamental_div_mod_converse(half * (2 * den), 2 * den, half, 0);
        assert(rounded(num, 2 * den, limit) == nearest(num, 2 * den));
    } else {
        rounding_reaches_the_limit(num, 2 * den, limit);
    }
}

/// Rounding keeps the order of quotients.
pub proof fn rounding_is_monotonic(a: int, b: int, den: int, limit: int)
    requires
        0 <= a <= b,
        den > 0,
        limit >= 2,
        limit % 2 == 0,
    ensures
        rounded(a, den, limit) <= rounded(b, den, limit),
    decreases b - den,
{
    if b < den * limit {
        nearest_is_monotonic(a, b, den);
    } else {
        assert(den * limit >= den * 2) by (nonlinear_arith)
            requires
                den > 0,
                limit >= 2,
        ;
        if a < den * limit {
            rounding_reaches_the_limit(b, den, limit);
            nearest_is_near(a, den);
            assert(a / den < limit) by (nonlinear_arith)
                requires
                    (a / den) * den <= a < den * limit,
                    den > 0,
            ;
        } else {
            rounding_is_monotonic(a, b, 2 * den, limit);
        }
    }
}

/// The nearest whole number is at most half of one away, and where it is half of one away, even.
pub proof fn nearest_is_within_a_half(num: int, den: int)
    requires
        num >= 0,
        den > 0,
    ensures
        -den <= 2 * (nearest(num, den) * den - num) <= den,
        2 * (nearest(num, den) * den - num) == den ==> nearest(num, den) % 2 == 0,
        2 * (nearest(num, den) * den - num) == -den ==> nearest(num, den) % 2 == 0,
{
    lemma_fundamental_div_mod(num, den);
    let q = num / den;
    let r = num % den;
    let v = nearest(num, den);
    assert(v * den - num == (if v == q {
        -r
    } else {
        den - r
    })) by (nonlinear_arith)
        requires
            num == den * q + r,
            v == q || v == q + 1,
    ;
}

/// What rounding comes to: the nearest multiple of a power of two, and no finer one than the
/// significant bits can hold.
pub proof fn rounding_is_to_a_power_of_two(num: int, den: int, limit: int) -> (k: nat)
    requires
        num >= 0,
        den > 0,
        limit >= 2,
    ensures
        rounded(num, den, limit) == nearest(num, den * pow2(k)) * pow2(k),
        den * pow2(k) > 0,
        num < den * pow2(k) * limit,
        k > 0 ==> 2 * num >= den * pow2(k) * limit,
    decreases num - den,
{
    lemma2_to64();
    if num < den * limit {
        assert(den * pow2(0) == den);
        0
    } else {
        assert(den * limit >= den * 2) by (nonlinear_arith)
            requires
                den > 0,
                limit >= 2,
        ;
        let j = rounding_is_to_a_power_of_two(num, 2 * den, limit);
        let k = (j + 1) as nat;
        lemma_pow2_unfold(k);
        lemma_pow2_pos(k);
        let p = pow2(j) as int;
        assert(den * pow2(k) == 2 * den * p) by (nonlinear_arith)
            requires
                pow2(k) == 2 * p,
        ;
        let v = nearest(num, 2 * den * p);
        assert(2 * (v * p) == v * pow2(k)) by (nonlinear_arith)
            requires
                pow2(k) == 2 * p,
        ;
        if j == 0 {
            assert(2 * den * p * limit == 2 * (den * limit)) by (nonlinear_arith)
                requires
                    p == 1,
            ;
        }
        k
    }
}

/// Numbers that the significant bits can hold are kept as they are, however large.
pub proof fn holdable_numbers_are_kept(m: int, j: nat, limit: int)
    requires
        0 <= m < limit,
        limit >= 2,
    ensures
        kept(m * pow2(j), limit) == m * pow2(j),
{
    let n = m * pow2(j);
    lemma_pow2_pos(j);
    assert(n >= 0) by (nonlinear_arith)
        requires
            n == m * pow2(j),
            m >= 0,
            pow2(j) > 0,
    ;
    let k = rounding_is_to_a_power_of_two(n, 1, limit);
    lemma_pow2_pos(k);
    if k > j {
        let d = (k - j) as nat;
        lemma_pow2_adds(j, d);
        lemma_pow2_unfold(d);
        lemma_pow2_pos((d - 1) as nat);
        assert(2 * n < pow2(k) * limit) by (nonlinear_arith)
            requires
                n == m * pow2(j),
                0 <= m < limit,
                pow2(k) == pow2(j) * pow2(d),
                pow2(d) >= 2,
                pow2(j) > 0,
        ;
        assert(false);
    }
    let d = (j - k) as nat;
    lemma_pow2_adds(k, d);
    let q = m * pow2(d);
    assert(n == q * pow2(k)) by (nonlinear_arith)
        requires
            n == m * pow2(j),
            pow2(j) == pow2(k) * pow2(d),
            q == m * pow2(d),
    ;
    lemma_fundamental_div_mod_converse(n, pow2(k) as int, q, 0);
}

/// Whole numbers that fit the significant bits are kept as they are.
pub proof fn small_numbers_are_kept(n: int, limit: int)
    requires
        0 <= n < limit,
    ensures
        kept(n, limit) == n,
{
}

/// The whole number nearest to a quotient, of two equally near ones the even one.
pub fn to_nearest(num: u128, den: u128) -> (r: u128)
    requires
        den > 0,
        num < 0x4000_0000_0000_0000_0000_0000_0000_0000,
        den < 0x4000_0000_0000_0000_0000_0000_0000_0000,
    ensures
        r == nearest(num as int, den as int),
{
    proof {
        nearest_is_near(num as int, den as int);
        assert(num as int / den as int <= num) by (nonlinear_arith)
            requires
                (num as int / den as int) * den <= num,
                num as int / den as int >= 0,
                den >= 1,
        ;
    }
    let q: u128 = num / den;
    let r: u128 = num % den;
    if 2 * r < den || (2 * r == den && q % 2 == 0) {
        q
    } else {
        q + 1
    }
}

/// A quotient rounded to the significant bits of a format.
pub fn round(num: u128, den: u128, limit: u128) -> (r: u128)
    requires
        den > 0,
        limit >= 2,
        num < 0x4000_0000_0000_0000_0000_0000_0000_0000,
        den < 0x4000_0000_0000_0000_0000_0000_0000_0000,
    ensures
        r == rounded(num as int, den as int, limit as int),
        r <= 2 * num + 1,
    decreases num - den,
{
    proof {
        rounding_stays_close(num as int, den as int, limit as int);
        let v = rounded(num as int, den as int, limit as int);
        assert(v <= 2 * num + 1) by (nonlinear_arith)
            requires
                v >= 0,
                v * den <= num + den || v * den <= 2 * num,
                den >= 1,
                num >= 0,
        ;
        lemma_fundamental_div_mod(num as int, den as int);
        let q = num as int / den as int;
        assert(q < limit <==> num < den * limit) by (nonlinear_arith)
            requires
                den * q <= num < den * q + den,
                den > 0,
        ;
    }
    if num / den < limit {
        to_nearest(num, den)
    } else {
        proof {
            assert(den * limit >= den * 2) by (nonlinear_arith)
                requires
                    den > 0,
                    limit >= 2,
            ;
            rounding_stays_close(num as int, 2 * den, limit as int);
        }
        2 * round(num, 2 * den, limit)
    }
}

/// A whole number rounded to the significant bits of a format.
pub fn keep(n: u128, limit: u128) -> (r: u128)
    requires
        limit >= 2,
        n < 0x4000_0000_0000_0000_0000_0000_0000_0000,
    ensures
        r == kept(n as int, limit as int),
        r <= 2 * n + 1,
{
    round(n, 1, limit)
}

/// The whole part of a quotient in double precision.
pub fn whole_quotient_of(num: u128, den: u128) -> (r: u128)
    requires
        0 < den < 0x10_0000,
        num < 0x10_0000_0000_0000_0000_0000_0000,
    ensures
        r == whole_quotient(num as int, den as int),
{
    round(num * 0x10_0000, den, DOUBLE) / 0x10_0000
}

/// A number as far as a machine counts.
pub open spec fn counted(n: int) -> int {
    if n <= usize::MAX {
        n
    } else {
        usize::MAX as int
    }
}

/// A number as far as a machine counts.
pub fn count(n: u128) -> (r: usize)
    ensures
        r == counted(n as int),
{
    if n <= usize::MAX as u128 {
        n as usize
    } else {
        usize::MAX
    }
}

/// Rounding moves a quotient by at most one part in the limit, or by half a unit.
pub proof fn rounding_is_precise(num: int, den: int, limit: int)
    requires
        num >= 0,
        den > 0,
        limit >= 2,
    ensures
        ({
            let off = rounded(num, den, limit) * den - num;
            (-num <= off * limit <= num) || (-den <= 2 * off <= den)
        }),
{
    let k = rounding_is_to_a_power_of_two(num, den, limit);
    lemma_pow2_pos(k);
    lemma2_to64();
    let p = pow2(k) as int;
    nearest_is_within_a_half(num, den * p);
    let v = nearest(num, den * p);
    let off = v * p * den - num;
    assert(v * (den * p) == v * p * den) by (nonlinear_arith);
    if k > 0 {
        assert(-num <= off * limit <= num) by (nonlinear_arith)
            requires
                -(den * p) <= 2 * off <= den * p,
                2 * num >= den * p * limit,
                limit >= 2,
        ;
    } else {
        assert(den * pow2(0) == den);
    }
}

/// Below 2^53 the whole part of a quotient is what dividing whole numbers gives.
pub proof fn whole_quotients_are_exact(n: int, den: int)
    requires
        0 <= n < 0x20_0000_0000_0000,
        0 < den < 0x10_0000,
    ensures
        whole_quotient(n, den) == n / den,
{
    let d = DOUBLE as int;
    let num = n * 0x10_0000;
    let k = rounding_is_to_a_power_of_two(num, den, d);
    lemma_pow2_pos(k);
    lemma2_to64();
    let p = pow2(k) as int;
    nearest_is_within_a_half(num, den * p);
    let m = nearest(num, den * p);
    let v = m * p;
    assert(m * (den * p) == v * den) by (nonlinear_arith)
        requires
            v == m * p,
    ;
    lemma_fundamental_div_mod(n, den);
    let q = n / den;
    let r = n % den;
    assert(num == den * (q * 0x10_0000) + r * 0x10_0000) by (nonlinear_arith)
        requires
            num == n * 0x10_0000,
            n == den * q + r,
    ;
    assert(den * p < 0x20_0000) by (nonlinear_arith)
        requires
            k == 0 && p == 1 && den < 0x10_0000 || 2 * (n * 0x10_0000) >= den * p
                * 0x20_0000_0000_0000,
            n < 0x20_0000_0000_0000,
    ;
    assert(v < (q + 1) * 0x10_0000) by (nonlinear_arith)
        requires
            2 * (v * den) <= 2 * num + den * p,
            den * p < 0x20_0000,
            num == den * (q * 0x10_0000) + r * 0x10_0000,
            r <= den - 1,
            den > 0,
    ;
    if r == 0 {
        assert(p < 0x20_0000) by (nonlinear_arith)
            requires
                den * p < 0x20_0000,
                den >= 1,
                p > 0,
        ;
        if k >= 21 {
            if k > 21 {
                lemma_pow2_strictly_increases(21, k);
            }
            assert(false);
        }
        let j = (20 - k) as nat;
        lemma_pow2_adds(k, j);
        assert(pow2(20) == 0x10_0000);
        let w = q * pow2(j);
        assert(num == w * (den * p) && w * p == q * 0x10_0000) by (nonlinear_arith)
            requires
                num == den * (q * 0x10_0000),
                0x10_0000 == p * pow2(j),
                w == q * pow2(j),
        ;
        lemma_fundamental_div_mod_converse(num, den * p, w, 0);
    } else {
        assert(v >= q * 0x10_0000) by (nonlinear_arith)
            requires
                2 * (v * den) >= 2 * num - den * p,
                den * p < 0x20_0000,
                num == den * (q * 0x10_0000) + r * 0x10_0000,
                r >= 1,
                den > 0,
        ;
    }
    lemma_fundamental_div_mod_converse(v, 0x10_0000, q, v - q * 0x10_0000);
}

/// The whole part of a quotient keeps the order.
pub proof fn whole_quotients_are_monotonic(a: int, b: int, den: int)
    requires
        0 <= a <= b,
        den > 0,
    ensures
        0 <= whole_quotient(a, den) <= whole_quotient(b, den),
{
    rounding_stays_close(a * 0x10_0000, den, DOUBLE as int);
    rounding_is_monotonic(a * 0x10_0000, b * 0x10_0000, den, DOUBLE as int);
}

}
