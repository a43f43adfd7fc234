//! Single-precision bit patterns of the numbers that go to the renderer.
//!
//! The interface computes in integers. The renderer reads single-precision
//! numbers, so each integer, and each colour channel as a fraction of 255, is
//! turned into the bit pattern of the nearest single-precision number: a sign
//! bit, eight bits of exponent with a bias of 127, and the 23 bits of the
//! significand behind the leading one. A tie between two neighbours goes to
//! the one with the even significand.

use vstd::prelude::*;

verus! {

/// Two to the twenty-third: the leading one of a significand.
pub const HIDDEN_BIT: u32 = 0x80_0000;

/// The sign bit.
pub const SIGN_BIT: u32 = 0x8000_0000;

/// The bias of the exponent.
pub const EXPONENT_BIAS: u32 = 127;

/// Two to the power of `k`.
pub open spec fn two_to(k: nat) -> nat
    decreases k,
{
    if k == 0 {
        1
    } else {
        2 * two_to((k - 1) as nat)
    }
}

/// The positive ratio `num / den` divided by two to the `e`, as a pair of
/// numerator and denominator.
pub open spec fn scaled(num: int, den: int, e: int) -> (int, int) {
    if e >= 0 {
        (num, den * two_to(e as nat))
    } else {
        (num * two_to((-e) as nat), den)
    }
}

/// Whether `e` is the exponent of the positive ratio `num / den`: divided by
/// two to the `e`, the ratio is at least one and less than two.
pub open spec fn is_exponent_of(num: int, den: int, e: int) -> bool {
    let (top, bottom) = scaled(num, den, e);
    bottom <= top < 2 * bottom
}

/// The exponent of the positive ratio `num / den`.
pub open spec fn exponent_of(num: int, den: int) -> int {
    choose|e: int| is_exponent_of(num, den, e)
}

/// The quotient `n / d` rounded to the nearest integer, a tie going to the
/// even neighbour.
pub open spec fn round_half_even(n: int, d: int) -> int {
    let q = n / d;
    let r = n % d;
    if 2 * r > d || (2 * r == d && q % 2 == 1) {
        q + 1
    } else {
        q
    }
}

/// The significand of the positive ratio `num / den` whose exponent is `e`:
/// the ratio, divided by two to the `e` and counted in units of two to the
/// minus twenty-third, rounded.
pub open spec fn significand(num: int, den: int, e: int) -> int {
    let (top, bottom) = scaled(num, den, e);
    round_half_even(top * HIDDEN_BIT, bottom)
}

/// The bit pattern with a clear sign bit, the exponent `e` and the
/// significand `m`. A significand that rounding took up to two to the
/// twenty-fourth carries into the exponent.
pub open spec fn pack(e: int, m: int) -> int {
    (e + EXPONENT_BIAS) * HIDDEN_BIT + (m - HIDDEN_BIT)
}

/// The pattern of the single-precision number nearest to `num / den`, for
/// `num` from zero and `den` from one, both below two to the thirty-second.
pub open spec fn bits_of_ratio(num: int, den: int) -> u32 {
    if num == 0 {
        0
    } else {
        let e = exponent_of(num, den);
        pack(e, significand(num, den, e)) as u32
    }
}

/// The pattern of the single-precision number nearest to an integer.
pub open spec fn bits_of_int(value: int) -> u32 {
    if value < 0 {
        (SIGN_BIT + bits_of_ratio(-value, 1)) as u32
    } else {
        bits_of_ratio(value, 1)
    }
}

/// The pattern of the single-precision number nearest to a colour channel,
/// `255` standing for one.
pub open spec fn bits_of_channel(level: u8) -> u32 {
    bits_of_ratio(level as int, 255)
}

/// Powers of two are positive and grow with the exponent.
pub proof fn lemma_two_to_grows(a: nat, b: nat)
    requires
        a <= b,
    ensures
        1 <= two_to(a) <= two_to(b),
        a < b ==> 2 * two_to(a) <= two_to(b),
    decreases b,
{
    if a < b {
        lemma_two_to_grows(a, (b - 1) as nat);
    } else if a > 0 {
        lemma_two_to_grows((a - 1) as nat, (a - 1) as nat);
    }
}

/// The powers of two that the patterns are made of.
pub proof fn lemma_two_to_values()
    ensures
        two_to(8) == 0x100,
        two_to(23) == 0x80_0000,
        two_to(24) == 0x100_0000,
        two_to(31) == 0x8000_0000,
        two_to(32) == 0x1_0000_0000,
{
    reveal_with_fuel(two_to, 33);
}

/// A ratio has one exponent only.
pub proof fn lemma_exponent_unique(num: int, den: int, e: int, f: int)
    requires
        num > 0,
        den > 0,
        is_exponent_of(num, den, e),
        is_exponent_of(num, den, f),
    ensures
        e == f,
{
    if e < f {
        lemma_exponent_order(num, den, e, f);
    } else if f < e {
        lemma_exponent_order(num, den, f, e);
    }
}

/// A ratio below two to the `low + 1` is below two to the `high` for every
/// `high` above `low`, so it cannot have both for exponent.
proof fn lemma_exponent_order(num: int, den: int, low: int, high: int)
    requires
        num > 0,
        den > 0,
        low < high,
        is_exponent_of(num, den, low),
    ensures
        !is_exponent_of(num, den, high),
{
    if low >= 0 {
        lemma_two_to_grows(low as nat, high as nat);
        let a = two_to(low as nat) as int;
        let b = two_to(high as nat) as int;
        assert(den * (2 * a) <= den * b) by (nonlinear_arith)
            requires
                2 * a <= b,
                den > 0,
        ;
        assert(den * (2 * a) == 2 * (den * a)) by (nonlinear_arith);
    } else if high >= 0 {
        lemma_two_to_grows(0, (-low) as nat);
        lemma_two_to_grows(0, high as nat);
        let a = two_to((-low) as nat) as int;
        let b = two_to(high as nat) as int;
        assert(num * a >= num * 2) by (nonlinear_arith)
            requires
                a >= 2,
                num > 0,
        ;
        assert(den * b >= den) by (nonlinear_arith)
            requires
                b >= 1,
                den > 0,
        ;
    } else {
        lemma_two_to_grows((-high) as nat, (-low) as nat);
        let a = two_to((-low) as nat) as int;
        let b = two_to((-high) as nat) as int;
        assert(num * a >= num * (2 * b)) by (nonlinear_arith)
            requires
                a >= 2 * b,
                num > 0,
        ;
        assert(num * (2 * b) == 2 * (num * b)) by (nonlinear_arith);
    }
}

/// An exponent that fits is the exponent.
pub proof fn lemma_exponent_of(num: int, den: int, e: int)
    requires
        num > 0,
        den > 0,
        is_exponent_of(num, den, e),
    ensures
        exponent_of(num, den) == e,
{
    lemma_exponent_unique(num, den, e, exponent_of(num, den));
}

/// Rounding moves a quotient by half a unit at most.
pub proof fn lemma_round_half_even(n: int, d: int)
    requires
        n >= 0,
        d > 0,
    ensures
        ({
            let m = round_half_even(n, d);
            &&& -d <= 2 * (m * d - n) <= d
            &&& n % d == 0 ==> m * d == n
        }),
{
    let q = n / d;
    let r = n % d;
    vstd::arithmetic::div_mod::lemma_fundamental_div_mod(n, d);
    assert(n == q * d + r) by (nonlinear_arith)
        requires
            n == d * q + r,
    ;
    assert((q + 1) * d == q * d + d) by (nonlinear_arith);
}

/// The significand of a ratio lies between two to the twenty-third and two
/// to the twenty-fourth, and differs from the scaled ratio by half a unit at
/// most.
pub proof fn lemma_significand(num: int, den: int, e: int)
    requires
        num > 0,
        den > 0,
        is_exponent_of(num, den, e),
    ensures
        ({
            let (top, bottom) = scaled(num, den, e);
            let m = significand(num, den, e);
            &&& bottom > 0
            &&& HIDDEN_BIT <= m <= 2 * HIDDEN_BIT
            &&& -bottom <= 2 * (m * bottom - top * HIDDEN_BIT) <= bottom
        }),
{
    let (top, bottom) = scaled(num, den, e);
    if e >= 0 {
        lemma_two_to_grows(0, e as nat);
        assert(den * two_to(e as nat) > 0) by (nonlinear_arith)
            requires
                den > 0,
                two_to(e as nat) >= 1,
        ;
    }
    let n = top * HIDDEN_BIT;
    lemma_round_half_even(n, bottom);
    let q = n / bottom;
    vstd::arithmetic::div_mod::lemma_fundamental_div_mod(n, bottom);
    assert(HIDDEN_BIT <= q < 2 * HIDDEN_BIT) by (nonlinear_arith)
        requires
            n == bottom * q + n % bottom,
            0 <= n % bottom < bottom,
            bottom * HIDDEN_BIT <= n < 2 * bottom * HIDDEN_BIT,
            bottom > 0,
    ;
}

/// The pattern of a ratio of two numbers below two to the thirty-second
/// leaves the sign bit clear.
pub proof fn lemma_bits_below_sign(num: int, den: int)
    requires
        0 <= num < 0x1_0000_0000,
        0 < den < 0x1_0000_0000,
    ensures
        bits_of_ratio(num, den) < SIGN_BIT,
        num > 0 ==> bits_of_ratio(num, den) == pack(
            exponent_of(num, den),
            significand(num, den, exponent_of(num, den)),
        ) && -32 <= exponent_of(num, den) <= 31,
{
    if num > 0 {
        let e = lemma_exponent_exists(num, den);
        lemma_exponent_of(num, den, e);
        lemma_significand(num, den, e);
    }
}

/// Doubling: the next power of two, times a factor.
pub proof fn lemma_two_to_step(factor: int, k: nat)
    ensures
        factor * two_to(k + 1) == 2 * (factor * two_to(k)),
        factor * two_to(0) == factor,
        factor > 0 ==> factor * two_to(k) >= factor,
{
    lemma_two_to_grows(0, k);
    assert(two_to(k + 1) == 2 * two_to(k));
    assert(two_to(0) == 1);
    assert(factor * (2 * two_to(k)) == 2 * (factor * two_to(k))) by (nonlinear_arith);
    assert(factor * 1 == factor);
    assert(factor > 0 ==> factor * two_to(k) >= factor) by (nonlinear_arith)
        requires
            two_to(k) >= 1,
    ;
}

/// A positive number times a power of two from the thirty-second on is at
/// least two to the thirty-second.
pub proof fn lemma_two_to_large(factor: int, k: nat)
    requires
        factor >= 1,
        k >= 32,
    ensures
        factor * two_to(k) >= 0x1_0000_0000,
{
    lemma_two_to_values();
    lemma_two_to_grows(32, k);
    assert(factor * two_to(k) >= two_to(k)) by (nonlinear_arith)
        requires
            factor >= 1,
            two_to(k) >= 1,
    ;
}

/// Every ratio of two positive numbers below two to the thirty-second has an
/// exponent, between minus thirty-two and thirty-one.
pub proof fn lemma_exponent_exists(num: int, den: int) -> (e: int)
    requires
        0 < num < 0x1_0000_0000,
        0 < den < 0x1_0000_0000,
    ensures
        is_exponent_of(num, den, e),
        -32 <= e <= 31,
{
    if num >= den {
        lemma_two_to_step(den, 0);
        let e = lemma_exponent_search_up(num, den, 0);
        if e >= 32 {
            lemma_two_to_large(den, e as nat);
        }
        e
    } else {
        lemma_two_to_step(num, 0);
        let e = lemma_exponent_search_down(num, den, 1);
        if e < -32 {
            lemma_two_to_step(num, ((-e) - 1) as nat);
            lemma_two_to_large(num, ((-e) - 1) as nat);
        }
        e
    }
}

proof fn lemma_exponent_search_up(num: int, den: int, from: int) -> (e: int)
    requires
        0 < den,
        0 <= from,
        den * two_to(from as nat) <= num,
    ensures
        is_exponent_of(num, den, e),
        from <= e,
        den * two_to(e as nat) <= num,
    decreases num - den * two_to(from as nat),
{
    lemma_two_to_step(den, from as nat);
    if num < 2 * (den * two_to(from as nat)) {
        assert(scaled(num, den, from) == (num, den * two_to(from as nat)));
        from
    } else {
        lemma_exponent_search_up(num, den, from + 1)
    }
}

proof fn lemma_exponent_search_down(num: int, den: int, from: int) -> (e: int)
    requires
        0 < num,
        1 <= from,
        num * two_to((from - 1) as nat) < den,
    ensures
        is_exponent_of(num, den, e),
        e <= -from,
        num * two_to(((-e) - 1) as nat) < den,
    decreases den - num * two_to((from - 1) as nat),
{
    lemma_two_to_step(num, (from - 1) as nat);
    if num * two_to(from as nat) >= den {
        assert(scaled(num, den, -from) == (num * two_to(from as nat), den));
        -from
    } else {
        lemma_exponent_search_down(num, den, from + 1)
    }
}

/// Powers of two multiply by adding exponents.
pub proof fn lemma_two_to_adds(a: nat, b: nat)
    ensures
        two_to(a + b) == two_to(a) * two_to(b),
    decreases b,
{
    if b == 0 {
        assert(two_to(a) * 1 == two_to(a));
    } else {
        lemma_two_to_adds(a, (b - 1) as nat);
        assert(two_to(a + b) == 2 * two_to((a + b - 1) as nat));
        assert(two_to(a) * (2 * two_to((b - 1) as nat)) == 2 * (two_to(a) * two_to((b - 1) as nat)))
            by (nonlinear_arith);
    }
}

/// Every integer from one to two to the twenty-fourth has a pattern that
/// stands for the integer itself: its significand, in units of two to the
/// minus twenty-third and times two to its exponent, is the integer. So a
/// coordinate inside the coordinate range reaches the renderer unchanged.
pub proof fn law_small_integers_are_exact(value: int)
    requires
        0 < value <= 0x100_0000,
    ensures
        ({
            let e = exponent_of(value, 1);
            let m = significand(value, 1, e);
            &&& 0 <= e <= 24
            &&& m * two_to(e as nat) == value * HIDDEN_BIT
            &&& bits_of_int(value) == pack(e, m)
            &&& bits_of_int(-value) == SIGN_BIT + pack(e, m)
        }),
{
    lemma_two_to_values();
    let e = lemma_exponent_exists(value, 1);
    lemma_exponent_of(value, 1, e);
    lemma_significand(value, 1, e);
    lemma_bits_below_sign(value, 1);
    if e < 0 {
        lemma_two_to_grows(1, (-e) as nat);
        assert(value * two_to((-e) as nat) >= 2) by (nonlinear_arith)
            requires
                value >= 1,
                two_to((-e) as nat) >= 2,
        ;
    }
    let bottom = two_to(e as nat) as int;
    assert(1 * two_to(e as nat) == bottom);
    if e > 24 {
        lemma_two_to_grows(25, e as nat);
        lemma_two_to_grows(24, 25);
    }
    let n = value * HIDDEN_BIT;
    if e <= 23 {
        lemma_two_to_adds(e as nat, (23 - e) as nat);
        let rest = two_to((23 - e) as nat) as int;
        assert(n == (value * rest) * bottom) by (nonlinear_arith)
            requires
                n == value * (bottom * rest),
        ;
        vstd::arithmetic::div_mod::lemma_mod_multiples_basic(value * rest, bottom);
    } else {
        assert(value == 0x100_0000);
        assert(n == 0x80_0000 * bottom);
        vstd::arithmetic::div_mod::lemma_mod_multiples_basic(0x80_0000, bottom);
    }
    lemma_round_half_even(n, bottom);
}

/// The pattern of the single-precision number nearest to `num / den`.
pub fn ratio_bits(num: u32, den: u32) -> (bits: u32)
    requires
        den > 0,
    ensures
        bits == bits_of_ratio(num as int, den as int),
{
    if num == 0 {
        return 0;
    }
    let mut top: u128 = num as u128;
    let mut bottom: u128 = den as u128;
    let mut e: i32 = 0;
    if top >= bottom {
        proof {
            lemma_two_to_step(den as int, 0);
        }
        while top >= 2 * bottom
            invariant
                0 <= e <= 31,
                top == num,
                bottom == den * two_to(e as nat),
                0 < bottom <= top,
                den > 0,
            decreases top - bottom,
        {
            proof {
                lemma_two_to_step(den as int, e as nat);
                if e == 31 {
                    lemma_two_to_large(den as int, 32);
                }
            }
            bottom = 2 * bottom;
            e = e + 1;
        }
        proof {
            assert(scaled(num as int, den as int, e as int) == (top as int, bottom as int));
        }
    } else {
        proof {
            lemma_two_to_step(num as int, 0);
        }
        while top < bottom
            invariant
                -32 <= e <= 0,
                bottom == den,
                top == num * two_to((-e) as nat),
                0 < top < 2 * bottom,
                e == 0 ==> top < bottom,
                num > 0,
            decreases 2 * bottom - top,
        {
            proof {
                lemma_two_to_step(num as int, (-e) as nat);
                if e == -32 {
                    lemma_two_to_large(num as int, 32);
                }
            }
            top = 2 * top;
            e = e - 1;
        }
        proof {
            assert(e < 0);
            assert(scaled(num as int, den as int, e as int) == (top as int, bottom as int));
        }
    }
    proof {
        assert(is_exponent_of(num as int, den as int, e as int));
        lemma_exponent_of(num as int, den as int, e as int);
        lemma_significand(num as int, den as int, e as int);
        if e >= 0 {
            assert(top < 0x1_0000_0000);
        } else {
            assert(top < 2 * 0x1_0000_0000);
        }
    }
    let units: u128 = top * (HIDDEN_BIT as u128);
    let quotient: u128 = units / bottom;
    let rest: u128 = units % bottom;
    let m: u128 = if 2 * rest > bottom || (2 * rest == bottom && quotient % 2 == 1) {
        quotient + 1
    } else {
        quotient
    };
    assert(m == significand(num as int, den as int, e as int));
    let biased: u32 = (e + EXPONENT_BIAS as i32) as u32;
    biased * HIDDEN_BIT + (m as u32 - HIDDEN_BIT)
}

/// The pattern of the single-precision number nearest to an unsigned integer.
pub fn uint_bits(value: u32) -> (bits: u32)
    ensures
        bits == bits_of_int(value as int),
{
    ratio_bits(value, 1)
}

/// The pattern of the single-precision number nearest to a signed integer.
pub fn int_bits(value: i32) -> (bits: u32)
    ensures
        bits == bits_of_int(value as int),
{
    if value < 0 {
        let magnitude: u32 = (-(value as i64)) as u32;
        proof {
            lemma_bits_below_sign(magnitude as int, 1);
        }
        SIGN_BIT + ratio_bits(magnitude, 1)
    } else {
        ratio_bits(value as u32, 1)
    }
}

/// The pattern of the single-precision number nearest to a colour channel as
/// a fraction of 255.
pub fn channel_bits(level: u8) -> (bits: u32)
    ensures
        bits == bits_of_channel(level),
{
    ratio_bits(level as u32, 255)
}

} // verus!
