//! Floating-point values as their IEEE-754 binary64 bit patterns.
//!
//! A value is carried as the 64 bits that encode it: one sign bit, eleven
//! bits of biased exponent, fifty-two bits of fraction.  Nothing here rounds,
//! normalises or otherwise touches a pattern on its way through, and the
//! conversions to and from integers and booleans are computed on the bits.

use vstd::arithmetic::power2::*;
use vstd::bits::*;
use vstd::prelude::*;

verus! {

/// Two to the fifty-second: the weight of the implicit leading mantissa bit.
pub const HIDDEN_BIT: u64 = 0x10_0000_0000_0000;

/// The bias of the exponent field.
pub const BIAS: u64 = 1023;

/// The pattern of positive one.
pub const ONE: u64 = 0x3FF0_0000_0000_0000;

/// Whether the sign bit is set.
pub open spec fn is_negative(bits: u64) -> bool {
    bits >= 0x8000_0000_0000_0000
}

/// The biased exponent field.
pub open spec fn exponent_of(bits: u64) -> nat {
    ((bits as nat / HIDDEN_BIT as nat) % 2048) as nat
}

/// The fraction field.
pub open spec fn fraction_of(bits: u64) -> nat {
    bits as nat % HIDDEN_BIT as nat
}

/// Whether the pattern encodes no number at all.
pub open spec fn is_nan(bits: u64) -> bool {
    exponent_of(bits) == 2047 && fraction_of(bits) != 0
}

/// Whether the pattern encodes a number greater than zero: the sign bit is
/// clear and the pattern is neither a zero nor a NaN.
pub open spec fn is_positive(bits: u64) -> bool {
    !is_negative(bits) && !is_nan(bits) && !(exponent_of(bits) == 0 && fraction_of(bits) == 0)
}

/// The integer nearest to the encoded number in the direction of zero, held
/// to the range of a 64-bit signed integer; zero for a NaN.
pub open spec fn truncated(bits: u64) -> int {
    let e = exponent_of(bits);
    let m = HIDDEN_BIT as nat + fraction_of(bits);
    if is_nan(bits) || e < BIAS {
        0
    } else if e >= BIAS + 63 {
        if is_negative(bits) {
            i64::MIN as int
        } else {
            i64::MAX as int
        }
    } else {
        let magnitude = if e >= BIAS + 52 {
            m * pow2((e - BIAS - 52) as nat)
        } else {
            m / pow2((BIAS + 52 - e) as nat)
        };
        if is_negative(bits) {
            -(magnitude as int)
        } else {
            magnitude as int
        }
    }
}

/// The pattern of one for `true`, of positive zero for `false`.
pub open spec fn of_bool(b: bool) -> u64 {
    if b {
        ONE
    } else {
        0
    }
}

/// The position of the highest set bit of `a`; zero for zero.
pub open spec fn top_bit(a: nat) -> nat
    decreases a,
{
    if a < 2 {
        0
    } else {
        1 + top_bit(a / 2)
    }
}

/// `a` without its `s` lowest bits, rounded to the nearest integer, a tie
/// going to the even one.
pub open spec fn rounded_shift(a: nat, s: nat) -> nat {
    let q = a / pow2(s);
    let r = a % pow2(s);
    if 2 * r > pow2(s) || (2 * r == pow2(s) && q % 2 == 1) {
        q + 1
    } else {
        q
    }
}

/// The pattern of the number nearest to the integer `i`, a tie between two
/// neighbours going to the one with the even mantissa.
pub open spec fn of_int(i: int) -> u64
    recommends
        i64::MIN <= i <= i64::MAX,
{
    if i == 0 {
        0
    } else {
        let a = (if i < 0 {
            -i
        } else {
            i
        }) as nat;
        let k = top_bit(a);
        let m = if k <= 52 {
            a * pow2((52 - k) as nat)
        } else {
            rounded_shift(a, (k - 52) as nat)
        };
        let sign: int = if i < 0 {
            0x8000_0000_0000_0000
        } else {
            0
        };
        (sign + (BIAS + k) * HIDDEN_BIT + (m - HIDDEN_BIT)) as u64
    }
}

/// The distance between two numbers.
pub open spec fn distance(x: int, y: int) -> int {
    if x <= y {
        y - x
    } else {
        x - y
    }
}

/// `rounded_shift` rounds to nearest, a tie to even: no multiple of two to
/// the `s` is nearer to `a` than the one it picks, and where `a` lies midway
/// between two neighbouring multiples it picks the even one.
pub proof fn lemma_rounded_shift_is_nearest(a: nat, s: nat, n: nat)
    ensures
        distance(a as int, (rounded_shift(a, s) * pow2(s)) as int) <= distance(
            a as int,
            (n * pow2(s)) as int,
        ),
        2 * distance(a as int, (rounded_shift(a, s) * pow2(s)) as int) <= pow2(s),
        2 * distance(a as int, (rounded_shift(a, s) * pow2(s)) as int) == pow2(s)
            ==> rounded_shift(a, s) % 2 == 0,
{
    let p = pow2(s) as int;
    let q = a as int / p;
    let r = a as int % p;
    let m = rounded_shift(a, s) as int;
    lemma_pow2_pos(s);
    vstd::arithmetic::div_mod::lemma_fundamental_div_mod(a as int, p);
    vstd::arithmetic::div_mod::lemma_mod_bound(a as int, p);
    assert(a == p * q + r);
    if m == q {
        assert(m * p == a - r) by (nonlinear_arith)
            requires
                a == p * q + r,
                m == q,
        ;
        if n <= q {
            assert(n * p <= q * p) by (nonlinear_arith)
                requires
                    n <= q,
                    p > 0,
            ;
        } else {
            assert(n * p >= q * p + p) by (nonlinear_arith)
                requires
                    n >= q + 1,
                    p > 0,
            ;
        }
    } else {
        assert(m * p == a - r + p) by (nonlinear_arith)
            requires
                a == p * q + r,
                m == q + 1,
        ;
        if n <= q {
            assert(n * p <= q * p) by (nonlinear_arith)
                requires
                    n <= q,
                    p > 0,
            ;
        } else {
            assert(n * p >= q * p + p) by (nonlinear_arith)
                requires
                    n >= q + 1,
                    p > 0,
            ;
        }
    }
}

/// Where `top_bit` lies: the number is at least two to that power and less
/// than twice as much.
pub proof fn lemma_top_bit(a: nat)
    requires
        a > 0,
    ensures
        pow2(top_bit(a)) <= a < 2 * pow2(top_bit(a)),
    decreases a,
{
    lemma2_to64();
    if a >= 2 {
        lemma_top_bit(a / 2);
        lemma_pow2_unfold(top_bit(a));
    }
}

/// An integer that a float holds exactly comes back as itself: every
/// integer of at most fifty-three bits survives the way to a float and back.
pub proof fn lemma_exact_integers_come_back(i: int)
    requires
        -0x20_0000_0000_0000 <= i <= 0x20_0000_0000_0000,
    ensures
        truncated(of_int(i)) == i,
{
    lemma2_to64();
    lemma2_to64_rest();
    if i != 0 {
        let a = (if i < 0 {
            -i
        } else {
            i
        }) as nat;
        let k = top_bit(a);
        lemma_top_bit(a);
        if k >= 54 {
            lemma_pow2_strictly_increases(53, k);
        }
        let sign: int = if i < 0 {
            0x8000_0000_0000_0000
        } else {
            0
        };
        if k <= 52 {
            let shift = (52 - k) as nat;
            let p = pow2(shift) as int;
            let m = a * p;
            lemma_pow2_pos(shift);
            lemma_pow2_adds(k, shift);
            assert(HIDDEN_BIT <= m < 2 * HIDDEN_BIT) by (nonlinear_arith)
                requires
                    pow2(k) <= a < 2 * pow2(k),
                    pow2(k) * p == HIDDEN_BIT,
                    m == a * p,
                    p > 0,
            ;
            let e = BIAS + k;
            let bits = (sign + e * HIDDEN_BIT + (m - HIDDEN_BIT)) as u64;
            assert(bits == sign + e * HIDDEN_BIT + (m - HIDDEN_BIT));
            assert(exponent_of(bits) == e && fraction_of(bits) == m - HIDDEN_BIT && is_negative(
                bits,
            ) == (i < 0)) by {
                lemma_fields_of(i < 0, e as nat, (m - HIDDEN_BIT) as nat);
            }
            if shift > 0 {
                assert(m / p == a) by {
                    assert(m == p * a) by (nonlinear_arith)
                        requires
                            m == a * p,
                    ;
                    vstd::arithmetic::div_mod::lemma_div_by_multiple(a as int, p);
                }
            } else {
                assert(m == a) by (nonlinear_arith)
                    requires
                        m == a * p,
                        p == 1,
                ;
            }
        } else {
            assert(k == 53);
            assert(a == 0x20_0000_0000_0000);
            assert(rounded_shift(a, 1) == HIDDEN_BIT as nat) by {
                assert(a / pow2(1) == HIDDEN_BIT);
                assert(a % pow2(1) == 0);
            }
            let e = BIAS + 53;
            let bits = (sign + e * HIDDEN_BIT) as u64;
            assert(exponent_of(bits) == e && fraction_of(bits) == 0 && is_negative(bits) == (i
                < 0)) by {
                lemma_fields_of(i < 0, e as nat, 0);
            }
            assert(HIDDEN_BIT * pow2(1) == a);
        }
    }
}

/// The fields of a pattern put together from a sign, an exponent and a
/// fraction are that sign, that exponent and that fraction.
pub proof fn lemma_fields_of(negative: bool, exponent: nat, fraction: nat)
    requires
        exponent < 2048,
        fraction < HIDDEN_BIT,
    ensures
        ({
            let bits = ((if negative {
                0x8000_0000_0000_0000int
            } else {
                0int
            }) + exponent * HIDDEN_BIT + fraction) as u64;
            &&& is_negative(bits) == negative
            &&& exponent_of(bits) == exponent
            &&& fraction_of(bits) == fraction
        }),
{
    let sign: int = if negative {
        0x8000_0000_0000_0000
    } else {
        0
    };
    let high: int = (if negative {
        2048int
    } else {
        0int
    }) + exponent;
    let total = sign + exponent * HIDDEN_BIT + fraction;
    assert(total == high * HIDDEN_BIT + fraction);
    assert(0 <= total < 0x1_0000_0000_0000_0000);
    vstd::arithmetic::div_mod::lemma_fundamental_div_mod_converse(
        total,
        HIDDEN_BIT as int,
        high,
        fraction as int,
    );
}

/// Splits a pattern into sign, biased exponent and fraction.
fn fields(bits: u64) -> (parts: (bool, u64, u64))
    ensures
        parts.0 == is_negative(bits),
        parts.1 == exponent_of(bits),
        parts.2 == fraction_of(bits),
        parts.1 < 2048,
        parts.2 < HIDDEN_BIT,
{
    let negative = (bits >> 63) == 1;
    let e = (bits >> 52) & 0x7ff;
    let f = bits & 0xf_ffff_ffff_ffff;
    assert(((bits >> 63) == 1) == (bits >= 0x8000_0000_0000_0000)) by (bit_vector);
    assert((bits >> 52) & 0x7ff == (bits / 0x10_0000_0000_0000) % 2048) by (bit_vector);
    assert(bits & 0xf_ffff_ffff_ffff == bits % 0x10_0000_0000_0000) by (bit_vector);
    (negative, e, f)
}

/// Whether the encoded number is greater than zero.
pub fn float_is_positive(bits: u64) -> (positive: bool)
    ensures
        positive == is_positive(bits),
{
    let (negative, e, f) = fields(bits);
    !negative && !(e == 2047 && f != 0) && !(e == 0 && f == 0)
}

/// The pattern that stands for a boolean.
pub fn float_from_bool(b: bool) -> (bits: u64)
    ensures
        bits == of_bool(b),
{
    if b {
        ONE
    } else {
        0
    }
}

/// Truncates the encoded number to an integer.
pub fn float_to_int(bits: u64) -> (i: i64)
    ensures
        i == truncated(bits),
{
    let (negative, e, f) = fields(bits);
    if (e == 2047 && f != 0) || e < BIAS {
        return 0;
    }
    if e >= BIAS + 63 {
        return if negative {
            i64::MIN
        } else {
            i64::MAX
        };
    }
    let m: u64 = HIDDEN_BIT + f;
    let magnitude: u64 = if e >= BIAS + 52 {
        let shift: u64 = e - BIAS - 52;
        proof {
            lemma2_to64();
            if shift < 10 {
                lemma_pow2_strictly_increases(shift as nat, 10);
            }
            assert(m * pow2(shift as nat) < 0x8000_0000_0000_0000) by (nonlinear_arith)
                requires
                    m < 0x20_0000_0000_0000,
                    pow2(shift as nat) <= 0x400,
            ;
            lemma_u64_shl_is_mul(m, shift);
        }
        m << shift
    } else {
        let shift: u64 = BIAS + 52 - e;
        proof {
            lemma_u64_shr_is_div(m, shift);
            lemma_pow2_pos(shift as nat);
            vstd::arithmetic::div_mod::lemma_div_is_ordered_by_denominator(
                m as int,
                1,
                pow2(shift as nat) as int,
            );
        }
        m >> shift
    };
    if negative {
        -(magnitude as i64)
    } else {
        magnitude as i64
    }
}

/// Finds the highest set bit of a non-zero `a`.
fn highest_bit(a: u64) -> (k: u64)
    requires
        a > 0,
    ensures
        k == top_bit(a as nat),
        k <= 63,
        pow2(k as nat) <= a < 2 * pow2(k as nat),
{
    let mut k: u64 = 0;
    let mut rest: u64 = a;
    proof {
        lemma2_to64();
    }
    while rest >= 2
        invariant
            rest >= 1,
            k <= 63,
            top_bit(a as nat) == k + top_bit(rest as nat),
            rest * pow2(k as nat) <= a < (rest + 1) * pow2(k as nat),
        decreases rest,
    {
        proof {
            let p = pow2(k as nat) as int;
            lemma_pow2_unfold((k + 1) as nat);
            lemma_pow2_pos(k as nat);
            assert((rest / 2) * (2 * p) <= rest * p && (rest + 1) * p <= (rest / 2 + 1) * (2 * p))
                by (nonlinear_arith)
                requires
                    p > 0,
                    rest >= 0,
            ;
            if k == 63 {
                assert(rest * p >= 2 * p) by (nonlinear_arith)
                    requires
                        rest >= 2,
                        p > 0,
                ;
                lemma2_to64_rest();
            }
        }
        rest = rest / 2;
        k = k + 1;
    }
    proof {
        assert(1 * pow2(k as nat) == pow2(k as nat)) by (nonlinear_arith);
        assert(2 * pow2(k as nat) == (1 + 1) * pow2(k as nat)) by (nonlinear_arith);
    }
    k
}

/// The pattern of the number nearest to `i`.
pub fn float_from_int(i: i64) -> (bits: u64)
    ensures
        bits == of_int(i as int),
{
    if i == 0 {
        return 0;
    }
    let negative = i < 0;
    let a: u64 = if negative {
        (-(i + 1)) as u64 + 1
    } else {
        i as u64
    };
    let k = highest_bit(a);
    let ghost pk = pow2(k as nat) as int;
    let m: u64 = if k <= 52 {
        let shift: u64 = 52 - k;
        proof {
            lemma2_to64_rest();
            lemma_pow2_adds(k as nat, shift as nat);
            let ps = pow2(shift as nat) as int;
            lemma_pow2_pos(shift as nat);
            assert(pk * ps <= a * ps < 2 * (pk * ps)) by (nonlinear_arith)
                requires
                    pk <= a < 2 * pk,
                    ps > 0,
            ;
            lemma_u64_shl_is_mul(a, shift);
        }
        a << shift
    } else {
        let shift: u64 = k - 52;
        let q: u64 = a >> shift;
        let half: u64 = 1u64 << (shift - 1);
        assert(1u64 << shift >= 1) by (bit_vector)
            requires
                shift < 64,
        ;
        let low: u64 = a & ((1u64 << shift) - 1);
        proof {
            let ps = pow2(shift as nat) as int;
            lemma2_to64();
            lemma2_to64_rest();
            lemma_pow2_pos(shift as nat);
            lemma_pow2_adds(52, shift as nat);
            lemma_pow2_unfold(shift as nat);
            lemma_u64_shr_is_div(a, shift);
            lemma_u64_shl_is_mul(1, (shift - 1) as u64);
            lemma_u64_shl_is_mul(1, shift);
            lemma_u64_low_bits_mask_is_mod(a, shift as nat);
            assert(low_bits_mask(shift as nat) == ps - 1);
            assert(low == a as nat % pow2(shift as nat));
            assert(HIDDEN_BIT <= a as int / ps < 2 * HIDDEN_BIT) by (nonlinear_arith)
                requires
                    HIDDEN_BIT * ps <= a < 2 * (HIDDEN_BIT * ps),
                    ps > 0,
            ;
        }
        if low > half || (low == half && q % 2 == 1) {
            q + 1
        } else {
            q
        }
    };
    let sign: u64 = if negative {
        0x8000_0000_0000_0000
    } else {
        0
    };
    sign + (BIAS + k) * HIDDEN_BIT + (m - HIDDEN_BIT)
}

} // verus!
