//! Single-precision numbers as their 32-bit patterns.
//!
//! The field holds its values as the words that `f32::to_bits` gives, and
//! coordinates reach it in the same form. This module reads such a word as
//! IEEE 754 binary32 (one sign bit, eight exponent bits, twenty-three
//! fraction bits) and computes, in integers, the one operation that the
//! field needs of it: the product with a whole number, rounded to single
//! precision, cut off to a whole number and clamped.

use vstd::prelude::*;
use vstd::arithmetic::div_mod::{
    lemma_basic_div,
    lemma_div_denominator,
    lemma_div_is_ordered,
    lemma_div_multiples_vanish,
    lemma_fundamental_div_mod,
};
use vstd::arithmetic::power2::{
    lemma2_to64,
    lemma_pow2_adds,
    lemma_pow2_pos,
    lemma_pow2_strictly_increases,
    lemma_pow2_unfold,
    pow2,
};

verus! {

/// The pattern of positive zero.
pub const ZERO: u32 = 0;

/// The pattern of one.
pub const ONE: u32 = 0x3F80_0000;

/// The sign bit: the least pattern of a negative number.
pub const SIGN: u32 = 0x8000_0000;

/// The weight of the exponent field's lowest bit, which is also the hidden
/// bit of a normal number's significand.
pub const HIDDEN: u32 = 0x80_0000;

/// The least whole number that single precision cannot tell from its
/// successor: every whole number up to it has a pattern of its own.
pub const EXACT_LIMIT: u32 = 0x100_0000;

/// Whether the sign bit is set.
pub open spec fn is_negative(bits: u32) -> bool {
    bits >= SIGN
}

/// The exponent field, 0 to 255.
pub open spec fn exponent_field(bits: u32) -> nat {
    (bits as nat / HIDDEN as nat) % 0x100
}

/// The fraction field, 0 to 2^23 - 1.
pub open spec fn fraction_field(bits: u32) -> nat {
    bits as nat % HIDDEN as nat
}

/// Whether the pattern is that of a number, not of an infinity or a NaN.
pub open spec fn is_finite(bits: u32) -> bool {
    exponent_field(bits) != 0xFF
}

/// Whether the pattern is that of a NaN.
pub open spec fn is_nan(bits: u32) -> bool {
    exponent_field(bits) == 0xFF && fraction_field(bits) != 0
}

/// The significand of a finite pattern as a whole number: the magnitude of
/// the number is `significand * 2^scale`.
pub open spec fn significand(bits: u32) -> nat {
    if exponent_field(bits) == 0 {
        fraction_field(bits)
    } else {
        HIDDEN as nat + fraction_field(bits)
    }
}

/// The power of two that a finite pattern's significand counts in.
pub open spec fn scale(bits: u32) -> int {
    if exponent_field(bits) == 0 {
        -149
    } else {
        exponent_field(bits) - 150
    }
}

/// The number of low bits that `p` has beyond the twenty-four that a
/// significand holds.
pub open spec fn surplus_bits(p: nat) -> nat
    decreases p,
{
    if p < EXACT_LIMIT {
        0
    } else {
        1 + surplus_bits(p / 2)
    }
}

/// `p / 2^s` rounded to the nearest whole number, a tie to the even one.
pub open spec fn round_to_even(p: nat, s: nat) -> nat {
    let unit = pow2(s);
    let kept = p / unit;
    let rest = p % unit;
    if 2 * rest > unit || (2 * rest == unit && kept % 2 == 1) {
        kept + 1
    } else {
        kept
    }
}

/// The whole part of `q * 2^e`.
pub open spec fn whole_part(q: nat, e: int) -> nat {
    if e >= 0 {
        q * pow2(e as nat)
    } else {
        q / pow2((-e) as nat)
    }
}

/// The index that a coordinate gives on an axis: the number with the pattern
/// `bits`, times `factor`, rounded to single precision, cut off to a whole
/// number, and clamped to `limit`. A NaN and every negative number give 0,
/// and so does every number where `factor` is 0; positive infinity gives
/// `limit`.
///
/// For `factor <= 2^24` this is what `((factor as f32) * x) as usize`
/// followed by `min(limit)` computes for `x = f32::from_bits(bits)`.
pub open spec fn scaled_floor(bits: u32, factor: nat, limit: nat) -> nat {
    if is_negative(bits) || is_nan(bits) || factor == 0 {
        0
    } else if !is_finite(bits) {
        limit
    } else {
        let p = significand(bits) * factor;
        let s = surplus_bits(p);
        let whole = whole_part(round_to_even(p, s), scale(bits) + s);
        if whole < limit {
            whole
        } else {
            limit
        }
    }
}

/// What the surplus bits are: dropping them leaves less than 2^24, and
/// where there are any, the number is at least 2^23 times what they count.
pub proof fn lemma_surplus_bits(p: nat)
    ensures
        p / pow2(surplus_bits(p)) < EXACT_LIMIT,
        surplus_bits(p) > 0 ==> p >= pow2(23 + surplus_bits(p)),
    decreases p,
{
    lemma2_to64();
    if p >= EXACT_LIMIT {
        let s = surplus_bits(p / 2);
        lemma_surplus_bits(p / 2);
        lemma_pow2_unfold(s + 1);
        lemma_pow2_pos(s);
        lemma_div_denominator(p as int, 2, pow2(s) as int);
        lemma_pow2_unfold(23 + s + 1);
    }
}

/// A product that is at most `2^e` times the factor, rounded to single
/// precision and cut off `e` bits below its unit, is at most the factor.
proof fn lemma_bounded_product(p: nat, factor: nat, e: nat)
    requires
        factor <= EXACT_LIMIT,
        p <= pow2(e) * factor,
    ensures
        whole_part(round_to_even(p, surplus_bits(p)), surplus_bits(p) - e) <= factor,
        p == pow2(e) * factor ==> whole_part(
            round_to_even(p, surplus_bits(p)),
            surplus_bits(p) - e,
        ) == factor,
{
    let s = surplus_bits(p);
    let unit = pow2(s);
    let kept = p / unit;
    let rest = p % unit;
    let q = round_to_even(p, s);
    lemma_surplus_bits(p);
    lemma_pow2_pos(s);
    lemma_pow2_pos(e);
    lemma2_to64();
    lemma_fundamental_div_mod(p as int, unit as int);
    assert(p == unit * kept + rest);
    assert(0 <= rest < unit);
    if s <= e {
        let t = pow2((e - s) as nat);
        lemma_pow2_pos((e - s) as nat);
        lemma_pow2_adds(s, (e - s) as nat);
        assert(pow2(e) == unit * t);
        let top = t * factor;
        assert(pow2(e) * factor == unit * top) by (nonlinear_arith)
            requires
                pow2(e) == unit * t,
                top == t * factor,
        ;
        lemma_div_is_ordered(p as int, (unit * top) as int, unit as int);
        lemma_div_multiples_vanish(top as int, unit as int);
        assert(kept <= top);
        if kept == top {
            assert(rest == 0);
        }
        assert(q <= top);
        if p == pow2(e) * factor {
            assert(kept == top);
            assert(q == top);
        }
        lemma_div_is_ordered(q as int, top as int, t as int);
        assert(top == t * factor);
        lemma_div_multiples_vanish(factor as int, t as int);
        assert(top / t == factor);
        if s == e {
            assert(t == 1);
            assert(q * pow2(0) == q) by (nonlinear_arith)
                requires
                    pow2(0) == 1,
            ;
            assert(top == factor) by (nonlinear_arith)
                requires
                    top == t * factor,
                    t == 1,
            ;
            assert(whole_part(q, s - e) == q);
        } else {
            assert(whole_part(q, s - e) == q / t);
        }
        assert(whole_part(q, s - e) <= factor);
    } else {
        // More bits are dropped than lie below the unit: that takes a
        // product of at least 2^(24 + e), and only 2^e * 2^24 is that large.
        let high = pow2(24 + e);
        lemma_pow2_adds(e, 24);
        assert(high == pow2(e) * 0x100_0000);
        if s > e + 1 {
            lemma_pow2_strictly_increases(24 + e, 23 + s);
        }
        assert(p >= high);
        assert(pow2(e) * factor <= pow2(e) * 0x100_0000) by (nonlinear_arith)
            requires
                factor <= 0x100_0000,
        ;
        assert(p == high);
        assert(factor == 0x100_0000) by (nonlinear_arith)
            requires
                pow2(e) * factor >= pow2(e) * 0x100_0000,
                pow2(e) > 0,
                factor <= 0x100_0000,
        ;
        if s > e + 1 {
            assert(false);
        }
        assert(s == e + 1);
        lemma_pow2_adds(s, 23);
        assert(high == unit * 0x80_0000);
        lemma_div_multiples_vanish(0x80_0000, unit as int);
        assert(kept == 0x80_0000);
        assert(rest == 0);
        assert(q == 0x80_0000);
        assert(pow2(1) == 2);
        assert(q * pow2(1) == 0x100_0000) by (nonlinear_arith)
            requires
                q == 0x80_0000,
                pow2(1) == 2,
        ;
        assert(whole_part(q, s - e) == q * pow2(1));
        assert(whole_part(q, s - e) == factor);
    }
}

/// Coordinates in the unit interval need no clamp: the pattern of every
/// number from zero to one gives an index of at most `factor`, whatever the
/// limit. Zero gives the index 0, and one the index `factor` where the limit
/// lets it.
pub proof fn lemma_unit_interval_within_factor(bits: u32, factor: nat, limit: nat)
    requires
        bits <= ONE,
        factor <= EXACT_LIMIT,
    ensures
        scaled_floor(bits, factor, limit) <= factor,
        scaled_floor(ZERO, factor, limit) == 0,
        bits == ONE && factor <= limit ==> scaled_floor(bits, factor, limit) == factor,
{
    lemma2_to64();
    assert(scaled_floor(ZERO, factor, limit) == 0) by {
        lemma_pow2_pos(149);
        assert(exponent_field(ZERO) == 0);
        assert(significand(ZERO) == 0);
        assert(significand(ZERO) * factor == 0) by (nonlinear_arith)
            requires
                significand(ZERO) == 0,
        ;
        assert(surplus_bits(0) == 0);
        assert(round_to_even(0, 0) == 0);
        assert(0nat / pow2(149) == 0) by {
            lemma_basic_div(0, pow2(149) as int);
        }
    }
    if factor > 0 {
        let exponent = exponent_field(bits);
        assert(bits as nat / 0x80_0000 <= 127);
        assert(exponent <= 127);
        assert(exponent == 127 ==> bits == ONE);
        let e = (-scale(bits)) as nat;
        let m = significand(bits);
        lemma_pow2_pos(e);
        if exponent == 127 {
            assert(e == 23);
            assert(m == pow2(e));
        } else {
            assert(e >= 24);
            if e > 24 {
                lemma_pow2_strictly_increases(24, e);
            }
            assert(m < pow2(e));
        }
        let p = m * factor;
        assert(p <= pow2(e) * factor) by (nonlinear_arith)
            requires
                p == m * factor,
                m <= pow2(e),
        ;
        lemma_bounded_product(p, factor, e);
        assert(scale(bits) + surplus_bits(p) == surplus_bits(p) - e);
    }
}

/// The pattern of the number in the unit interval that is nearest to the
/// one with the pattern `bits`: zero for every negative number, one for
/// every number above one. A NaN gives zero.
pub open spec fn clamped_to_unit(bits: u32) -> u32 {
    if is_negative(bits) || is_nan(bits) {
        ZERO
    } else if bits > ONE {
        ONE
    } else {
        bits
    }
}

/// Whether two finite patterns stand for the same number: they are the same
/// pattern, or the two zeros.
pub open spec fn same_number(a: u32, b: u32) -> bool {
    a == b || (a % SIGN == 0 && b % SIGN == 0)
}

/// Clamps a coordinate into the unit interval, see [`clamped_to_unit`].
pub fn clamp_unit(bits: u32) -> (clamped: u32)
    ensures
        clamped == clamped_to_unit(bits),
        clamped <= ONE,
{
    if bits >= SIGN {
        return ZERO;
    }
    let exponent: u32 = bits / HIDDEN;
    let fraction: u32 = bits % HIDDEN;
    assert(exponent == exponent_field(bits));
    if exponent == 0xFF && fraction != 0 {
        ZERO
    } else if bits > ONE {
        ONE
    } else {
        bits
    }
}

/// Whether two finite patterns stand for the same number, see
/// [`same_number`].
pub fn equal_numbers(a: u32, b: u32) -> (same: bool)
    ensures
        same == same_number(a, b),
{
    a == b || (a % SIGN == 0 && b % SIGN == 0)
}

/// Whether the pattern is that of a number, not of an infinity or a NaN.
pub fn finite(bits: u32) -> (f: bool)
    ensures
        f == is_finite(bits),
{
    (bits / HIDDEN) % 0x100 != 0xFF
}

/// 2 to the power `n`.
fn power_of_two(n: u32) -> (p: u64)
    requires
        n < 64,
    ensures
        p == pow2(n as nat),
{
    let mut p: u64 = 1;
    let mut i: u32 = 0;
    proof {
        lemma2_to64();
    }
    while i < n
        invariant
            i <= n,
            n < 64,
            p == pow2(i as nat),
        decreases n - i,
    {
        proof {
            lemma_pow2_unfold((i + 1) as nat);
            lemma2_to64();
            if i + 1 < 64 {
                lemma_pow2_strictly_increases((i + 1) as nat, 64);
            }
        }
        p = p * 2;
        i += 1;
    }
    p
}

/// The index that a coordinate gives on an axis, see [`scaled_floor`].
pub fn scale_to_index(bits: u32, factor: u32, limit: usize) -> (index: usize)
    requires
        factor <= EXACT_LIMIT,
    ensures
        index == scaled_floor(bits, factor as nat, limit as nat),
        index <= limit,
{
    if bits >= SIGN || factor == 0 {
        return 0;
    }
    let exponent: u32 = bits / HIDDEN;
    let fraction: u32 = bits % HIDDEN;
    assert(exponent == exponent_field(bits));
    if exponent == 0xFF {
        return if fraction != 0 {
            0
        } else {
            limit
        };
    }
    let significand: u64 = if exponent == 0 {
        fraction as u64
    } else {
        (HIDDEN + fraction) as u64
    };
    assert(significand * factor < 0x1_0000_0000_0000) by (nonlinear_arith)
        requires
            significand < 0x100_0000,
            factor <= 0x100_0000,
    ;
    let product: u64 = significand * (factor as u64);

    // Find how many low bits the product has to give up.
    let mut surplus: u32 = 0;
    let mut unit: u64 = 1;
    proof {
        lemma2_to64();
    }
    while product / unit >= EXACT_LIMIT as u64
        invariant
            product < 0x1_0000_0000_0000,
            1 <= unit <= 0x100_0000,
            surplus <= 24,
            unit == pow2(surplus as nat),
            surplus_bits(product as nat) == surplus + surplus_bits((product / unit) as nat),
        decreases 0x200_0000 - unit,
    {
        proof {
            assert(unit < 0x100_0000) by (nonlinear_arith)
                requires
                    product / unit >= 0x100_0000,
                    product < 0x1_0000_0000_0000,
                    unit >= 1,
            ;
            lemma_pow2_unfold((surplus + 1) as nat);
            lemma_div_denominator(product as int, unit as int, 2);
            lemma2_to64();
            if surplus >= 24 {
                lemma_pow2_strictly_increases(23, surplus as nat);
            }
        }
        unit = unit * 2;
        surplus += 1;
    }

    // Round what is kept, a tie to even.
    let rest: u64 = product % unit;
    let mut kept: u64 = product / unit;
    if 2 * rest > unit || (2 * rest == unit && kept % 2 == 1) {
        kept += 1;
    }
    assert(kept == round_to_even(product as nat, surplus as nat));

    // Cut off below the binary point.
    let biased: u32 = if exponent == 0 {
        1
    } else {
        exponent
    };
    assert(scale(bits) + surplus == biased + surplus - 150);
    let raised: u32 = biased + surplus;
    if raised >= 150 {
        let todo: u32 = raised - 150;
        let mut done: u32 = 0;
        let mut whole: u128 = kept as u128;
        while done < todo && whole < limit as u128
            invariant
                done <= todo,
                whole == kept * pow2(done as nat),
                whole < 0x2_0000_0000_0000_0000,
            decreases todo - done,
        {
            proof {
                lemma_pow2_unfold((done + 1) as nat);
                assert(kept * (2 * pow2(done as nat)) == 2 * (kept * pow2(done as nat)))
                    by (nonlinear_arith);
            }
            whole = whole * 2;
            done += 1;
        }
        if whole < limit as u128 {
            whole as usize
        } else {
            proof {
                if done < todo {
                    lemma_pow2_strictly_increases(done as nat, todo as nat);
                }
                assert(kept * pow2(done as nat) <= kept * pow2(todo as nat))
                    by (nonlinear_arith)
                    requires
                        pow2(done as nat) <= pow2(todo as nat),
                ;
            }
            limit
        }
    } else {
        let lowered: u32 = 150 - raised;
        if lowered > 24 {
            proof {
                lemma2_to64();
                if lowered > 25 {
                    lemma_pow2_strictly_increases(25, lowered as nat);
                }
                lemma_basic_div(kept as int, pow2(lowered as nat) as int);
            }
            0
        } else {
            let divisor = power_of_two(lowered);
            proof {
                lemma_pow2_pos(lowered as nat);
            }
            let whole: u64 = kept / divisor;
            if whole < limit as u64 {
                whole as usize
            } else {
                limit
            }
        }
    }
}

} // verus!
