//! Percentages in double-precision arithmetic, computed on integers.
//!
//! A double-precision number is known here by its 64 bits. Every finite one is a whole number of
//! smallest steps, of which `one()` make up the number 1, so the exact sum, quotient or product of
//! such numbers is a ratio of integers, and the result of the operation is the double nearest to
//! that ratio.
use vstd::arithmetic::div_mod::{lemma_fundamental_div_mod, lemma_fundamental_div_mod_converse};
use vstd::arithmetic::power2::{
    lemma2_to64, lemma2_to64_rest, lemma_pow2_adds, lemma_pow2_pos, lemma_pow2_strictly_increases,
    lemma_pow2_unfold, pow2,
};
use vstd::prelude::*;

verus! {

/// The number 1, in smallest steps.
pub open spec fn one() -> nat {
    pow2(1074)
}

/// The largest power of two that is at most `x` (and 1 for zero).
pub open spec fn top_power(x: nat) -> nat
    decreases x,
{
    if x < 2 {
        1
    } else {
        2 * top_power(x / 2)
    }
}

/// The distance between neighbouring doubles at `x`: 53 binary digits, down to the smallest step.
pub open spec fn spacing(x: nat) -> nat {
    if top_power(x) >= pow2(52) {
        top_power(x) / pow2(52)
    } else {
        1
    }
}

/// The multiple of `unit` nearest to `num / den`; of two at the same distance the even one.
pub open spec fn nearest_multiple(num: nat, den: nat, unit: nat) -> nat {
    let whole = num / (den * unit);
    let rest = num % (den * unit);
    if 2 * rest < den * unit || (2 * rest == den * unit && whole % 2 == 0) {
        whole * unit
    } else {
        (whole + 1) * unit
    }
}

/// The double nearest to the ratio `n / d`, in smallest steps.
pub open spec fn nearest_double(n: nat, d: nat) -> nat {
    nearest_multiple(n * one(), d, spacing((n * one()) / d))
}

/// The whole number nearest to a double given in smallest steps; halves are rounded up.
pub open spec fn round_half_up(steps: nat) -> nat {
    (steps + one() / 2) / one()
}

pub open spec fn exponent_of(bits: u64) -> int {
    (bits as int / 0x10_0000_0000_0000) % 2048
}

pub open spec fn fraction_of(bits: u64) -> int {
    bits as int % 0x10_0000_0000_0000
}

pub open spec fn is_negative(bits: u64) -> bool {
    bits >= 0x8000_0000_0000_0000
}

pub open spec fn is_nan(bits: u64) -> bool {
    exponent_of(bits) == 2047 && fraction_of(bits) != 0
}

/// The absolute value of a finite double, in smallest steps.
pub open spec fn magnitude(bits: u64) -> nat {
    if exponent_of(bits) == 0 {
        fraction_of(bits) as nat
    } else {
        (0x10_0000_0000_0000 + fraction_of(bits)) as nat * pow2((exponent_of(bits) - 1) as nat)
    }
}

/// The double is at least 100.
pub open spec fn is_full(bits: u64) -> bool {
    &&& !is_nan(bits)
    &&& !is_negative(bits)
    &&& exponent_of(bits) == 2047 || magnitude(bits) >= 100 * one()
}

/// What is left of 100 percent after `bits` percent are used, used percentages outside 0 to 100
/// being taken as the nearer end: the double nearest to the difference, rounded to a whole number.
/// What is no number leaves nothing.
pub open spec fn remaining_after(bits: u64) -> int {
    if is_nan(bits) {
        0
    } else if is_negative(bits) {
        100
    } else if is_full(bits) {
        0
    } else {
        round_half_up(nearest_double((100 * one() - magnitude(bits)) as nat, one())) as int
    }
}

proof fn lemma_powers()
    ensures
        pow2(46) == 0x4000_0000_0000,
        pow2(47) == 0x8000_0000_0000,
        pow2(48) == 0x1_0000_0000_0000,
        pow2(52) == 0x10_0000_0000_0000,
        pow2(53) == 0x20_0000_0000_0000,
        pow2(54) == 0x40_0000_0000_0000,
        pow2(55) == 0x80_0000_0000_0000,
        pow2(64) == 0x1_0000_0000_0000_0000,
{
    lemma2_to64();
    lemma2_to64_rest();
}

/// The power of two between half of `x` and `x` is its top power.
proof fn lemma_top_power(x: nat, k: nat)
    requires
        pow2(k) <= x < 2 * pow2(k),
    ensures
        top_power(x) == pow2(k),
    decreases k,
{
    lemma2_to64();
    if k > 0 {
        lemma_pow2_unfold(k);
        lemma_pow2_pos((k - 1) as nat);
        let half = pow2((k - 1) as nat);
        assert(half <= x / 2 < 2 * half);
        lemma_top_power(x / 2, (k - 1) as nat);
    }
}

/// Every positive number has a top power.
proof fn lemma_has_top_power(x: nat) -> (k: nat)
    requires
        x > 0,
    ensures
        pow2(k) <= x < 2 * pow2(k),
    decreases x,
{
    lemma2_to64();
    if x == 1 {
        0
    } else {
        let k = lemma_has_top_power(x / 2);
        lemma_pow2_unfold(k + 1);
        k + 1
    }
}

/// A common factor of a ratio does not change what is nearest to it.
#[verifier::spinoff_prover]
proof fn lemma_nearest_multiple_of_scaled(num: nat, den: nat, unit: nat, factor: nat)
    requires
        den > 0,
        unit > 0,
        factor > 0,
    ensures
        nearest_multiple(num * factor, den * factor, unit) == nearest_multiple(num, den, unit),
{
    let step = den * unit;
    let big = (den * factor) * unit;
    assert(step > 0) by (nonlinear_arith)
        requires
            step == den * unit,
            den > 0,
            unit > 0,
    ;
    assert(big == step * factor) by (nonlinear_arith)
        requires
            step == den * unit,
            big == (den * factor) * unit,
    ;
    let whole = num as int / step as int;
    let rest = num as int % step as int;
    lemma_fundamental_div_mod(num as int, step as int);
    assert(num * factor == whole * big + rest * factor) by (nonlinear_arith)
        requires
            num == step * whole + rest,
            big == step * factor,
    ;
    assert(0 <= rest * factor < big) by (nonlinear_arith)
        requires
            0 <= rest < step,
            big == step * factor,
            factor > 0,
    ;
    lemma_fundamental_div_mod_converse((num * factor) as int, big as int, whole, rest * factor);
    assert(2 * (rest * factor) < big <==> 2 * rest < step) by (nonlinear_arith)
        requires
            big == step * factor,
            factor > 0,
    ;
    assert(2 * (rest * factor) == big <==> 2 * rest == step) by (nonlinear_arith)
        requires
            big == step * factor,
            factor > 0,
    ;
}

/// The double nearest to a number of smallest steps.
proof fn lemma_nearest_of_steps(steps: nat)
    ensures
        nearest_double(steps, one()) == nearest_multiple(steps, 1, spacing(steps)),
{
    lemma_pow2_pos(1074);
    lemma_spacing_positive(steps);
    assert((steps * one()) / one() == steps) by (nonlinear_arith)
        requires
            one() > 0,
    ;
    lemma_nearest_multiple_of_scaled(steps, 1, spacing(steps), one());
    assert(1 * one() == one());
}

proof fn lemma_spacing_positive(x: nat)
    ensures
        spacing(x) > 0,
{
    lemma_pow2_pos(52);
    if top_power(x) >= pow2(52) {
        vstd::arithmetic::div_mod::lemma_div_non_zero(top_power(x) as int, pow2(52) as int);
    }
}

/// What is a multiple of the spacing is its own nearest multiple.
proof fn lemma_nearest_of_multiple(count: nat, unit: nat)
    requires
        unit > 0,
    ensures
        nearest_multiple(count * unit, 1, unit) == count * unit,
{
    lemma_fundamental_div_mod_converse((count * unit) as int, unit as int, count as int, 0);
    assert(1 * unit == unit);
}

/// A power of two that fits in 64 bits.
#[verifier::spinoff_prover]
fn power_of_two(exponent: u64) -> (power: u64)
    requires
        exponent < 64,
    ensures
        power == pow2(exponent as nat),
{
    let mut power: u64 = 1;
    let mut done: u64 = 0;
    proof {
        lemma2_to64();
        lemma_powers();
    }
    while done < exponent
        invariant
            done <= exponent < 64,
            power == pow2(done as nat),
            pow2(64) == 0x1_0000_0000_0000_0000,
        decreases exponent - done,
    {
        proof {
            lemma_pow2_unfold((done + 1) as nat);
            if done + 1 < 64 {
                lemma_pow2_strictly_increases((done + 1) as nat, 64);
            }
        }
        power = power * 2;
        done = done + 1;
    }
    power
}

/// A positive double below 128, cut after 48 binary places, and whether that lost anything.
#[verifier::spinoff_prover]
fn cut_after_48_places(bits: u64) -> (cut: (u64, bool))
    requires
        exponent_of(bits) <= 1029,
    ensures
        cut.0 * pow2(1026) <= magnitude(bits) < cut.0 * pow2(1026) + pow2(1026),
        cut.1 == (magnitude(bits) != cut.0 * pow2(1026)),
        exponent_of(bits) == 1029 ==> !cut.1,
        exponent_of(bits) == 1029 ==> cut.0 % 4 == 0,
{
    let exponent: u64 = (bits / 0x10_0000_0000_0000) % 2048;
    let fraction: u64 = bits % 0x10_0000_0000_0000;
    let ghost unit = pow2(1026);
    proof {
        lemma_powers();
        lemma2_to64();
        lemma_pow2_pos(1026);
    }
    if exponent == 0 {
        proof {
            lemma_pow2_strictly_increases(52, 1026);
            assert(magnitude(bits) == 0 * unit + fraction as nat);
        }
        return (0, fraction != 0);
    }
    let mantissa: u64 = 0x10_0000_0000_0000 + fraction;
    let ghost low = pow2((exponent - 1) as nat);
    proof {
        lemma_pow2_pos((exponent - 1) as nat);
        assert(magnitude(bits) == mantissa as nat * low);
    }
    if exponent >= 1027 {
        let factor = power_of_two(exponent - 1027);
        proof {
            lemma_pow2_adds((exponent - 1027) as nat, 1026);
            assert(factor == 1 || factor == 2 || factor == 4);
            assert(mantissa as nat * low == (mantissa * factor) * unit + 0) by (nonlinear_arith)
                requires
                    low == factor * unit,
            ;
            assert(mantissa * factor <= 0x80_0000_0000_0000) by (nonlinear_arith)
                requires
                    mantissa <= 0x20_0000_0000_0000,
                    factor <= 4,
            ;
        }
        let whole = mantissa * factor;
        proof {
            if exponent == 1029 {
                assert(factor == pow2(2));
                assert(factor == 4);
                assert(whole == mantissa * 4) by (nonlinear_arith)
                    requires
                        whole == mantissa * factor,
                        factor == 4,
                ;
                assert(whole % 4 == 0);
            }
        }
        (whole, false)
    } else if exponent <= 974 {
        proof {
            lemma_pow2_adds(53, (exponent - 1) as nat);
            if exponent < 974 {
                lemma_pow2_strictly_increases((53 + (exponent - 1)) as nat, 1026);
            }
            assert(mantissa as nat * low < unit) by (nonlinear_arith)
                requires
                    mantissa < pow2(53),
                    pow2(53) * low <= unit,
                    low > 0,
            ;
            assert(mantissa as nat * low > 0) by (nonlinear_arith)
                requires
                    mantissa > 0,
                    low > 0,
            ;
        }
        (0, true)
    } else {
        let divisor = power_of_two(1027 - exponent);
        proof {
            lemma_pow2_pos((1027 - exponent) as nat);
        }
        let whole = mantissa / divisor;
        let lost = mantissa % divisor;
        proof {
            lemma_pow2_adds((1027 - exponent) as nat, (exponent - 1) as nat);
            lemma_fundamental_div_mod(mantissa as int, divisor as int);
            let rest = lost as nat * low;
            assert(mantissa as nat * low == whole * unit + rest) by (nonlinear_arith)
                requires
                    mantissa == divisor * whole + lost,
                    unit == divisor * low,
                    rest == lost as nat * low,
            ;
            assert(rest < unit) by (nonlinear_arith)
                requires
                    lost < divisor,
                    unit == divisor * low,
                    rest == lost as nat * low,
                    low > 0,
            ;
            assert(rest != 0 <==> lost != 0) by (nonlinear_arith)
                requires
                    rest == lost as nat * low,
                    low > 0,
            ;
        }
        (whole, lost != 0)
    }
}

/// Rounding the exact difference, when it is cut after 48 binary places.
///
/// `kept` counts steps of the 48th place in the difference, and `lost` says whether something is
/// left below them; `rounded` is the nearest double, in such steps.
#[verifier::spinoff_prover]
proof fn lemma_rounded_difference(difference: nat, kept: nat, lost: bool, rounded: nat)
    requires
        kept * pow2(1026) <= difference < kept * pow2(1026) + pow2(1026),
        lost == (difference != kept * pow2(1026)),
        0 < difference <= 100 * one(),
        kept >= pow2(54) ==> rounded == (if kept % 4 < 2 || (kept % 4 == 2 && !lost && (kept / 4) % 2
            == 0) {
            4 * (kept / 4)
        } else {
            4 * (kept / 4 + 1)
        }),
        pow2(53) <= kept < pow2(54) ==> rounded == (if kept % 2 < 1 || (!lost && (kept / 2) % 2 == 0) {
            2 * (kept / 2)
        } else {
            2 * (kept / 2 + 1)
        }),
        kept < pow2(53) ==> !lost && rounded == kept,
    ensures
        nearest_double(difference, one()) == rounded * pow2(1026),
        round_half_up(nearest_double(difference, one())) == (rounded + pow2(47)) / pow2(48),
{
    let unit = pow2(1026);
    let below = (difference - kept * unit) as nat;
    lemma_powers();
    lemma2_to64();
    lemma_pow2_pos(1026);
    lemma_pow2_adds(48, 1026);
    lemma_pow2_adds(54, 1026);
    lemma_pow2_adds(53, 1026);
    lemma_nearest_of_steps(difference);
    if kept >= pow2(54) {
        assert(pow2(1080) <= difference) by (nonlinear_arith)
            requires
                pow2(1080) == pow2(54) * unit,
                kept >= pow2(54),
                kept * unit <= difference,
                unit > 0,
        ;
        assert(difference < 2 * pow2(1080)) by (nonlinear_arith)
            requires
                pow2(1080) == 0x40_0000_0000_0000 * unit,
                one() == 0x1_0000_0000_0000 * unit,
                difference <= 100 * one(),
                unit > 0,
        ;
        lemma_top_power(difference, 1080);
        lemma_pow2_adds(2, 1026);
        lemma_pow2_adds(52, 1028);
        lemma_pow2_strictly_increases(52, 1080);
        assert(spacing(difference) == 4 * unit) by {
            lemma_fundamental_div_mod_converse(
                pow2(1080) as int,
                pow2(52) as int,
                pow2(1028) as int,
                0,
            );
        }
        let whole = kept / 4;
        let rest = (kept % 4) * unit + below;
        assert(difference == whole * (4 * unit) + rest) by (nonlinear_arith)
            requires
                difference == kept * unit + below,
                kept == 4 * whole + kept % 4,
                rest == (kept % 4) * unit + below,
        ;
        assert(0 <= rest < 4 * unit) by (nonlinear_arith)
            requires
                kept % 4 <= 3,
                below < unit,
                rest == (kept % 4) * unit + below,
        ;
        lemma_fundamental_div_mod_converse(
            difference as int,
            (4 * unit) as int,
            whole as int,
            rest as int,
        );
        assert(2 * rest < 4 * unit <==> kept % 4 < 2) by (nonlinear_arith)
            requires
                below < unit,
                rest == (kept % 4) * unit + below,
        ;
        assert(2 * rest == 4 * unit <==> kept % 4 == 2 && !lost) by (nonlinear_arith)
            requires
                below < unit,
                rest == (kept % 4) * unit + below,
                lost == (below != 0),
        ;
        assert(1 * (4 * unit) == 4 * unit);
        assert(whole * (4 * unit) == (4 * whole) * unit) by (nonlinear_arith);
        assert((whole + 1) * (4 * unit) == (4 * (whole + 1)) * unit) by (nonlinear_arith);
    } else if kept >= pow2(53) {
        assert(pow2(1079) <= difference < 2 * pow2(1079)) by (nonlinear_arith)
            requires
                pow2(1079) == 0x20_0000_0000_0000 * unit,
                0x20_0000_0000_0000 <= kept < 0x40_0000_0000_0000,
                kept * unit <= difference < kept * unit + unit,
                unit > 0,
        ;
        lemma_top_power(difference, 1079);
        lemma_pow2_adds(1, 1026);
        lemma_pow2_adds(52, 1027);
        lemma_pow2_strictly_increases(52, 1079);
        assert(spacing(difference) == 2 * unit) by {
            lemma_fundamental_div_mod_converse(
                pow2(1079) as int,
                pow2(52) as int,
                pow2(1027) as int,
                0,
            );
        }
        let whole = kept / 2;
        let rest = (kept % 2) * unit + below;
        assert(difference == whole * (2 * unit) + rest) by (nonlinear_arith)
            requires
                difference == kept * unit + below,
                kept == 2 * whole + kept % 2,
                rest == (kept % 2) * unit + below,
        ;
        assert(0 <= rest < 2 * unit) by (nonlinear_arith)
            requires
                kept % 2 <= 1,
                below < unit,
                rest == (kept % 2) * unit + below,
        ;
        lemma_fundamental_div_mod_converse(
            difference as int,
            (2 * unit) as int,
            whole as int,
            rest as int,
        );
        assert(2 * rest < 2 * unit <==> kept % 2 < 1) by (nonlinear_arith)
            requires
                below < unit,
                rest == (kept % 2) * unit + below,
        ;
        assert(2 * rest == 2 * unit <==> kept % 2 == 1 && !lost) by (nonlinear_arith)
            requires
                below < unit,
                rest == (kept % 2) * unit + below,
                lost == (below != 0),
        ;
        assert(1 * (2 * unit) == 2 * unit);
        assert(whole * (2 * unit) == (2 * whole) * unit) by (nonlinear_arith);
        assert((whole + 1) * (2 * unit) == (2 * (whole + 1)) * unit) by (nonlinear_arith);
    } else {
        let top = lemma_has_top_power(difference);
        lemma_top_power(difference, top);
        assert(difference < pow2(1079)) by (nonlinear_arith)
            requires
                pow2(1079) == pow2(53) * unit,
                kept < pow2(53),
                difference == kept * unit,
                unit > 0,
        ;
        if top >= 1079 {
            if top > 1079 {
                lemma_pow2_strictly_increases(1079, top);
            }
            assert(false);
        }
        lemma_spacing_positive(difference);
        if pow2(top) >= pow2(52) {
            if top < 52 {
                lemma_pow2_strictly_increases(top, 52);
            }
            let low = (top - 52) as nat;
            lemma_pow2_adds(low, 52);
            lemma_pow2_pos(low);
            assert(spacing(difference) == pow2(low)) by {
                lemma_fundamental_div_mod_converse(
                    pow2(top) as int,
                    pow2(52) as int,
                    pow2(low) as int,
                    0,
                );
            }
            let high = (1026 - low) as nat;
            lemma_pow2_adds(low, high);
            assert(difference == (kept * pow2(high)) * pow2(low)) by (nonlinear_arith)
                requires
                    difference == kept * unit,
                    unit == pow2(low) * pow2(high),
            ;
            lemma_nearest_of_multiple(kept * pow2(high), pow2(low));
        } else {
            lemma_nearest_of_multiple(difference, 1);
        }
    }
    assert(nearest_double(difference, one()) == rounded * unit);
    let half = pow2(47) * unit;
    lemma_pow2_adds(47, 1026);
    lemma_pow2_unfold(1074);
    assert(one() / 2 == half);
    let count = (rounded + pow2(47)) / pow2(48);
    let rest = (rounded + pow2(47)) % pow2(48);
    lemma_fundamental_div_mod((rounded + pow2(47)) as int, pow2(48) as int);
    assert(rounded * unit + half == count * one() + rest * unit) by (nonlinear_arith)
        requires
            half == 0x8000_0000_0000 * unit,
            one() == 0x1_0000_0000_0000 * unit,
            rounded + 0x8000_0000_0000 == 0x1_0000_0000_0000 * count + rest,
    ;
    assert(0 <= rest * unit < one()) by (nonlinear_arith)
        requires
            one() == 0x1_0000_0000_0000 * unit,
            0 <= rest < 0x1_0000_0000_0000,
            unit > 0,
    ;
    lemma_fundamental_div_mod_converse(
        (rounded * unit + half) as int,
        one() as int,
        count as int,
        (rest * unit) as int,
    );
}

/// A finite double of 100 or more, by its parts.
#[verifier::spinoff_prover]
proof fn lemma_full_by_parts(bits: u64)
    requires
        !is_negative(bits),
        exponent_of(bits) < 2047,
    ensures
        is_full(bits) <==> exponent_of(bits) > 1029 || (exponent_of(bits) == 1029
            && 0x10_0000_0000_0000 + fraction_of(bits) >= 100 * 0x4000_0000_0000),
{
    let exponent = exponent_of(bits);
    let mantissa = (0x10_0000_0000_0000 + fraction_of(bits)) as nat;
    let unit = pow2(1028);
    lemma_powers();
    lemma_pow2_pos(1028);
    lemma_pow2_adds(46, 1028);
    if exponent == 0 {
        lemma_pow2_strictly_increases(52, 1074);
    } else if exponent == 1029 {
        assert(mantissa * unit >= 100 * (0x4000_0000_0000 * unit) <==> mantissa >= 100
            * 0x4000_0000_0000) by (nonlinear_arith)
            requires
                unit > 0,
        ;
    } else if exponent > 1029 {
        let more = pow2((exponent - 1029) as nat);
        lemma_pow2_adds((exponent - 1029) as nat, 1028);
        lemma_pow2_adds(1, (exponent - 1030) as nat);
        lemma_pow2_pos((exponent - 1030) as nat);
        lemma2_to64();
        assert(mantissa * (more * unit) >= 100 * (0x4000_0000_0000 * unit)) by (nonlinear_arith)
            requires
                mantissa >= 0x10_0000_0000_0000,
                more >= 2,
                unit > 0,
        ;
    } else {
        let step = pow2((exponent - 1) as nat);
        let more = pow2((1029 - exponent) as nat);
        lemma_pow2_adds((1029 - exponent) as nat, (exponent - 1) as nat);
        lemma_pow2_adds(1, (1028 - exponent) as nat);
        lemma_pow2_pos((1028 - exponent) as nat);
        lemma_pow2_pos((exponent - 1) as nat);
        lemma2_to64();
        assert(mantissa * step < 100 * (0x4000_0000_0000 * unit)) by (nonlinear_arith)
            requires
                mantissa < 0x20_0000_0000_0000,
                more >= 2,
                unit == more * step,
                step > 0,
        ;
    }
}

/// Whether a double is at least 100.
pub fn double_is_full(bits: u64) -> (full: bool)
    ensures
        full == is_full(bits),
{
    let exponent: u64 = (bits / 0x10_0000_0000_0000) % 2048;
    let fraction: u64 = bits % 0x10_0000_0000_0000;
    if bits >= 0x8000_0000_0000_0000 {
        return false;
    }
    if exponent == 2047 {
        return fraction == 0;
    }
    proof {
        lemma_full_by_parts(bits);
    }
    exponent > 1029 || (exponent == 1029 && 0x10_0000_0000_0000 + fraction >= 100
        * 0x4000_0000_0000)
}

/// What is left of 100 percent is a percentage.
pub proof fn lemma_remaining_is_a_percentage(bits: u64)
    ensures
        0 <= remaining_after(bits) <= 100,
{
    if !is_nan(bits) && !is_negative(bits) && !is_full(bits) {
        let difference = (100 * one() - magnitude(bits)) as nat;
        let unit = spacing(difference);
        let nearest = nearest_double(difference, one());
        lemma_nearest_of_steps(difference);
        lemma_spacing_positive(difference);
        lemma_spacing_bound(difference);
        lemma_nearest_multiple_bounds(difference, 1, unit);
        lemma_powers();
        lemma_pow2_strictly_increases(64, 1074);
        assert(4 * unit <= one());
        let sum = nearest + one() / 2;
        assert(sum < 101 * one());
        assert(sum / one() < 101) by (nonlinear_arith)
            requires
                sum < 101 * one(),
                one() > 0,
        ;
    }
}

/// What is left of 100 percent after `bits` percent are used.
#[verifier::spinoff_prover]
pub fn double_remaining(bits: u64) -> (remaining: i32)
    ensures
        remaining == remaining_after(bits),
        0 <= remaining <= 100,
{
    let exponent: u64 = (bits / 0x10_0000_0000_0000) % 2048;
    let fraction: u64 = bits % 0x10_0000_0000_0000;
    if exponent == 2047 && fraction != 0 {
        return 0;
    }
    if bits >= 0x8000_0000_0000_0000 {
        return 100;
    }
    if double_is_full(bits) {
        return 0;
    }
    proof {
        lemma_full_by_parts(bits);
        lemma_powers();
        lemma_pow2_pos(1026);
        lemma_pow2_adds(48, 1026);
    }
    let (cut, lost) = cut_after_48_places(bits);
    let hundred: u64 = 100 * 0x1_0000_0000_0000;
    let ghost unit = pow2(1026);
    proof {
        assert(cut < hundred) by (nonlinear_arith)
            requires
                cut * unit <= magnitude(bits),
                magnitude(bits) < 100 * one(),
                one() == 0x1_0000_0000_0000 * unit,
                hundred == 100 * 0x1_0000_0000_0000,
                unit > 0,
        ;
    }
    let kept: u64 = if lost {
        hundred - cut - 1
    } else {
        hundred - cut
    };
    let rounded: u64 = if kept >= 0x40_0000_0000_0000 {
        if kept % 4 < 2 || (kept % 4 == 2 && !lost && (kept / 4) % 2 == 0) {
            4 * (kept / 4)
        } else {
            4 * (kept / 4 + 1)
        }
    } else if kept >= 0x20_0000_0000_0000 {
        if kept % 2 < 1 || (!lost && (kept / 2) % 2 == 0) {
            2 * (kept / 2)
        } else {
            2 * (kept / 2 + 1)
        }
    } else {
        kept
    };
    let remaining: u64 = (rounded + 0x8000_0000_0000) / 0x1_0000_0000_0000;
    proof {
        let difference = (100 * one() - magnitude(bits)) as nat;
        assert(kept * unit <= difference < kept * unit + unit) by (nonlinear_arith)
            requires
                cut * unit <= magnitude(bits) < cut * unit + unit,
                lost == (magnitude(bits) != cut * unit),
                kept == (if lost { hundred - cut - 1 } else { hundred - cut }),
                difference == 100 * one() - magnitude(bits),
                one() == 0x1_0000_0000_0000 * unit,
                hundred == 100 * 0x1_0000_0000_0000,
        ;
        assert(lost == (difference != kept * unit)) by (nonlinear_arith)
            requires
                cut * unit <= magnitude(bits) < cut * unit + unit,
                lost == (magnitude(bits) != cut * unit),
                kept == (if lost { hundred - cut - 1 } else { hundred - cut }),
                difference == 100 * one() - magnitude(bits),
                one() == 0x1_0000_0000_0000 * unit,
                hundred == 100 * 0x1_0000_0000_0000,
        ;
        if kept < 0x20_0000_0000_0000 {
            lemma_small_difference_is_exact(bits, cut);
        }
        lemma_rounded_difference(difference, kept as nat, lost, rounded as nat);
    }
    remaining as i32
}

/// Only a double of 64 or more leaves less than 32, and such a double has few binary places.
#[verifier::spinoff_prover]
proof fn lemma_small_difference_is_exact(bits: u64, cut: u64)
    requires
        cut * pow2(1026) <= magnitude(bits) < cut * pow2(1026) + pow2(1026),
        cut >= 68 * 0x1_0000_0000_0000,
        exponent_of(bits) <= 1029,
    ensures
        exponent_of(bits) == 1029,
{
    let exponent = exponent_of(bits);
    let unit = pow2(1026);
    lemma_powers();
    lemma2_to64();
    lemma_pow2_pos(1026);
    if exponent == 0 {
        lemma_pow2_strictly_increases(52, 1026);
        assert(magnitude(bits) >= unit) by (nonlinear_arith)
            requires
                cut * unit <= magnitude(bits),
                cut >= 1,
        ;
    } else if exponent <= 1028 {
        let mantissa = (0x10_0000_0000_0000 + fraction_of(bits)) as nat;
        let step = pow2((exponent - 1) as nat);
        lemma_pow2_pos((exponent - 1) as nat);
        lemma_pow2_adds(1, 1026);
        if exponent < 1028 {
            lemma_pow2_strictly_increases((exponent - 1) as nat, 1027);
        }
        assert(false) by (nonlinear_arith)
            requires
                cut * unit <= mantissa * step,
                cut >= 68 * 0x1_0000_0000_0000,
                mantissa < 0x20_0000_0000_0000,
                step <= 2 * unit,
                unit > 0,
        ;
    }
}

/// A share of a total in percent, as double-precision arithmetic gives it: both numbers become
/// doubles, their quotient and its hundredfold are each rounded to a double, and the result to a
/// whole number of at most 100.
pub open spec fn share_in_percent(part: nat, total: nat) -> int {
    let quotient = nearest_double(nearest_double(part, 1), nearest_double(total, 1));
    let percent = round_half_up(nearest_double(quotient * 100, one()));
    if percent > 100 {
        100
    } else {
        percent as int
    }
}

/// Scaling a ratio and the unit alike scales the nearest multiple.
#[verifier::spinoff_prover]
proof fn lemma_nearest_multiple_scales(num: nat, den: nat, unit: nat, factor: nat)
    requires
        den > 0,
        unit > 0,
        factor > 0,
    ensures
        nearest_multiple(num * factor, den, unit * factor) == nearest_multiple(num, den, unit)
            * factor,
{
    let step = den * unit;
    let big = den * (unit * factor);
    assert(step > 0) by (nonlinear_arith)
        requires
            step == den * unit,
            den > 0,
            unit > 0,
    ;
    assert(big == step * factor) by (nonlinear_arith)
        requires
            step == den * unit,
            big == den * (unit * factor),
    ;
    let whole = num as int / step as int;
    let rest = num as int % step as int;
    lemma_fundamental_div_mod(num as int, step as int);
    assert(num * factor == whole * big + rest * factor) by (nonlinear_arith)
        requires
            num == step * whole + rest,
            big == step * factor,
    ;
    assert(0 <= rest * factor < big) by (nonlinear_arith)
        requires
            0 <= rest < step,
            big == step * factor,
            factor > 0,
    ;
    lemma_fundamental_div_mod_converse((num * factor) as int, big as int, whole, rest * factor);
    assert(2 * (rest * factor) < big <==> 2 * rest < step) by (nonlinear_arith)
        requires
            big == step * factor,
            factor > 0,
    ;
    assert(2 * (rest * factor) == big <==> 2 * rest == step) by (nonlinear_arith)
        requires
            big == step * factor,
            factor > 0,
    ;
    assert(whole * (unit * factor) == (whole * unit) * factor) by (nonlinear_arith);
    assert((whole + 1) * (unit * factor) == ((whole + 1) * unit) * factor) by (nonlinear_arith);
}

/// The spacing at a number of 53 binary digits times a power of two.
proof fn lemma_spacing(x: nat, k: nat)
    requires
        pow2(52) * pow2(k) <= x < pow2(53) * pow2(k),
    ensures
        spacing(x) == pow2(k),
{
    lemma_pow2_adds(52, k);
    lemma_pow2_adds(53, k);
    lemma_pow2_unfold(53 + k);
    lemma_pow2_pos(52);
    lemma_pow2_pos(k);
    lemma_top_power(x, 52 + k);
    if k > 0 {
        lemma_pow2_strictly_increases(52, 52 + k);
    }
    assert(pow2(52 + k) == pow2(k) * pow2(52) + 0) by (nonlinear_arith)
        requires
            pow2(52 + k) == pow2(52) * pow2(k),
    ;
    lemma_fundamental_div_mod_converse(pow2(52 + k) as int, pow2(52) as int, pow2(k) as int, 0);
}

/// The spacing at `x` is at most `x` over 2 to the 52nd, or one smallest step.
proof fn lemma_spacing_bound(x: nat)
    ensures
        spacing(x) == 1 || spacing(x) * 0x10_0000_0000_0000 <= x,
{
    lemma_powers();
    if x > 0 {
        let top = lemma_has_top_power(x);
        lemma_top_power(x, top);
        lemma_fundamental_div_mod(pow2(top) as int, pow2(52) as int);
    }
}

/// A nearest multiple is less than one unit away.
#[verifier::spinoff_prover]
proof fn lemma_nearest_multiple_bounds(num: nat, den: nat, unit: nat)
    requires
        den > 0,
        unit > 0,
    ensures
        num / den < nearest_multiple(num, den, unit) + unit,
        nearest_multiple(num, den, unit) <= num / den + unit,
        num / den >= 0x10_0000_0000_0000 * unit ==> nearest_multiple(num, den, unit)
            >= 0x10_0000_0000_0000 * unit,
{
    let step = den * unit;
    let floor = num as int / den as int;
    assert(step > 0) by (nonlinear_arith)
        requires
            step == den * unit,
            den > 0,
            unit > 0,
    ;
    let whole = num as int / step as int;
    let rest = num as int % step as int;
    lemma_fundamental_div_mod(num as int, step as int);
    lemma_fundamental_div_mod(num as int, den as int);
    assert(0 <= whole && whole * unit <= floor < whole * unit + unit) by (nonlinear_arith)
        requires
            num == step * whole + rest,
            0 <= rest < step,
            step == den * unit,
            num == den * floor + num as int % den as int,
            0 <= num as int % den as int,
            (num as int % (den as int)) < den,
            den > 0,
            unit > 0,
            num >= 0,
    ;
    assert((whole + 1) * unit == whole * unit + unit) by (nonlinear_arith);
    if floor >= 0x10_0000_0000_0000 * unit {
        assert(whole >= 0x10_0000_0000_0000) by (nonlinear_arith)
            requires
                floor >= 0x10_0000_0000_0000 * unit,
                floor < whole * unit + unit,
                unit > 0,
        ;
        assert(whole * unit >= 0x10_0000_0000_0000 * unit) by (nonlinear_arith)
            requires
                whole >= 0x10_0000_0000_0000,
                unit > 0,
        ;
    }
}

/// A ratio of doubles is a ratio of the numbers that they are.
#[verifier::spinoff_prover]
proof fn lemma_nearest_of_ratio(n: nat, d: nat)
    requires
        d > 0,
    ensures
        nearest_double(n * one(), d * one()) == nearest_double(n, d),
{
    lemma_pow2_pos(1074);
    let num = n * one();
    lemma_spacing_positive(num / d);
    lemma_fundamental_div_mod(num as int, d as int);
    let floor = num as int / d as int;
    let rest = num as int % d as int;
    assert(num * one() == floor * (d * one()) + rest * one()) by (nonlinear_arith)
        requires
            num == d * floor + rest,
    ;
    assert(0 <= rest * one() < d * one()) by (nonlinear_arith)
        requires
            0 <= rest < d,
            one() > 0,
    ;
    lemma_fundamental_div_mod_converse(
        (num * one()) as int,
        (d * one()) as int,
        floor,
        rest * one(),
    );
    lemma_nearest_multiple_of_scaled(num, d, spacing(num / d), one());
}

/// An integer as a double, which has room for 53 binary digits.
#[verifier::spinoff_prover]
fn to_double(value: u64) -> (double: u64)
    requires
        value <= i64::MAX,
    ensures
        nearest_double(value as nat, 1) == double * one(),
        double <= 0x8000_0000_0000_0000,
        value > 0 ==> double > 0,
{
    proof {
        lemma_powers();
        lemma2_to64();
        lemma_pow2_pos(1074);
        assert((value as nat * one()) / 1 == value as nat * one());
    }
    if value < 0x20_0000_0000_0000 {
        proof {
            if value > 0 {
                let top = lemma_has_top_power(value as nat);
                if top >= 53 {
                    if top > 53 {
                        lemma_pow2_strictly_increases(53, top);
                    }
                    assert(false);
                }
                let up = (52 - top) as nat;
                let low = (1022 + top) as nat;
                lemma_pow2_adds(up, low);
                lemma_pow2_adds(up, top);
                lemma_pow2_unfold(53);
                lemma_pow2_pos(up);
                lemma_pow2_pos(low);
                let grown = value as nat * pow2(up);
                assert(pow2(52) <= grown < pow2(53)) by (nonlinear_arith)
                    requires
                        pow2(52) == pow2(up) * pow2(top),
                        pow2(53) == 2 * pow2(52),
                        grown == value as nat * pow2(up),
                        pow2(top) <= value < 2 * pow2(top),
                        pow2(up) > 0,
                ;
                assert(value as nat * one() == grown * pow2(low)) by (nonlinear_arith)
                    requires
                        one() == pow2(up) * pow2(low),
                        grown == value as nat * pow2(up),
                ;
                assert(pow2(52) * pow2(low) <= grown * pow2(low) < pow2(53) * pow2(low))
                    by (nonlinear_arith)
                    requires
                        pow2(52) <= grown < pow2(53),
                        pow2(low) > 0,
                ;
                lemma_spacing(value as nat * one(), low);
                lemma_nearest_of_multiple(grown, pow2(low));
            } else {
                assert(0nat * one() == 0);
                lemma_nearest_of_multiple(0, 1);
            }
        }
        return value;
    }
    let mut unit: u64 = 2;
    let mut places: u64 = 1;
    while value / unit >= 0x20_0000_0000_0000
        invariant
            value <= i64::MAX,
            unit == pow2(places as nat),
            places <= 10,
            0 < unit <= 1024,
            value >= 0x10_0000_0000_0000 * unit,
        decreases 10 - places,
    {
        proof {
            lemma_pow2_unfold((places + 1) as nat);
            lemma_fundamental_div_mod(value as int, unit as int);
            assert(value >= 0x20_0000_0000_0000 * unit) by (nonlinear_arith)
                requires
                    value as int == unit as int * (value as int / unit as int) + value as int
                        % unit as int,
                    value as int % unit as int >= 0,
                    value as int / unit as int >= 0x20_0000_0000_0000,
            ;
            lemma2_to64();
            assert(places < 10);
            if places + 1 < 10 {
                lemma_pow2_strictly_increases((places + 1) as nat, 10);
            }
        }
        unit = unit * 2;
        places = places + 1;
    }
    let whole = value / unit;
    let rest = value % unit;
    proof {
        lemma_fundamental_div_mod(value as int, unit as int);
        assert(0x10_0000_0000_0000 <= whole) by (nonlinear_arith)
            requires
                value as int == unit as int * whole as int + rest as int,
                rest < unit,
                value >= 0x10_0000_0000_0000 * unit,
        ;
        assert(whole * unit + unit <= 0x20_0000_0000_0000 * 1024) by (nonlinear_arith)
            requires
                whole < 0x20_0000_0000_0000,
                unit <= 1024,
                unit > 0,
        ;
        assert((whole + 1) * unit == whole * unit + unit) by (nonlinear_arith);
        assert(whole * unit > 0) by (nonlinear_arith)
            requires
                whole > 0,
                unit > 0,
        ;
        let low = (places + 1074) as nat;
        lemma_pow2_adds(places as nat, 1074);
        let steps = value as nat * one();
        assert(pow2(52) * (unit * one()) <= steps < pow2(53) * (unit * one())) by (nonlinear_arith)
            requires
                pow2(52) == 0x10_0000_0000_0000,
                pow2(53) == 0x20_0000_0000_0000,
                steps == value as nat * one(),
                value >= 0x10_0000_0000_0000 * unit,
                value as int == unit as int * whole as int + rest as int,
                rest < unit,
                whole < 0x20_0000_0000_0000,
                one() > 0,
        ;
        lemma_spacing(steps, low);
        lemma_nearest_multiple_scales(value as nat, 1, unit as nat, one());
        assert(1 * unit == unit);
    }
    if 2 * rest < unit || (2 * rest == unit && whole % 2 == 0) {
        whole * unit
    } else {
        (whole + 1) * unit
    }
}

/// The nearest multiple of a ratio in 128 bits.
#[verifier::spinoff_prover]
fn nearest_whole(num: u128, den: u128) -> (nearest: u128)
    requires
        den > 0,
        num < 0x8000_0000_0000_0000_0000_0000_0000_0000,
        den < 0x8000_0000_0000_0000_0000_0000_0000_0000,
    ensures
        nearest == nearest_multiple(num as nat, den as nat, 1),
        num / den <= nearest <= num / den + 1,
{
    let whole = num / den;
    let rest = num % den;
    proof {
        lemma_fundamental_div_mod(num as int, den as int);
        assert(whole <= num) by (nonlinear_arith)
            requires
                num as int == den as int * whole as int + rest as int,
                den >= 1,
                rest >= 0,
        ;
        assert(den * 1 == den);
    }
    if 2 * rest < den || (2 * rest == den && whole % 2 == 0) {
        whole
    } else {
        whole + 1
    }
}

/// A quotient of at least one is a full share.
#[verifier::spinoff_prover]
proof fn lemma_full_share(part: nat, total: nat)
    requires
        0 < total <= part,
    ensures
        round_half_up(nearest_double(nearest_double(part, total) * 100, one())) >= 100,
{
    lemma_powers();
    lemma_pow2_pos(1074);
    lemma_pow2_unfold(1074);
    let num = part * one();
    let floor = num / total;
    assert(floor >= one()) by {
        lemma_fundamental_div_mod(num as int, total as int);
        assert(floor >= one()) by (nonlinear_arith)
            requires
                num as int == total as int * floor as int + num as int % total as int,
                num as int % (total as int) < total,
                num == part * one(),
                part >= total > 0,
                one() > 0,
        ;
    }
    let top = lemma_has_top_power(floor);
    lemma_top_power(floor, top);
    if top < 1074 {
        lemma_pow2_strictly_increases(top, 1074);
        lemma_pow2_unfold(1074);
        if top < 1073 {
            lemma_pow2_strictly_increases(top, 1073);
        }
        assert(false);
    }
    let unit = spacing(floor);
    lemma_pow2_adds(52, (top - 52) as nat);
    lemma_pow2_unfold((top + 1) as nat);
    lemma_pow2_adds(53, (top - 52) as nat);
    lemma_spacing(floor, (top - 52) as nat);
    lemma_pow2_pos((top - 52) as nat);
    if top > 1074 {
        lemma_pow2_strictly_increases(1074, top);
    }
    lemma_nearest_multiple_bounds(num, total, unit);
    let quotient = nearest_double(part, total);
    assert(quotient >= one());
    let hundredfold = quotient * 100;
    lemma_nearest_of_steps(hundredfold);
    lemma_spacing_bound(hundredfold);
    lemma_spacing_positive(hundredfold);
    lemma_nearest_multiple_bounds(hundredfold, 1, spacing(hundredfold));
    lemma_pow2_strictly_increases(64, 1074);
    let percent = nearest_double(hundredfold, one());
    assert(percent + one() / 2 >= 100 * one());
    assert((percent + one() / 2) / one() >= 100) by (nonlinear_arith)
        requires
            percent + one() / 2 >= 100 * one(),
            one() > 0,
    ;
}

/// A quotient below 1/256 rounds to no share at all.
#[verifier::spinoff_prover]
proof fn lemma_empty_share(part: nat, total: nat)
    requires
        256 * part < total,
    ensures
        round_half_up(nearest_double(nearest_double(part, total) * 100, one())) == 0,
{
    lemma_powers();
    lemma_pow2_pos(1074);
    lemma_pow2_strictly_increases(64, 1074);
    let num = part * one();
    let floor = num / total;
    assert(256 * floor <= one()) by {
        lemma_fundamental_div_mod(num as int, total as int);
        assert(256 * floor <= one()) by (nonlinear_arith)
            requires
                num as int == total as int * floor as int + num as int % total as int,
                num as int % (total as int) >= 0,
                num == part * one(),
                256 * part < total,
                one() > 0,
        ;
    }
    lemma_spacing_bound(floor);
    lemma_spacing_positive(floor);
    lemma_nearest_multiple_bounds(num, total, spacing(floor));
    let quotient = nearest_double(part, total);
    let hundredfold = quotient * 100;
    lemma_nearest_of_steps(hundredfold);
    lemma_spacing_bound(hundredfold);
    lemma_spacing_positive(hundredfold);
    lemma_nearest_multiple_bounds(hundredfold, 1, spacing(hundredfold));
    let percent = nearest_double(hundredfold, one());
    lemma_pow2_unfold(1074);
    assert(percent + one() / 2 < one());
    assert((percent + one() / 2) / one() == 0) by (nonlinear_arith)
        requires
            percent + one() / 2 < one(),
    ;
}

/// A quotient of 53 binary digits and its hundredfold.
#[verifier::spinoff_prover]
proof fn lemma_middling_share(part: nat, total: nat, places: nat, mantissa: nat, hundredfold: nat, unit: nat, rounded: nat)
    requires
        0 < total,
        1 <= places <= 1000,
        0x10_0000_0000_0000 <= (part * pow2(places)) / total < 0x20_0000_0000_0000,
        mantissa == nearest_multiple(part * pow2(places), total, 1),
        0x10_0000_0000_0000 <= mantissa <= 0x20_0000_0000_0000,
        hundredfold == mantissa * 100,
        unit == (if hundredfold < 0x800_0000_0000_0000 { 64nat } else { 128nat }),
        rounded == nearest_multiple(hundredfold, unit, 1) * unit,
    ensures
        round_half_up(nearest_double(nearest_double(part, total) * 100, one())) == (rounded + pow2(
            (places - 1) as nat,
        )) / pow2(places),
{
    lemma_powers();
    lemma2_to64();
    lemma2_to64_rest();
    lemma_pow2_pos(1074);
    lemma_pow2_pos(places);
    let low = (1074 - places) as nat;
    let fine = pow2(low);
    lemma_pow2_pos(low);
    lemma_pow2_adds(places, low);
    let num = part * one();
    let grown = part * pow2(places);
    let whole = grown / total;
    assert(num == grown * fine) by (nonlinear_arith)
        requires
            num == part * one(),
            one() == pow2(places) * fine,
            grown == part * pow2(places),
    ;
    lemma_fundamental_div_mod(grown as int, total as int);
    let floor = num / total;
    lemma_fundamental_div_mod(num as int, total as int);
    assert(whole * fine <= floor < (whole + 1) * fine) by (nonlinear_arith)
        requires
            grown as int == total as int * whole as int + grown as int % total as int,
            0 <= grown as int % (total as int) < total,
            num as int == total as int * floor as int + num as int % total as int,
            0 <= num as int % (total as int) < total,
            num == grown * fine,
            fine > 0,
            total > 0,
    ;
    assert(pow2(52) * fine <= floor < pow2(53) * fine) by (nonlinear_arith)
        requires
            whole * fine <= floor < (whole + 1) * fine,
            pow2(52) <= whole,
            whole + 1 <= pow2(53),
            fine > 0,
    ;
    lemma_spacing(floor, low);
    lemma_nearest_multiple_scales(grown, total, 1, fine);
    assert(1 * fine == fine);
    let quotient = nearest_double(part, total);
    assert(quotient == mantissa * fine);
    let steps = quotient * 100;
    assert(steps == hundredfold * fine) by (nonlinear_arith)
        requires
            steps == quotient * 100,
            quotient == mantissa * fine,
            hundredfold == mantissa * 100,
    ;
    lemma_nearest_of_steps(steps);
    let places_of_unit: nat = if hundredfold < 0x800_0000_0000_0000 {
        6
    } else {
        7
    };
    lemma_pow2_adds(places_of_unit, low);
    assert(pow2(52) * (unit * fine) <= steps < pow2(53) * (unit * fine)) by (nonlinear_arith)
        requires
            pow2(52) == 0x10_0000_0000_0000,
            pow2(53) == 0x20_0000_0000_0000,
            steps == hundredfold * fine,
            0x10_0000_0000_0000 * unit <= hundredfold < 0x20_0000_0000_0000 * unit,
            fine > 0,
    ;
    lemma_spacing(steps, places_of_unit + low);
    lemma_nearest_multiple_scales(hundredfold, 1, unit, fine);
    // The nearest multiple of the unit is as many units as the nearest whole quotient by it.
    assert(nearest_multiple(hundredfold, 1, unit) == rounded) by {
        assert(unit * 1 == unit && 1 * unit == unit);
    }
    let percent = nearest_double(steps, one());
    assert(percent == rounded * fine);
    let half = pow2((places - 1) as nat);
    lemma_pow2_unfold(places);
    lemma_pow2_unfold(1074);
    lemma_pow2_adds((places - 1) as nat, low);
    assert(one() / 2 == half * fine);
    let count = (rounded + half) / pow2(places);
    let rest = (rounded + half) % pow2(places);
    lemma_fundamental_div_mod((rounded + half) as int, pow2(places) as int);
    assert(rounded * fine + half * fine == count * one() + rest * fine) by (nonlinear_arith)
        requires
            one() == pow2(places) * fine,
            rounded + half == pow2(places) * count + rest,
    ;
    assert(0 <= rest * fine < one()) by (nonlinear_arith)
        requires
            one() == pow2(places) * fine,
            0 <= rest < pow2(places),
            fine > 0,
    ;
    lemma_fundamental_div_mod_converse(
        (rounded * fine + half * fine) as int,
        one() as int,
        count as int,
        (rest * fine) as int,
    );
}

/// A share of a total in percent, as double-precision arithmetic gives it.
#[verifier::spinoff_prover]
pub fn percentage_of(part: u64, total: u64) -> (percent: i32)
    requires
        part <= i64::MAX,
        0 < total <= i64::MAX,
    ensures
        percent == share_in_percent(part as nat, total as nat),
        0 <= percent <= 100,
{
    let part_double = to_double(part);
    let total_double = to_double(total);
    proof {
        lemma_nearest_of_ratio(part_double as nat, total_double as nat);
    }
    if part_double >= total_double {
        proof {
            lemma_full_share(part_double as nat, total_double as nat);
        }
        return 100;
    }
    let numerator: u128 = part_double as u128;
    let denominator: u128 = total_double as u128;
    if 256 * numerator < denominator {
        proof {
            lemma_empty_share(part_double as nat, total_double as nat);
        }
        return 0;
    }
    let mut places: u64 = 53;
    let mut power: u128 = 0x20_0000_0000_0000;
    proof {
        lemma_powers();
        lemma_fundamental_div_mod((numerator * power) as int, denominator as int);
        assert((numerator * power) as int / (denominator as int) < 0x20_0000_0000_0000)
            by (nonlinear_arith)
            requires
                (numerator * power) as int == denominator as int * ((numerator * power) as int
                    / denominator as int) + (numerator * power) as int % denominator as int,
                (numerator * power) as int % denominator as int >= 0,
                numerator < denominator,
                power == 0x20_0000_0000_0000,
        ;
        assert(numerator * power < 0x8000_0000_0000_0000_0000_0000_0000_0000)
            by (nonlinear_arith)
            requires
                numerator <= 0x8000_0000_0000_0000,
                power == 0x20_0000_0000_0000,
        ;
    }
    while (numerator * power) / denominator < 0x10_0000_0000_0000
        invariant
            0 < denominator <= 0x8000_0000_0000_0000,
            numerator <= 0x8000_0000_0000_0000,
            256 * numerator >= denominator,
            53 <= places <= 60,
            power == pow2(places as nat),
            0x20_0000_0000_0000 <= power <= 0x1000_0000_0000_0000,
            numerator * power < 0x8000_0000_0000_0000_0000_0000_0000_0000,
            (numerator * power) as int / (denominator as int) < 0x20_0000_0000_0000,
        decreases 60 - places,
    {
        proof {
            lemma2_to64_rest();
            let grown = (numerator * power) as int;
            lemma_fundamental_div_mod(grown, denominator as int);
            assert(power < 0x1000_0000_0000_0000) by (nonlinear_arith)
                requires
                    grown == numerator * power,
                    grown == denominator as int * (grown / denominator as int) + grown
                        % denominator as int,
                    grown % (denominator as int) < denominator,
                    grown / (denominator as int) < 0x10_0000_0000_0000,
                    256 * numerator >= denominator,
                    denominator > 0,
            ;
            assert(places < 60);
            lemma_pow2_unfold((places + 1) as nat);
            if places + 1 < 60 {
                lemma_pow2_strictly_increases((places + 1) as nat, 60);
            }
            let doubled = (numerator * (power * 2)) as int;
            assert(doubled == 2 * grown) by (nonlinear_arith)
                requires
                    grown == numerator * power,
                    doubled == numerator * (power * 2),
            ;
            assert(doubled < 0x8000_0000_0000_0000_0000_0000_0000_0000) by (nonlinear_arith)
                requires
                    doubled == numerator * (power * 2),
                    numerator <= 0x8000_0000_0000_0000,
                    power * 2 <= 0x1000_0000_0000_0000,
            ;
            lemma_fundamental_div_mod(doubled, denominator as int);
            assert(doubled / (denominator as int) < 0x20_0000_0000_0000) by (nonlinear_arith)
                requires
                    doubled == 2 * grown,
                    grown == denominator as int * (grown / denominator as int) + grown
                        % denominator as int,
                    grown % (denominator as int) < denominator,
                    grown / (denominator as int) < 0x10_0000_0000_0000,
                    doubled == denominator as int * (doubled / denominator as int) + doubled
                        % denominator as int,
                    doubled % denominator as int >= 0,
                    denominator > 0,
            ;
        }
        power = power * 2;
        places = places + 1;
    }
    let mantissa = nearest_whole(numerator * power, denominator);
    let hundredfold = mantissa * 100;
    let unit: u128 = if hundredfold < 0x800_0000_0000_0000 {
        64
    } else {
        128
    };
    let rounded = nearest_whole(hundredfold, unit) * unit;
    proof {
        lemma_pow2_unfold(places as nat);
        lemma_middling_share(
            part_double as nat,
            total_double as nat,
            places as nat,
            mantissa as nat,
            hundredfold as nat,
            unit as nat,
            rounded as nat,
        );
    }
    let percent: u128 = (rounded + power / 2) / power;
    if percent > 100 {
        100
    } else {
        percent as i32
    }
}

/// What a double leaves of 100 percent lies within five eighths of a percent of the exact difference.
/// All is left where nothing is used, nothing where all is, and nothing where no number is told.
pub proof fn remaining_is_near_the_difference(bits: u64)
    ensures
        is_nan(bits) ==> remaining_after(bits) == 0 && !is_full(bits),
        is_negative(bits) ==> !is_full(bits),
        !is_negative(bits) && exponent_of(bits) < 2047 ==> is_full(bits) == (magnitude(bits) >= 100
            * one()),
        !is_nan(bits) && !is_negative(bits) && exponent_of(bits) == 2047 ==> is_full(bits),
        !is_nan(bits) && is_negative(bits) ==> remaining_after(bits) == 100,
        !is_nan(bits) && !is_negative(bits) && exponent_of(bits) == 2047 ==> remaining_after(bits)
            == 0,
        !is_negative(bits) && exponent_of(bits) < 2047 && magnitude(bits) >= 100 * one()
            ==> remaining_after(bits) == 0,
        !is_negative(bits) && exponent_of(bits) < 2047 && magnitude(bits) < 100 * one() ==> {
            let difference = 100 * one() - magnitude(bits);
            &&& 8 * (remaining_after(bits) * one()) <= 8 * difference + 5 * one()
            &&& 8 * (remaining_after(bits) * one()) >= 8 * difference - 5 * one()
        },
{
    if !is_nan(bits) && !is_negative(bits) && !is_full(bits) {
        let difference = (100 * one() - magnitude(bits)) as nat;
        let unit = spacing(difference);
        let nearest = nearest_double(difference, one());
        lemma_nearest_of_steps(difference);
        lemma_spacing_positive(difference);
        lemma_spacing_bound(difference);
        lemma_nearest_multiple_bounds(difference, 1, unit);
        lemma_powers();
        lemma_pow2_strictly_increases(64, 1074);
        lemma_pow2_unfold(1074);
        assert(8 * unit <= one());
        let sum = nearest + one() / 2;
        lemma_fundamental_div_mod(sum as int, one() as int);
        assert(one() * (sum / one()) == (sum / one()) * one()) by (nonlinear_arith);
    }
}

/// A whole number as a double is at most a millionth of itself away.
proof fn lemma_near_number(number: nat)
    ensures
        1_000_000 * nearest_double(number, 1) <= 1_000_001 * (number * one()),
        1_000_000 * nearest_double(number, 1) >= 999_999 * (number * one()),
{
    lemma_powers();
    lemma_pow2_strictly_increases(64, 1074);
    let steps = number * one();
    let unit = spacing(steps);
    lemma_spacing_positive(steps);
    lemma_spacing_bound(steps);
    if number == 0 {
        assert(steps == 0) by (nonlinear_arith)
            requires
                number == 0,
                steps == number * one(),
        ;
        assert(unit == 1);
        assert(nearest_multiple(0, 1, 1) == 0);
    } else {
        assert(steps >= one()) by (nonlinear_arith)
            requires
                number >= 1,
                steps == number * one(),
        ;
        assert(steps / 1 == steps);
        lemma_nearest_multiple_bounds(steps, 1, unit);
    }
}

/// The bounds of a share, from those of its parts.
proof fn lemma_share_bounds(
    part: int,
    total: int,
    exact_part: int,
    exact_total: int,
    quotient: int,
    step: int,
    sum: int,
    known: int,
)
    requires
        0 <= part,
        0 < total,
        0 <= step,
        0 <= exact_part,
        0 <= exact_total,
        1_000_000 * exact_part <= 1_000_001 * part,
        1_000_000 * exact_part >= 999_999 * part,
        1_000_000 * exact_total <= 1_000_001 * total,
        1_000_000 * exact_total >= 999_999 * total,
        1_000_000 * quotient <= 1_000_001 * exact_part + 1_000_000 * step,
        1_000_000 * quotient >= 999_999 * exact_part - 2_000_000 * step,
        1_000_000 * step <= exact_total,
        2_000_000 * known <= 200_000_200 * quotient + 2_000_000 * step + 1_000_000 * exact_total,
        2_000_000 * known >= 199_999_800 * quotient - 2_000_000 * step - 1_000_000 * exact_total,
        1_000_000 * known <= 1_000_001 * sum,
        1_000_000 * known >= 999_999 * sum,
        0 <= sum,
    ensures
        part <= total ==> 1000 * sum <= 100_000 * part + 502 * total,
        part <= total ==> 1000 * sum >= 100_000 * part - 502 * total,
        part >= total ==> 1000 * sum > 99_000 * total,
{
}

/// A share of a total in percent is the nearest whole number to the exact one, but for thousandths
/// of a percent; it is a hundred from the total on, and nothing where the part is.
pub proof fn share_is_near_the_exact_one(part: nat, total: nat)
    requires
        0 < total,
    ensures
        0 <= share_in_percent(part, total) <= 100,
        part <= total ==> 1000 * (share_in_percent(part, total) * total) <= 100_000 * part + 502
            * total,
        part <= total ==> 1000 * (share_in_percent(part, total) * total) >= 100_000 * part - 502
            * total,
        part >= total ==> share_in_percent(part, total) == 100,
        part == 0 ==> share_in_percent(part, total) == 0,
{
    lemma_powers();
    lemma_pow2_strictly_increases(64, 1074);
    lemma_pow2_unfold(1074);
    let o = one() as int;
    let a = nearest_double(part, 1);
    let b = nearest_double(total, 1);
    lemma_near_number(part);
    lemma_near_number(total);
    assert(total * one() >= one()) by (nonlinear_arith)
        requires
            total >= 1,
    ;
    assert(b > 0);
    // The quotient.
    let num = a * one();
    let floor = num / b;
    lemma_fundamental_div_mod(num as int, b as int);
    lemma_spacing_positive(floor);
    lemma_spacing_bound(floor);
    let unit = spacing(floor);
    lemma_nearest_multiple_bounds(num, b, unit);
    let q = nearest_double(a, b);
    assert(1_000_000 * unit <= floor + 1_000_000);
    let qb = q as int * b as int;
    let x = a as int * o;
    let ub = unit as int * b as int;
    let fb = floor as int * b as int;
    assert(fb <= x < fb + b) by (nonlinear_arith)
        requires
            x == b as int * floor as int + num as int % b as int,
            0 <= num as int % b as int,
            (num as int % (b as int)) < b,
            fb == floor as int * b as int,
    ;
    assert(1_000_000 * ub <= fb + 1_000_000 * b) by (nonlinear_arith)
        requires
            1_000_000 * unit <= floor + 1_000_000,
            ub == unit as int * b as int,
            fb == floor as int * b as int,
            b > 0,
    ;
    assert(fb - ub <= qb <= fb + ub) by (nonlinear_arith)
        requires
            floor < q + unit,
            q <= floor + unit,
            qb == q as int * b as int,
            ub == unit as int * b as int,
            fb == floor as int * b as int,
            b > 0,
    ;
    // Its hundredfold, and the whole number.
    let h = q * 100;
    lemma_nearest_of_steps(h);
    lemma_spacing_positive(h);
    lemma_spacing_bound(h);
    lemma_nearest_multiple_bounds(h, 1, spacing(h));
    let p = nearest_double(h, one());
    let rounded = p + one() / 2;
    let percent = rounded / one();
    lemma_fundamental_div_mod(rounded as int, o);
    let po = percent as int * o;
    assert(po <= rounded < po + o) by (nonlinear_arith)
        requires
            rounded as int == o * percent as int + rounded as int % o,
            0 <= rounded as int % o < o,
            po == percent as int * o,
    ;
    assert(2_000_000 * po <= 200_000_200 * q + 2_000_000 + 1_000_000 * o);
    assert(2_000_000 * po >= 199_999_800 * q - 2_000_000 - 1_000_000 * o);
    let w = o * o;
    let z = b as int * o;
    let known = percent as int * z;
    assert(2_000_000 * known <= 200_000_200 * qb + 2_000_000 * b + 1_000_000 * z)
        by (nonlinear_arith)
        requires
            2_000_000 * po <= 200_000_200 * q + 2_000_000 + 1_000_000 * o,
            po == percent as int * o,
            z == b as int * o,
            known == percent as int * z,
            qb == q as int * b as int,
            b > 0,
    ;
    assert(2_000_000 * known >= 199_999_800 * qb - 2_000_000 * b - 1_000_000 * z)
        by (nonlinear_arith)
        requires
            2_000_000 * po >= 199_999_800 * q - 2_000_000 - 1_000_000 * o,
            po == percent as int * o,
            z == b as int * o,
            known == percent as int * z,
            qb == q as int * b as int,
            b > 0,
    ;
    let part_w = part as int * w;
    let total_w = total as int * w;
    let sum_w = percent as int * total_w;
    assert(1_000_000 * x <= 1_000_001 * part_w && 1_000_000 * x >= 999_999 * part_w)
        by (nonlinear_arith)
        requires
            1_000_000 * a <= 1_000_001 * (part * o),
            1_000_000 * a >= 999_999 * (part * o),
            x == a as int * o,
            part_w == part as int * w,
            w == o * o,
            o > 0,
    ;
    assert(1_000_000 * z <= 1_000_001 * total_w && 1_000_000 * z >= 999_999 * total_w)
        by (nonlinear_arith)
        requires
            1_000_000 * b <= 1_000_001 * (total * o),
            1_000_000 * b >= 999_999 * (total * o),
            z == b as int * o,
            total_w == total as int * w,
            w == o * o,
            o > 0,
    ;
    assert(1_000_000 * known <= 1_000_001 * sum_w && 1_000_000 * known >= 999_999 * sum_w)
        by (nonlinear_arith)
        requires
            1_000_000 * z <= 1_000_001 * total_w,
            1_000_000 * z >= 999_999 * total_w,
            known == percent as int * z,
            sum_w == percent as int * total_w,
            percent >= 0,
    ;
    assert(1_000_000 * b <= z) by (nonlinear_arith)
        requires
            z == b as int * o,
            o >= 1_000_000,
            b > 0,
    ;
    assert(0 <= x && 0 <= z && 0 < total_w && 0 <= part_w && 0 <= sum_w && 0 < w)
        by (nonlinear_arith)
        requires
            x == a as int * o,
            z == b as int * o,
            w == o * o,
            part_w == part as int * w,
            total_w == total as int * w,
            sum_w == percent as int * total_w,
            o > 0,
            total > 0,
    ;
    lemma_share_bounds(part_w, total_w, x, z, qb, b as int, sum_w, known);
    let sum = percent as int * total as int;
    assert(sum_w == sum * w) by (nonlinear_arith)
        requires
            sum_w == percent as int * total_w,
            total_w == total as int * w,
            sum == percent as int * total as int,
    ;
    if part <= total {
        assert(part_w <= total_w) by (nonlinear_arith)
            requires
                part <= total,
                part_w == part as int * w,
                total_w == total as int * w,
                w > 0,
        ;
        assert(1000 * sum <= 100_000 * part + 502 * total) by (nonlinear_arith)
            requires
                1000 * sum_w <= 100_000 * part_w + 502 * total_w,
                sum_w == sum * w,
                part_w == part as int * w,
                total_w == total as int * w,
                w > 0,
        ;
        assert(1000 * sum >= 100_000 * part - 502 * total) by (nonlinear_arith)
            requires
                1000 * sum_w >= 100_000 * part_w - 502 * total_w,
                sum_w == sum * w,
                part_w == part as int * w,
                total_w == total as int * w,
                w > 0,
        ;
        assert(percent <= 100) by (nonlinear_arith)
            requires
                1000 * sum <= 100_000 * part + 502 * total,
                sum == percent as int * total as int,
                part <= total,
                total > 0,
        ;
    }
    if part >= total {
        assert(part_w >= total_w) by (nonlinear_arith)
            requires
                part >= total,
                part_w == part as int * w,
                total_w == total as int * w,
                w > 0,
        ;
        assert(percent > 99) by (nonlinear_arith)
            requires
                1000 * sum_w > 99_000 * total_w,
                sum_w == percent as int * total_w,
                total_w > 0,
        ;
    }
    if part == 0 {
        assert(percent == 0) by (nonlinear_arith)
            requires
                1000 * sum <= 100_000 * part + 502 * total,
                part == 0,
                sum == percent as int * total as int,
                total > 0,
                percent >= 0,
        ;
    }
}

} // verus!
