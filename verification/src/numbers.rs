//! Numbers with digits after the point, as text.
//!
//! A number is given in parts of a unit: 1,500 parts of a unit of 1,000 are one and a
//! half. It is shown as a floating-point number shows that is nearest to it, which may lie a
//! little beside it: 120,350 parts of a unit of 1,000 show one digit as 120.3.
use crate::text::{decimal, padded, push_large_decimal, push_padded};
use vstd::prelude::*;

verus! {

/// The largest number that is shown.
pub const LARGEST_SHOWN: u128 = 0x1_0000_0000_0000_0000_0000;

/// How many binary digits a floating-point number has: 24 or 53.
#[derive(Clone, Copy, Debug, PartialEq, Eq, Structural)]
pub enum Precision {
    Single,
    Double,
}

/// A number divided by a unit, to the nearest whole, the even one of two.
pub open spec fn rounded_even(value: int, unit: int) -> int {
    let whole = value / unit;
    let rest = value % unit;
    if 2 * rest > unit || (2 * rest == unit && whole % 2 == 1) {
        whole + 1
    } else {
        whole
    }
}

/// So many units that a whole number of them, or of halves of them, need all the digits.
pub open spec fn bound(unit: nat, precision: Precision) -> nat {
    match precision {
        Precision::Single => 16_777_216 * unit,
        Precision::Double => 9_007_199_254_740_992 * unit,
    }
}

/// A number of many digits: as many units, doubled until they suffice, as it has. `factor`
/// tells how much larger the unit has become.
pub open spec fn coarse(value: nat, unit: nat, factor: nat, precision: Precision) -> nat
    decreases value - unit,
{
    if unit > 0 && value >= bound(unit, precision) {
        coarse(value, 2 * unit, 2 * factor, precision)
    } else {
        (factor * rounded_even(value as int, unit as int)) as nat
    }
}

/// A number of few digits: the number is doubled until it has all the digits. The result is a
/// fraction; `denominator` tells how much larger the number has become.
pub open spec fn fine(value: nat, unit: nat, denominator: nat, precision: Precision) -> (nat, nat)
    decreases bound(unit, precision) - value,
{
    if 0 < value && 2 * value < bound(unit, precision) {
        fine(2 * value, unit, 2 * denominator, precision)
    } else {
        (rounded_even(value as int, unit as int) as nat, denominator)
    }
}

/// The floating-point number nearest to a number, the even one of two, as a fraction.
pub open spec fn nearest_float(value: nat, unit: nat, precision: Precision) -> (nat, nat) {
    if value >= bound(unit, precision) {
        (coarse(value, unit, 1, precision), 1)
    } else {
        fine(value, unit, 1, precision)
    }
}

/// Ten to a power of at most three.
pub open spec fn scale_of(digits: nat) -> nat {
    if digits == 0 {
        1
    } else if digits == 1 {
        10
    } else if digits == 2 {
        100
    } else {
        1_000
    }
}

/// A floating-point number with some digits after the point, to the nearest, the even one of
/// two.
pub open spec fn fixed(value: nat, unit: nat, digits: nat, precision: Precision) -> Seq<char> {
    let (numerator, denominator) = nearest_float(value, unit, precision);
    let scale = scale_of(digits);
    let shown = rounded_even((numerator * scale) as int, denominator as int) as nat;
    if digits == 0 {
        decimal(shown)
    } else {
        decimal(shown / scale) + "."@ + padded(shown % scale, digits)
    }
}

fn round_even(value: u128, unit: u128) -> (nearest: u128)
    requires
        0 < unit,
        unit <= 0x7fff_ffff_ffff_ffff_ffff_ffff_ffff_ffff,
        value < u128::MAX,
    ensures
        nearest == rounded_even(value as int, unit as int),
        nearest <= value / unit + 1,
        nearest <= value + 1,
{
    let whole: u128 = value / unit;
    let rest: u128 = value % unit;
    assert(whole <= value) by (nonlinear_arith)
        requires
            0 < unit,
            whole == value / unit,
    ;
    assert(rest < unit);
    if 2 * rest > unit || (2 * rest == unit && whole % 2 == 1) {
        whole + 1
    } else {
        whole
    }
}

fn digits_end(unit: u128, precision: Precision) -> (end: u128)
    requires
        unit <= 0x1_0000_0000_0000_0000,
    ensures
        end == bound(unit as nat, precision),
{
    match precision {
        Precision::Single => 16_777_216 * unit,
        Precision::Double => 9_007_199_254_740_992 * unit,
    }
}

/// The fraction that a floating-point number of many digits is.
fn find_coarse(value: u128, unit: u64, precision: Precision) -> (numerator: u128)
    requires
        unit > 0,
        value <= LARGEST_SHOWN,
        value >= bound(unit as nat, precision),
    ensures
        numerator == coarse(value as nat, unit as nat, 1, precision),
        numerator * unit <= 2 * value,
        numerator <= 2 * value,
{
    let mut large: u128 = unit as u128;
    let mut factor: u128 = 1;
    while value >= digits_end(large, precision)
        invariant
            0 < unit <= large <= value <= LARGEST_SHOWN,
            large <= 0x1_0000_0000_0000_0000,
            factor * unit == large,
            coarse(value as nat, unit as nat, 1, precision) == coarse(
                value as nat,
                large as nat,
                factor as nat,
                precision,
            ),
        decreases value - large,
    {
        assert(2 * factor * unit == 2 * large) by (nonlinear_arith)
            requires
                factor * unit == large,
        ;
        assert(factor <= large) by (nonlinear_arith)
            requires
                factor * unit == large,
                unit >= 1,
        ;
        large = 2 * large;
        factor = 2 * factor;
    }
    let count: u128 = round_even(value, large);
    assert(factor <= large) by (nonlinear_arith)
        requires
            factor * unit == large,
            unit >= 1,
    ;
    assert(count * large <= 2 * value) by (nonlinear_arith)
        requires
            0 < large <= value,
            count <= value / large + 1,
    ;
    assert(factor * count * unit == count * large) by (nonlinear_arith)
        requires
            factor * unit == large,
    ;
    assert(0 <= factor * count <= 2 * value) by (nonlinear_arith)
        requires
            factor * count * unit <= 2 * value,
            unit >= 1,
            factor >= 0,
            count >= 0,
    ;
    factor * count
}

/// The fraction that a floating-point number of few digits is.
fn find_fine(value: u128, unit: u64, precision: Precision) -> (fraction: (u128, u128))
    requires
        unit > 0,
        value < bound(unit as nat, precision),
    ensures
        (fraction.0 as nat, fraction.1 as nat) == fine(value as nat, unit as nat, 1, precision),
        fraction.0 <= 9_007_199_254_740_992,
        0 < fraction.1 <= 0x20_0000_0000_0000_0000_0000_0000_0000,
{
    let end: u128 = digits_end(unit as u128, precision);
    let mut doubled: u128 = value;
    let mut denominator: u128 = 1;
    while 0 < doubled && 2 * doubled < end
        invariant
            unit > 0,
            end == bound(unit as nat, precision),
            doubled < end <= 0x20_0000_0000_0000_0000_0000_0000_0000,
            0 < denominator,
            doubled > 0 ==> denominator <= doubled,
            doubled == 0 ==> denominator == 1,
            fine(value as nat, unit as nat, 1, precision) == fine(
                doubled as nat,
                unit as nat,
                denominator as nat,
                precision,
            ),
        decreases end - doubled,
    {
        doubled = 2 * doubled;
        denominator = 2 * denominator;
    }
    let count: u128 = round_even(doubled, unit as u128);
    assert(doubled / unit as u128 + 1 <= 9_007_199_254_740_992) by (nonlinear_arith)
        requires
            doubled < 9_007_199_254_740_992 * unit as u128,
            unit > 0,
    ;
    (count, denominator)
}

/// The floating-point number of 53 digits nearest to a whole number, the even one of two.
pub open spec fn whole_float(value: nat) -> nat {
    if value >= bound(1, Precision::Double) {
        coarse(value, 1, 1, Precision::Double)
    } else {
        value
    }
}

/// The floating-point number of 53 digits nearest to a whole number.
pub fn to_whole_float(value: u128) -> (nearest: u128)
    requires
        value <= LARGEST_SHOWN,
    ensures
        nearest == whole_float(value as nat),
        nearest <= 2 * value,
{
    if value >= digits_end(1, Precision::Double) {
        find_coarse(value, 1, Precision::Double)
    } else {
        value
    }
}

/// Appends a number with up to three digits after the point.
pub fn push_large_fixed(
    text: &mut String,
    value: u128,
    unit: u64,
    digits: u64,
    precision: Precision,
)
    requires
        unit > 0,
        digits <= 3,
        value <= LARGEST_SHOWN,
    ensures
        final(text)@ == old(text)@ + fixed(value as nat, unit as nat, digits as nat, precision),
{
    let scale: u128 = match digits {
        0 => 1,
        1 => 10,
        2 => 100,
        _ => 1_000,
    };
    let shown: u128 = if value >= digits_end(unit as u128, precision) {
        let numerator: u128 = find_coarse(value, unit, precision);
        assert(0 <= numerator * scale <= 2 * LARGEST_SHOWN * 1_000) by (nonlinear_arith)
            requires
                0 <= numerator <= 2 * LARGEST_SHOWN,
                1 <= scale <= 1_000,
        ;
        assert(rounded_even(numerator * scale, 1) == numerator * scale);
        numerator * scale
    } else {
        let (numerator, denominator) = find_fine(value, unit, precision);
        assert(0 <= numerator * scale <= 9_007_199_254_740_992 * 1_000) by (nonlinear_arith)
            requires
                0 <= numerator <= 9_007_199_254_740_992,
                1 <= scale <= 1_000,
        ;
        round_even(numerator * scale, denominator)
    };
    if digits == 0 {
        push_large_decimal(text, shown);
    } else {
        push_large_decimal(text, shown / scale);
        text.append(".");
        push_padded(text, (shown % scale) as u64, digits);
    }
    assert(text@ =~= old(text)@ + fixed(value as nat, unit as nat, digits as nat, precision));
}

/// Appends a number with up to three digits after the point.
pub fn push_fixed(text: &mut String, value: u64, unit: u64, digits: u64, precision: Precision)
    requires
        unit > 0,
        digits <= 3,
    ensures
        final(text)@ == old(text)@ + fixed(value as nat, unit as nat, digits as nat, precision),
{
    push_large_fixed(text, value as u128, unit, digits, precision)
}

/// Rounding meets the nearest multiple, and the even one from the middle.
pub proof fn rounding_meets_the_nearest(value: int, unit: int)
    requires
        0 <= value,
        0 < unit,
    ensures
        -unit <= 2 * (unit * rounded_even(value, unit) - value) <= unit,
        2 * (unit * rounded_even(value, unit) - value) == unit || 2 * (unit * rounded_even(
            value,
            unit,
        ) - value) == -unit ==> rounded_even(value, unit) % 2 == 0,
        0 <= rounded_even(value, unit),
{
    let whole = value / unit;
    vstd::arithmetic::div_mod::lemma_fundamental_div_mod(value, unit);
    assert(0 <= value % unit < unit) by (nonlinear_arith)
        requires
            0 < unit,
    ;
    assert(0 <= whole) by (nonlinear_arith)
        requires
            0 <= value,
            0 < unit,
            whole == value / unit,
    ;
    assert(unit * (whole + 1) == unit * whole + unit) by (nonlinear_arith);
}

proof fn lemma_fine_is_near(value: nat, unit: nat, denominator: nat, precision: Precision)
    requires
        0 < unit,
        0 < value < bound(unit, precision),
    ensures
        ({
            let (n, d) = fine(value, unit, denominator, precision);
            let shift = precision_steps(precision);
            exists|factor: nat|
                #![trigger (value * factor)]
                factor >= 1 && d == denominator * factor && n == rounded_even(
                    (value * factor) as int,
                    unit as int,
                ) && 2 * (value * factor) >= shift * unit
        }),
    decreases bound(unit, precision) - value,
{
    let shift = precision_steps(precision);
    if 2 * value < bound(unit, precision) {
        lemma_fine_is_near(2 * value, unit, 2 * denominator, precision);
        let (n, d) = fine(2 * value, unit, 2 * denominator, precision);
        let factor = choose|factor: nat|
            #![trigger (2 * value * factor)]
            factor >= 1 && d == 2 * denominator * factor && n == rounded_even(
                (2 * value * factor) as int,
                unit as int,
            ) && 2 * (2 * value * factor) >= shift * unit;
        assert(2 * value * factor == value * (2 * factor)) by (nonlinear_arith);
        assert(2 * denominator * factor == denominator * (2 * factor)) by (nonlinear_arith);
        let twice: nat = 2 * factor;
        assert(value * twice == 2 * value * factor);
    } else {
        assert(value * 1nat == value);
        assert(denominator * 1nat == denominator);
    }
}

/// How many steps the precision has from nothing up to twice its unit of scale.
pub open spec fn precision_steps(precision: Precision) -> nat {
    match precision {
        Precision::Single => 16_777_216,
        Precision::Double => 9_007_199_254_740_992,
    }
}

proof fn lemma_coarse_is_near(value: nat, unit: nat, factor: nat, precision: Precision)
    requires
        0 < unit,
        2 * value >= bound(unit, precision),
    ensures
        exists|scale: nat|
            #![trigger (unit * scale)]
            scale >= 1 && coarse(value, unit, factor, precision) == factor * scale
                * rounded_even(value as int, (unit * scale) as int) && 2 * value
                >= precision_steps(precision) * (unit * scale),
    decreases value - unit,
{
    if value >= bound(unit, precision) {
        assert(value >= 2 * unit);
        lemma_coarse_is_near(value, 2 * unit, 2 * factor, precision);
        let scale = choose|scale: nat|
            #![trigger (2 * unit * scale)]
            scale >= 1 && coarse(value, 2 * unit, 2 * factor, precision) == 2 * factor * scale
                * rounded_even(value as int, (2 * unit * scale) as int) && 2 * value
                >= precision_steps(precision) * (2 * unit * scale);
        let twice: nat = 2 * scale;
        assert(2 * unit * scale == unit * twice) by (nonlinear_arith)
            requires
                twice == 2 * scale,
        ;
        assert(2 * factor * scale == factor * twice) by (nonlinear_arith)
            requires
                twice == 2 * scale,
        ;
    } else {
        assert(unit * 1nat == unit);
        assert(factor * 1nat == factor);
        rounding_meets_the_nearest(value as int, unit as int);
    }
}

/// The nearest number that a precision can hold differs from what is to be held by no more than
/// half of its least step, in proportion: a part in 2 to the 24th for single precision, in 2 to
/// the 53rd for double.
pub proof fn held_numbers_are_near(value: nat, unit: nat, precision: Precision)
    requires
        0 < unit,
        0 < value,
    ensures
        ({
            let (n, d) = nearest_float(value, unit, precision);
            let steps: int = match precision {
                Precision::Single => 16_777_216,
                Precision::Double => 9_007_199_254_740_992,
            };
            &&& d >= 1
            &&& -(value * d) <= steps * (n * unit - value * d) <= value * d
        }),
{
    let (n, d) = nearest_float(value, unit, precision);
    let steps = precision_steps(precision) as int;
    if value >= bound(unit, precision) {
        lemma_coarse_is_near(value, unit, 1, precision);
        let scale = choose|scale: nat|
            #![trigger (unit * scale)]
            scale >= 1 && coarse(value, unit, 1, precision) == 1 * scale * rounded_even(
                value as int,
                (unit * scale) as int,
            ) && 2 * value >= precision_steps(precision) * (unit * scale);
        let step = (unit * scale) as int;
        assert(step > 0) by (nonlinear_arith)
            requires
                step == unit * scale,
                unit > 0,
                scale >= 1,
        ;
        rounding_meets_the_nearest(value as int, step);
        let q = rounded_even(value as int, step);
        assert(scale * q >= 0) by (nonlinear_arith)
            requires
                scale >= 1,
                q >= 0,
        ;
        assert(n * unit == step * q) by (nonlinear_arith)
            requires
                n == scale * q,
                step == unit * scale,
        ;
        let off = step * q - value;
        assert(-value <= steps * off <= value) by (nonlinear_arith)
            requires
                -step <= 2 * off <= step,
                2 * value >= steps * step,
                steps > 0,
        ;
    } else {
        lemma_fine_is_near(value, unit, 1, precision);
        let factor = choose|factor: nat|
            #![trigger (value * factor)]
            factor >= 1 && d == 1 * factor && n == rounded_even(
                (value * factor) as int,
                unit as int,
            ) && 2 * (value * factor) >= precision_steps(precision) * unit;
        rounding_meets_the_nearest((value * factor) as int, unit as int);
        let all = (value * factor) as int;
        assert(value * d == all);
        assert(n * unit == unit * n) by (nonlinear_arith);
        let off = n * unit - all;
        assert(-all <= steps * off <= all) by (nonlinear_arith)
            requires
                -unit <= 2 * off <= unit,
                2 * all >= steps * unit,
                steps > 0,
        ;
    }
}

/// A number is shown by its whole and its fraction, to so many digits: the nearest multiple of
/// the last digit, and the even one from the middle.
pub proof fn shown_numbers_add_up(
    value: nat,
    unit: nat,
    digits: nat,
    precision: Precision,
    whole: nat,
    part: nat,
)
    requires
        1 <= digits <= 3,
        ({
            let (n, d) = nearest_float(value, unit, precision);
            let scale: nat = if digits == 1 {
                10
            } else if digits == 2 {
                100
            } else {
                1_000
            };
            part < scale && rounded_even((n * scale) as int, d as int) == scale * whole + part
        }),
    ensures
        fixed(value, unit, digits, precision) == decimal(whole) + "."@ + padded(part, digits),
{
    let scale = scale_of(digits);
    let shown = (scale * whole + part) as nat;
    assert(shown / scale == whole && shown % scale == part) by {
        if digits == 1 {
            assert(scale == 10);
        } else if digits == 2 {
            assert(scale == 100);
        } else {
            assert(scale == 1_000);
        }
    }
}

} // verus!
