//! Sums and differences of percentages, rounded as doubles are.
//!
//! Values are whole numbers of the unit two to the power of minus 1074, in which every double is
//! exact. A result is the double nearest to the exact value; halfway between two, the even one.

use crate::percent;
use crate::percent::Percent;
use crate::percent::FRACTION;
use crate::percent::HUNDRED;
use crate::percent::INFINITE;
use crate::percent::SIGN;
use vstd::arithmetic::div_mod::*;
use vstd::arithmetic::power2::*;
use vstd::prelude::*;

verus! {

/// The distance of two values.
pub open spec fn distance(a: int, b: int) -> int {
    if a < b {
        b - a
    } else {
        a - b
    }
}

/// The double with these magnitude bits is the nearest to a value; halfway, it is the even one. The
/// exponent is not bounded here.
pub open spec fn rounds_to(value: nat, magnitude: nat) -> bool {
    let error = distance(percent::magnitude_value(magnitude) as int, value as int);
    forall|other: nat|
        {
            let other_error = distance(
                #[trigger] percent::magnitude_value(other) as int,
                value as int,
            );
            error < other_error || (error == other_error && (other == magnitude || magnitude % 2
                == 0))
        }
}

/// The magnitude bits of a value as a double: of the nearest one, or of infinity.
pub open spec fn rounded(value: nat) -> nat {
    let magnitude = choose|magnitude: nat| rounds_to(value, magnitude);
    if magnitude < INFINITE {
        magnitude
    } else {
        INFINITE as nat
    }
}

/// A value has at most one nearest double.
pub proof fn law_rounding_is_unique(value: nat, a: nat, b: nat)
    requires
        rounds_to(value, a),
        rounds_to(value, b),
    ensures
        a == b,
{
    if a < b {
        lemma_ordered_rounding(value, a, b);
    } else if b < a {
        lemma_ordered_rounding(value, b, a);
    }
}

/// Two doubles that are equally near to a value, with none nearer, would be neighbours, and one of
/// them odd; so they are one.
proof fn lemma_ordered_rounding(value: nat, a: nat, b: nat)
    requires
        a <= b,
        rounds_to(value, a),
        rounds_to(value, b),
    ensures
        a == b,
{
    if a < b {
        percent::lemma_key_order_is_value_order(a, b);
        let va = percent::magnitude_value(a);
        if a + 1 < b {
            percent::lemma_key_order_is_value_order(a, a + 1);
            percent::lemma_key_order_is_value_order(a + 1, b);
            let between = percent::magnitude_value(a + 1);
            assert(distance(between as int, value as int) < distance(va as int, value as int));
        }
    }
}

/// A value between two neighbouring doubles rounds to the nearer one, or to the even one.
proof fn lemma_between(value: nat, low: nat)
    requires
        percent::magnitude_value(low) <= value <= percent::magnitude_value(low + 1),
    ensures
        ({
            let below = value - percent::magnitude_value(low);
            let above = percent::magnitude_value(low + 1) - value;
            &&& (below < above || (below == above && low % 2 == 0)) ==> rounds_to(value, low)
            &&& (above < below || (below == above && low % 2 == 1)) ==> rounds_to(value, low + 1)
        }),
{
    let vl = percent::magnitude_value(low);
    let vh = percent::magnitude_value(low + 1);
    assert forall|other: nat| other < low implies #[trigger] percent::magnitude_value(other)
        < vl by {
        percent::lemma_key_order_is_value_order(other, low);
    }
    assert forall|other: nat| other > low + 1 implies
        #[trigger] percent::magnitude_value(other) > vh by {
        percent::lemma_key_order_is_value_order(low + 1, other);
    }
    percent::lemma_key_order_is_value_order(low, low + 1);
}

/// A value that a double has rounds to that double.
proof fn lemma_exact(value: nat, magnitude: nat)
    requires
        percent::magnitude_value(magnitude) == value,
    ensures
        rounds_to(value, magnitude),
{
    assert forall|other: nat| other != magnitude implies
        #[trigger] percent::magnitude_value(other) != value by {
        if other < magnitude {
            percent::lemma_key_order_is_value_order(other, magnitude);
        } else {
            percent::lemma_key_order_is_value_order(magnitude, other);
        }
    }
}

/// The value of a significand of fifty-three bits at an exponent.
proof fn lemma_significand(q: nat, step: nat)
    requires
        FRACTION <= q <= 2 * FRACTION,
    ensures
        percent::magnitude_value(step * FRACTION as nat + q) == q * pow2(step),
{
    let magnitude = step * FRACTION as nat + q;
    if q < 2 * FRACTION {
        assert(magnitude == (step + 1) * FRACTION as nat + (q - FRACTION)) by (nonlinear_arith)
            requires
                magnitude == step * FRACTION as nat + q,
        ;
        lemma_fundamental_div_mod_converse(
            magnitude as int,
            FRACTION as int,
            (step + 1) as int,
            q - FRACTION,
        );
    } else {
        assert(magnitude == (step + 2) * FRACTION as nat) by (nonlinear_arith)
            requires
                magnitude == step * FRACTION as nat + 2 * FRACTION,
        ;
        lemma_fundamental_div_mod_converse(magnitude as int, FRACTION as int, (step + 2) as int, 0);
        lemma_pow2_unfold((step + 1) as nat);
        let low = pow2(step);
        assert(FRACTION as nat * (2 * low) == (2 * FRACTION as nat) * low) by (nonlinear_arith);
    }
}

/// Two to the given power.
fn power(exponent: u32) -> (value: u128)
    requires
        exponent < 120,
    ensures
        value == pow2(exponent as nat),
        value < pow2(120),
{
    let mut value: u128 = 1;
    let mut i: u32 = 0;
    proof {
        lemma2_to64();
        lemma_large_powers();
    }
    while i < exponent
        invariant
            i <= exponent < 120,
            value == pow2(i as nat),
            pow2(120) == 0x1_0000_0000_0000_0000_0000_0000_0000_00,
        decreases exponent - i,
    {
        proof {
            lemma_pow2_unfold((i + 1) as nat);
            lemma_pow2_strictly_increases((i + 1) as nat, 120);
        }
        value = value * 2;
        i = i + 1;
    }
    proof {
        lemma_pow2_strictly_increases(exponent as nat, 120);
    }
    value
}

/// The powers of two that bound significands.
proof fn lemma_large_powers()
    ensures
        pow2(52) == FRACTION,
        pow2(53) == 2 * FRACTION,
        pow2(64) == 0x1_0000_0000_0000_0000,
        pow2(120) == 0x1_0000_0000_0000_0000_0000_0000_0000_00,
{
    lemma2_to64();
    lemma2_to64_rest();
    lemma_pow2_adds(64, 56);
}

/// The number of bits of a significand.
fn bit_length(significand: u128) -> (length: u32)
    requires
        0 < significand < pow2(119),
    ensures
        1 <= length <= 119,
        pow2((length - 1) as nat) <= significand < pow2(length as nat),
{
    let mut length: u32 = 1;
    let mut top: u128 = 2;
    proof {
        lemma2_to64();
        lemma_large_powers();
    }
    while top <= significand
        invariant
            1 <= length <= 119,
            top == pow2(length as nat),
            pow2((length - 1) as nat) <= significand < pow2(119),
            pow2(120) == 0x1_0000_0000_0000_0000_0000_0000_0000_00,
        decreases 119 - length,
    {
        proof {
            if length >= 119 {
                assert(false);
            }
            lemma_pow2_unfold((length + 1) as nat);
            lemma_pow2_strictly_increases((length as nat), 120);
            if length + 1 < 120 {
                lemma_pow2_strictly_increases((length + 1) as nat, 120);
            }
        }
        top = top * 2;
        length = length + 1;
    }
    length
}

/// The double nearest to a significand at an exponent.
fn round(significand: u128, exponent: u32) -> (magnitude: u64)
    requires
        0 < significand < pow2(119),
        exponent <= 2046,
    ensures
        rounds_to(significand as nat * pow2(exponent as nat), magnitude as nat),
        significand < 2 * FRACTION ==> percent::magnitude_value(magnitude as nat)
            == significand as nat * pow2(exponent as nat),
{
    let ghost value = significand as nat * pow2(exponent as nat);
    let length: u32 = bit_length(significand);
    proof {
        lemma_large_powers();
        lemma_pow2_pos(exponent as nat);
    }
    if length + exponent <= 52 {
        let low: u128 = power(exponent);
        proof {
            lemma_pow2_adds(length as nat, exponent as nat);
            if length + exponent < 52 {
                lemma_pow2_strictly_increases((length + exponent) as nat, 52);
            }
            let bound = pow2(length as nat);
            assert(significand as nat * low as nat <= bound * low as nat) by (nonlinear_arith)
                requires
                    (significand as nat) <= bound,
            ;
            assert(value < FRACTION) by (nonlinear_arith)
                requires
                    value == significand as nat * low as nat,
                    (significand as nat) < bound,
                    low > 0,
                    bound * low as nat <= FRACTION,
            ;
        }
        let magnitude: u64 = (significand * low) as u64;
        proof {
            assert(magnitude as nat == value);
            lemma_small_mod(magnitude as nat, FRACTION as nat);
            lemma_basic_div(magnitude as int, FRACTION as int);
            lemma_exact(value, magnitude as nat);
        }
        magnitude
    } else if length <= 53 {
        let up: u32 = 53 - length;
        let scale: u128 = power(up);
        proof {
            lemma_pow2_adds((length - 1) as nat, up as nat);
            lemma_pow2_adds(length as nat, up as nat);
            assert(pow2((length - 1) as nat) * scale as nat <= significand as nat * scale as nat)
                by (nonlinear_arith)
                requires
                    pow2((length - 1) as nat) <= significand as nat,
            ;
            assert(significand as nat * scale as nat <= pow2(length as nat) * scale as nat)
                by (nonlinear_arith)
                requires
                    (significand as nat) <= pow2(length as nat),
            ;
        }
        let q: u64 = (significand * scale) as u64;
        let step: u32 = exponent - up;
        proof {
            lemma_pow2_adds(up as nat, step as nat);
            lemma_significand(q as nat, step as nat);
            let low = pow2(step as nat);
            assert((significand as nat * scale as nat) * low == significand as nat * (scale as nat
                * low)) by (nonlinear_arith);
            lemma_exact(value, step as nat * FRACTION as nat + q as nat);
        }
        (step as u64) * FRACTION + q
    } else {
        let down: u32 = length - 53;
        let unit: u128 = power(down);
        proof {
            lemma_pow2_adds(52, down as nat);
            lemma_pow2_adds(53, down as nat);
            lemma_pow2_pos(down as nat);
            lemma_fundamental_div_mod(significand as int, unit as int);
            let whole = significand as nat / unit as nat;
            let rest = significand as nat % unit as nat;
            assert(FRACTION <= whole < 2 * FRACTION) by (nonlinear_arith)
                requires
                    significand as nat == unit as nat * whole + rest,
                    0 <= rest < unit,
                    FRACTION as nat * unit as nat <= significand as nat,
                    (significand as nat) < 2 * FRACTION as nat * unit as nat,
            ;
        }
        let q: u64 = (significand / unit) as u64;
        let rest: u128 = significand % unit;
        let step: u32 = exponent + down;
        let low_bits: u64 = (step as u64) * FRACTION + q;
        proof {
            lemma_fundamental_div_mod(significand as int, unit as int);
            lemma_pow2_adds(down as nat, exponent as nat);
            let fine = pow2(exponent as nat);
            let coarse = pow2(step as nat);
            assert(coarse == unit as nat * fine);
            lemma_significand(q as nat, step as nat);
            lemma_significand((q + 1) as nat, step as nat);
            assert(value == q as nat * coarse + rest as nat * fine) by (nonlinear_arith)
                requires
                    value == significand as nat * fine,
                    significand as nat == unit as nat * q as nat + rest as nat,
                    coarse == unit as nat * fine,
            ;
            assert((q + 1) as nat * coarse == q as nat * coarse + coarse) by (nonlinear_arith);
            assert(rest as nat * fine < coarse) by (nonlinear_arith)
                requires
                    rest as nat * 1 < unit as nat,
                    coarse == unit as nat * fine,
                    fine > 0,
            ;
            lemma_between(value, low_bits as nat);
            let below = rest as nat * fine;
            let above = coarse - below;
            assert(2 * rest as nat * fine < unit as nat * fine <==> 2 * rest < unit)
                by (nonlinear_arith)
                requires
                    fine > 0,
            ;
            assert(2 * rest as nat * fine == unit as nat * fine <==> 2 * rest == unit)
                by (nonlinear_arith)
                requires
                    fine > 0,
            ;
            assert(2 * below == 2 * rest as nat * fine) by (nonlinear_arith)
                requires
                    below == rest as nat * fine,
            ;
            assert((step as nat * FRACTION as nat) % 2 == 0) by {
                lemma_mod_multiples_basic((step as nat * (FRACTION as nat / 2)) as int, 2);
                assert(step as nat * FRACTION as nat == (step as nat * (FRACTION as nat / 2)) * 2)
                    by (nonlinear_arith)
                    requires
                        FRACTION as nat == (FRACTION as nat / 2) * 2,
                ;
            }
        }
        if 2 * rest < unit || (2 * rest == unit && q % 2 == 0) {
            low_bits
        } else {
            low_bits + 1
        }
    }
}

/// What a value rounds to is what `rounded` gives.
proof fn lemma_rounded(value: nat, magnitude: nat)
    requires
        rounds_to(value, magnitude),
    ensures
        rounded(value) == if magnitude < INFINITE {
            magnitude
        } else {
            INFINITE as nat
        },
{
    let chosen = choose|magnitude: nat| rounds_to(value, magnitude);
    law_rounding_is_unique(value, magnitude, chosen);
}

/// The significand and exponent of a double.
fn parts(magnitude: u64) -> (parts: (u64, u32))
    requires
        magnitude < INFINITE,
    ensures
        percent::magnitude_value(magnitude as nat) == parts.0 as nat * pow2(parts.1 as nat),
        parts.0 < 2 * FRACTION,
        parts.1 <= 2045,
        parts.1 == (if magnitude / FRACTION == 0 {
            0
        } else {
            magnitude / FRACTION - 1
        }),
        parts.1 > 0 ==> parts.0 >= FRACTION && magnitude == parts.1 as nat * FRACTION as nat
            + parts.0,
{
    let exponent: u64 = magnitude / FRACTION;
    let fraction: u64 = magnitude % FRACTION;
    proof {
        lemma2_to64();
        lemma_fundamental_div_mod(magnitude as int, FRACTION as int);
        assert(fraction as nat * 1 == fraction) by (nonlinear_arith);
    }
    if exponent == 0 {
        (fraction, 0)
    } else {
        (FRACTION + fraction, (exponent - 1) as u32)
    }
}

/// Bounds a rounded magnitude by infinity.
fn bounded(magnitude: u64) -> (bits: u64)
    ensures
        bits == (if magnitude < INFINITE {
            magnitude
        } else {
            INFINITE
        }),
{
    if magnitude < INFINITE {
        magnitude
    } else {
        INFINITE
    }
}

/// The value of a significand that is shifted to a smaller exponent.
proof fn lemma_shifted(significand: nat, exponent: nat, lower: nat)
    requires
        lower <= exponent,
    ensures
        significand * pow2(exponent) == (significand * pow2((exponent - lower) as nat)) * pow2(
            lower,
        ),
{
    lemma_pow2_adds((exponent - lower) as nat, lower);
    let up = pow2((exponent - lower) as nat);
    let low = pow2(lower);
    assert(significand * (up * low) == (significand * up) * low) by (nonlinear_arith);
}

/// A significand of fifty-three bits that is far below an exponent is less than half a step there.
proof fn lemma_far_below(significand: nat, exponent: nat, upper: nat)
    requires
        significand < 2 * FRACTION,
        exponent + 64 < upper,
    ensures
        2 * (significand * pow2(exponent)) < pow2(upper),
{
    lemma_large_powers();
    lemma_pow2_pos(exponent);
    lemma_pow2_adds(54, exponent);
    lemma2_to64_rest();
    lemma_pow2_strictly_increases((exponent + 54) as nat, upper);
    let low = pow2(exponent);
    assert(2 * (significand * low) < pow2(54) * low) by (nonlinear_arith)
        requires
            significand < 2 * FRACTION,
            pow2(54) == 4 * FRACTION,
            low > 0,
    ;
}

/// The double nearest to the sum of two finite ones, of which the first has the larger exponent.
fn sum_of_ordered(a: u64, b: u64) -> (sum: u64)
    requires
        a < INFINITE,
        b < INFINITE,
        a >= b,
    ensures
        sum as nat == rounded(
            percent::magnitude_value(a as nat) + percent::magnitude_value(b as nat),
        ),
{
    let (high, high_exponent): (u64, u32) = parts(a);
    let (low, low_exponent): (u64, u32) = parts(b);
    let ghost value = percent::magnitude_value(a as nat) + percent::magnitude_value(b as nat);
    proof {
        lemma_large_powers();
        lemma_div_is_ordered(b as int, a as int, FRACTION as int);
    }
    if high_exponent - low_exponent > 64 {
        proof {
            let step = pow2(high_exponent as nat);
            lemma_far_below(low as nat, low_exponent as nat, high_exponent as nat);
            lemma_significand(high as nat, high_exponent as nat);
            lemma_significand((high + 1) as nat, high_exponent as nat);
            assert((high + 1) as nat * step == high as nat * step + step) by (nonlinear_arith);
            lemma_between(value, a as nat);
            lemma_rounded(value, a as nat);
        }
        return a;
    }
    let up: u32 = high_exponent - low_exponent;
    let scale: u128 = power(up);
    proof {
        lemma_pow2_pos(up as nat);
        lemma_shifted(high as nat, high_exponent as nat, low_exponent as nat);
        if up < 64 {
            lemma_pow2_strictly_increases(up as nat, 64);
        }
        lemma_pow2_adds(54, 64);
        lemma2_to64_rest();
        lemma_pow2_strictly_increases(118, 119);
        assert(high as nat * scale as nat <= 2 * FRACTION as nat * pow2(64)) by (nonlinear_arith)
            requires
                high <= 2 * FRACTION,
                scale as nat <= pow2(64),
        ;
    }
    let significand: u128 = high as u128 * scale + low as u128;
    proof {
        let base = pow2(low_exponent as nat);
        assert(significand as nat * base == (high as nat * scale as nat) * base + low as nat * base)
            by (nonlinear_arith)
            requires
                significand as nat == high as nat * scale as nat + low as nat,
        ;
    }
    if significand == 0 {
        proof {
            lemma_exact(0, 0);
            lemma_rounded(0, 0);
            lemma2_to64();
        }
        return 0;
    }
    let magnitude: u64 = round(significand, low_exponent);
    proof {
        lemma_rounded(value, magnitude as nat);
    }
    bounded(magnitude)
}

impl Percent {
    /// The percentage is exactly a whole number.
    pub open spec fn is_integer(self, number: int) -> bool {
        &&& self.finite()
        &&& self.bits < SIGN <==> number >= 0
        &&& percent::magnitude_value(self.magnitude()) == distance(number, 0) * percent::one()
    }

    /// The percentage of a whole number.
    pub fn from_integer(number: i64) -> (percent: Percent)
        requires
            -FRACTION < number < FRACTION,
        ensures
            percent.is_integer(number as int),
    {
        let size: u64 = if number < 0 {
            (-number) as u64
        } else {
            number as u64
        };
        if size == 0 {
            proof {
                lemma2_to64();
                assert(0 * percent::one() == 0) by (nonlinear_arith);
            }
            return Percent { bits: 0 };
        }
        proof {
            lemma_large_powers();
            lemma_pow2_strictly_increases(53, 119);
        }
        let magnitude: u64 = round(size as u128, 1074);
        proof {
            let value = size as nat * percent::one();
            let top = percent::magnitude_value(INFINITE as nat);
            assert(INFINITE as nat / FRACTION as nat == 2047);
            assert(INFINITE as nat % FRACTION as nat == 0);
            assert(top == FRACTION as nat * pow2(2046));
            lemma_pow2_strictly_increases(1074, 2046);
            lemma_pow2_pos(1074);
            assert(value < top) by (nonlinear_arith)
                requires
                    value == size as nat * percent::one(),
                    size < FRACTION,
                    percent::one() < pow2(2046),
                    percent::one() > 0,
                    top == FRACTION as nat * pow2(2046),
            ;
            if magnitude > INFINITE {
                percent::lemma_key_order_is_value_order(INFINITE as nat, magnitude as nat);
            }
        }
        if number < 0 {
            Percent { bits: magnitude + SIGN }
        } else {
            Percent { bits: magnitude }
        }
    }

    /// The sum of two non-negative percentages that may be infinite. Two negative zeros make a
    /// negative zero.
    pub open spec fn sum(self, other: Percent) -> nat {
        if self.bits == SIGN && other.bits == SIGN {
            SIGN as nat
        } else if self.magnitude() >= INFINITE || other.magnitude() >= INFINITE {
            INFINITE as nat
        } else {
            rounded(
                percent::magnitude_value(self.magnitude()) + percent::magnitude_value(
                    other.magnitude(),
                ),
            )
        }
    }

    /// What is left of one hundred.
    pub open spec fn left(self) -> nat {
        rounded(
            (percent::magnitude_value(HUNDRED as nat) - percent::magnitude_value(
                self.magnitude(),
            )) as nat,
        )
    }

    /// The sum of two non-negative percentages.
    pub fn plus(self, other: Percent) -> (sum: Percent)
        requires
            0 <= self.key() <= INFINITE,
            0 <= other.key() <= INFINITE,
        ensures
            sum.bits as nat == self.sum(other),
            0 <= sum.key() <= INFINITE,
    {
        if self.bits == SIGN && other.bits == SIGN {
            return Percent { bits: SIGN };
        }
        let a: u64 = if self.bits < SIGN {
            self.bits
        } else {
            0
        };
        let b: u64 = if other.bits < SIGN {
            other.bits
        } else {
            0
        };
        if a == INFINITE || b == INFINITE {
            return Percent { bits: INFINITE };
        }
        if a >= b {
            Percent { bits: sum_of_ordered(a, b) }
        } else {
            Percent { bits: sum_of_ordered(b, a) }
        }
    }

    /// What is left of one hundred once a percentage is used.
    pub fn remaining(self) -> (left: Percent)
        requires
            self.in_range(),
        ensures
            left.bits as nat == self.left(),
            left.in_range(),
    {
        let used: u64 = if self.bits < SIGN {
            self.bits
        } else {
            0
        };
        let (low, low_exponent): (u64, u32) = parts(used);
        let ghost hundred = percent::magnitude_value(HUNDRED as nat);
        let ghost taken = percent::magnitude_value(used as nat);
        let ghost value = (hundred - taken) as nat;
        let high: u64 = 0x19_0000_0000_0000;
        let high_exponent: u32 = 1028;
        proof {
            lemma_large_powers();
            assert(HUNDRED as nat / FRACTION as nat == 1029);
            assert(HUNDRED as nat % FRACTION as nat == 0x9_0000_0000_0000);
            assert(hundred == high as nat * pow2(high_exponent as nat));
            lemma_div_is_ordered(used as int, HUNDRED as int, FRACTION as int);
            if used < HUNDRED {
                percent::lemma_key_order_is_value_order(used as nat, HUNDRED as nat);
            }
            lemma_left_is_at_most(value);
        }
        if high_exponent - low_exponent > 64 {
            proof {
                let step = pow2(high_exponent as nat);
                lemma_far_below(low as nat, low_exponent as nat, high_exponent as nat);
                lemma_significand((high - 1) as nat, high_exponent as nat);
                lemma_significand(high as nat, high_exponent as nat);
                assert(high as nat * step == (high - 1) as nat * step + step) by (nonlinear_arith)
                    requires
                        high > 0,
                ;
                lemma_between(value, (HUNDRED - 1) as nat);
                lemma_rounded(value, HUNDRED as nat);
            }
            return Percent { bits: HUNDRED };
        }
        let up: u32 = high_exponent - low_exponent;
        let scale: u128 = power(up);
        proof {
            lemma_pow2_pos(up as nat);
            lemma_shifted(high as nat, high_exponent as nat, low_exponent as nat);
            if up < 64 {
                lemma_pow2_strictly_increases(up as nat, 64);
            }
            lemma_pow2_adds(54, 64);
            lemma2_to64_rest();
            lemma_pow2_strictly_increases(118, 119);
            assert(high as nat * scale as nat <= 2 * FRACTION as nat * pow2(64))
                by (nonlinear_arith)
                requires
                    high <= 2 * FRACTION,
                    scale as nat <= pow2(64),
            ;
            let base = pow2(low_exponent as nat);
            lemma_pow2_pos(low_exponent as nat);
            assert(low as nat <= high as nat * scale as nat) by (nonlinear_arith)
                requires
                    low as nat * base <= (high as nat * scale as nat) * base,
                    base > 0,
            ;
        }
        let significand: u128 = high as u128 * scale - low as u128;
        proof {
            let base = pow2(low_exponent as nat);
            assert(significand as nat * base == (high as nat * scale as nat) * base - low as nat
                * base) by (nonlinear_arith)
                requires
                    significand as nat == high as nat * scale as nat - low as nat,
            ;
        }
        if significand == 0 {
            proof {
                lemma_exact(0, 0);
                lemma_rounded(0, 0);
                lemma2_to64();
            }
            return Percent { bits: 0 };
        }
        let magnitude: u64 = round(significand, low_exponent);
        proof {
            lemma_rounded(value, magnitude as nat);
        }
        Percent { bits: bounded(magnitude) }
    }
}

/// What is left of one hundred is a percentage from zero to one hundred.
pub proof fn law_left_is_in_range(used: Percent)
    ensures
        used.in_range() ==> (Percent { bits: used.left() as u64 }).in_range(),
{
    if used.in_range() {
        let hundred = percent::magnitude_value(HUNDRED as nat);
        let taken = percent::magnitude_value(used.magnitude());
        if used.magnitude() < HUNDRED {
            percent::lemma_key_order_is_value_order(used.magnitude(), HUNDRED as nat);
        }
        let value = (hundred - taken) as nat;
        lemma_left_is_at_most(value);
        lemma_rounding_exists(value, HUNDRED as nat);
    }
}

/// A value up to that of a double rounds to some double.
proof fn lemma_rounding_exists(value: nat, top: nat)
    requires
        value <= percent::magnitude_value(top),
    ensures
        exists|magnitude: nat| rounds_to(value, magnitude),
    decreases top,
{
    if value == percent::magnitude_value(top) {
        lemma_exact(value, top);
    } else {
        lemma2_to64();
        let below = (top - 1) as nat;
        if value < percent::magnitude_value(below) {
            lemma_rounding_exists(value, below);
        } else {
            lemma_between(value, below);
        }
    }
}

/// What is left of one hundred is at most one hundred.
proof fn lemma_left_is_at_most(value: nat)
    requires
        value <= percent::magnitude_value(HUNDRED as nat),
    ensures
        forall|magnitude: nat| rounds_to(value, magnitude) ==> magnitude <= HUNDRED,
{
    assert forall|magnitude: nat| rounds_to(value, magnitude) implies magnitude <= HUNDRED by {
        if magnitude > HUNDRED {
            percent::lemma_key_order_is_value_order(HUNDRED as nat, magnitude);
            let nearer = distance(
                percent::magnitude_value(HUNDRED as nat) as int,
                value as int,
            );
            assert(nearer < distance(percent::magnitude_value(magnitude) as int, value as int));
        }
    }
}

/// The sum of percentages from the first to the last, beginning at negative zero, which changes
/// nothing that it is added to.
pub open spec fn total(percents: Seq<Percent>) -> Percent
    decreases percents.len(),
{
    if percents.len() == 0 {
        Percent { bits: SIGN }
    } else {
        Percent { bits: total(percents.drop_last()).sum(percents.last()) as u64 }
    }
}

/// Adds percentages up from the first to the last.
pub fn sum_of(percents: &Vec<Percent>) -> (sum: Percent)
    requires
        forall|i: int| 0 <= i < percents.len() ==> 0 <= (#[trigger] percents@[i]).key() <= INFINITE,
    ensures
        sum == total(percents@),
        0 <= sum.key() <= INFINITE,
{
    let mut sum: Percent = Percent { bits: SIGN };
    let mut i: usize = 0;
    while i < percents.len()
        invariant
            i <= percents.len(),
            0 <= sum.key() <= INFINITE,
            sum == total(percents@.take(i as int)),
            forall|j: int|
                0 <= j < percents.len() ==> 0 <= (#[trigger] percents@[j]).key() <= INFINITE,
        decreases percents.len() - i,
    {
        assert(percents@.take(i + 1).drop_last() =~= percents@.take(i as int));
        sum = sum.plus(percents[i]);
        i = i + 1;
    }
    assert(percents@.take(i as int) =~= percents@);
    sum
}

/// The double nearest to a larger value is no smaller.
proof fn lemma_rounding_is_monotone(low: nat, high: nat, a: nat, b: nat)
    requires
        low <= high,
        rounds_to(low, a),
        rounds_to(high, b),
    ensures
        a <= b,
{
    if low == high {
        law_rounding_is_unique(low, a, b);
    } else if a > b {
        percent::lemma_key_order_is_value_order(b, a);
        let va = percent::magnitude_value(a);
        let vb = percent::magnitude_value(b);
        assert(distance(va as int, low as int) <= distance(vb as int, low as int));
        assert(distance(vb as int, high as int) <= distance(va as int, high as int));
    }
}

/// The more is used, the less is left: a larger percentage never leaves more than a smaller one.
pub proof fn law_more_used_leaves_no_more(less: Percent, more: Percent)
    requires
        less.in_range(),
        more.in_range(),
        less.key() <= more.key(),
    ensures
        more.left() <= less.left(),
{
    let hundred = percent::magnitude_value(HUNDRED as nat);
    let few = percent::magnitude_value(less.magnitude());
    let many = percent::magnitude_value(more.magnitude());
    if less.magnitude() < more.magnitude() {
        percent::lemma_key_order_is_value_order(less.magnitude(), more.magnitude());
    }
    if more.magnitude() < HUNDRED {
        percent::lemma_key_order_is_value_order(more.magnitude(), HUNDRED as nat);
    }
    let high = (hundred - few) as nat;
    let low = (hundred - many) as nat;
    lemma_rounding_exists(high, HUNDRED as nat);
    lemma_rounding_exists(low, HUNDRED as nat);
    let a = choose|magnitude: nat| rounds_to(low, magnitude);
    let b = choose|magnitude: nat| rounds_to(high, magnitude);
    lemma_rounding_is_monotone(low, high, a, b);
}

/// What is left of one hundred is the double nearest to one hundred less what is used, and never
/// negative.
pub proof fn law_left_is_one_hundred_less_used(used: Percent)
    requires
        used.in_range(),
    ensures
        rounds_to(
            (100 * percent::one() - percent::magnitude_value(used.magnitude())) as nat,
            used.left(),
        ),
        percent::magnitude_value(used.magnitude()) <= 100 * percent::one(),
        used.left() < 0x8000_0000_0000_0000,
{
    percent::lemma_bits_of_one_hundred();
    percent::law_range_is_zero_to_one_hundred(used);
    let value = (100 * percent::one() - percent::magnitude_value(used.magnitude())) as nat;
    lemma_left_is_at_most(value);
    lemma_rounding_exists(value, HUNDRED as nat);
    let magnitude = choose|magnitude: nat| rounds_to(value, magnitude);
    lemma_rounded(value, magnitude);
}

/// A sum of finite percentages that are not negative is the double nearest to their exact sum, or
/// infinite where that is out of reach.
pub proof fn law_sum_is_nearest(a: Percent, b: Percent)
    requires
        0 <= a.key() < INFINITE,
        0 <= b.key() < INFINITE,
        !(a.bits == SIGN && b.bits == SIGN),
    ensures
        exists|magnitude: nat|
            {
                &&& #[trigger] rounds_to(
                    percent::magnitude_value(a.magnitude()) + percent::magnitude_value(
                        b.magnitude(),
                    ),
                    magnitude,
                )
                &&& a.sum(b) == if magnitude < 0x7ff0_0000_0000_0000 {
                    magnitude
                } else {
                    0x7ff0_0000_0000_0000
                }
            },
{
    let value = percent::magnitude_value(a.magnitude()) + percent::magnitude_value(b.magnitude());
    let top = (INFINITE + FRACTION) as nat;
    percent::lemma_key_order_is_value_order(a.magnitude(), INFINITE as nat);
    percent::lemma_key_order_is_value_order(b.magnitude(), INFINITE as nat);
    assert(INFINITE as nat / FRACTION as nat == 2047);
    assert(INFINITE as nat % FRACTION as nat == 0);
    assert(top / FRACTION as nat == 2048);
    assert(top % FRACTION as nat == 0);
    lemma_pow2_unfold(2047);
    assert(FRACTION as nat * (2 * pow2(2046)) == 2 * (FRACTION as nat * pow2(2046)))
        by (nonlinear_arith);
    lemma_rounding_exists(value, top);
    let magnitude = choose|magnitude: nat| rounds_to(value, magnitude);
    lemma_rounded(value, magnitude);
}

/// A sum of percentages does not depend on the order of two of them, and what is infinite stays so.
pub proof fn law_sum_is_symmetric(a: Percent, b: Percent)
    ensures
        a.sum(b) == b.sum(a),
        a.magnitude() == 0x7ff0_0000_0000_0000 && b.magnitude() <= 0x7ff0_0000_0000_0000
            ==> a.sum(b) == 0x7ff0_0000_0000_0000,
{
}

/// Sums are taken from the first to the last, beginning with the first percentage itself.
pub proof fn law_total_adds_up_in_order(percents: Seq<Percent>, next: Percent)
    requires
        0 <= next.key() <= INFINITE,
    ensures
        percents.len() > 0 ==> total(percents.push(next)) == (Percent {
            bits: total(percents).sum(next) as u64,
        }),
        percents.len() == 0 ==> percents.push(next) == seq![next],
        total(seq![next]) == next,
{
    assert(percents.push(next).drop_last() =~= percents);
    if percents.len() == 0 {
        assert(percents.push(next) =~= seq![next]);
    }
    assert(seq![next].drop_last() =~= seq![]);
    assert(total(seq![]) == (Percent { bits: SIGN }));
    let start = Percent { bits: SIGN };
    if next.bits != SIGN && next.magnitude() < INFINITE {
        let value = percent::magnitude_value(next.magnitude());
        lemma2_to64();
        assert(percent::magnitude_value(0) == 0);
        lemma_exact(value, next.magnitude());
        lemma_rounded(value, next.magnitude());
    }
}

/// The percentage of a whole number is finite, has its sign, and is shown as that number without a
/// remainder; that of one hundred is one hundred.
pub proof fn law_whole_number_is_exact(percent: Percent, number: int)
    requires
        percent.is_integer(number),
    ensures
        percent.magnitude() < 0x7ff0_0000_0000_0000,
        percent.bits < 0x8000_0000_0000_0000 <==> number >= 0,
        percent.whole() == if number >= 0 {
            number
        } else {
            -number
        },
        percent::magnitude_value(percent.magnitude()) == percent.whole() * percent::one(),
        number == 0 ==> percent.bits == 0,
        number == 100 ==> percent.bits == HUNDRED,
{
    lemma_pow2_pos(1074);
    let size = distance(number, 0);
    let unit = percent::one() as int;
    let value = percent::magnitude_value(percent.magnitude());
    lemma_fundamental_div_mod_converse(value as int, unit, size, 0);
    assert(percent.whole() == size);
    if number == 0 && percent.magnitude() > 0 {
        percent::lemma_key_order_is_value_order(0, percent.magnitude());
    }
    if number == 100 {
        percent::lemma_bits_of_one_hundred();
        if percent.magnitude() < HUNDRED {
            percent::lemma_key_order_is_value_order(percent.magnitude(), HUNDRED as nat);
        } else if percent.magnitude() > HUNDRED {
            percent::lemma_key_order_is_value_order(HUNDRED as nat, percent.magnitude());
        }
    }
}

/// The double that a value rounds to is at least as near to it as any other; where another is as
/// near, it is the even one.
pub proof fn law_rounding_is_to_the_nearest_even(value: nat, magnitude: nat, other: nat)
    requires
        rounds_to(value, magnitude),
    ensures
        ({
            let near = percent::magnitude_value(magnitude) as int - value as int;
            let far = percent::magnitude_value(other) as int - value as int;
            &&& -far <= near <= far || far <= near <= -far
            &&& other != magnitude && (near == far || near == -far) ==> magnitude % 2 == 0
        }),
{
    let error = distance(percent::magnitude_value(magnitude) as int, value as int);
    let other_error = distance(percent::magnitude_value(other) as int, value as int);
    assert(error <= other_error);
}

} // verus!
