//! Percentages as the bit patterns of double-precision numbers.
//!
//! Quota readings travel as IEEE 754 doubles. The decisions only order them, test them against
//! zero and one hundred, and print them without a fraction, so a percentage is kept as the bits
//! of its double and every operation is integer arithmetic on those bits.

use crate::text;
use vstd::arithmetic::div_mod::*;
use vstd::arithmetic::power2::*;
use vstd::prelude::*;

verus! {

/// The sign bit of a double.
pub const SIGN: u64 = 0x8000_0000_0000_0000;

/// The bits of positive infinity; a larger magnitude is not a number.
pub const INFINITE: u64 = 0x7ff0_0000_0000_0000;

/// The bits of one hundred.
pub const HUNDRED: u64 = 0x4059_0000_0000_0000;

/// The weight of the lowest exponent bit.
pub const FRACTION: u64 = 0x10_0000_0000_0000;

/// A percentage, as the bits of a double.
#[derive(Clone, Copy, Debug, PartialEq, Eq, Structural)]
pub struct Percent {
    pub bits: u64,
}

/// The integer that orders doubles as numbers: the magnitude's bits with the sign of the double.
/// Both zeros have key zero.
pub open spec fn order_key(bits: u64) -> int {
    if bits < SIGN {
        bits as int
    } else {
        -(bits - SIGN)
    }
}

/// The integer that orders doubles as their total order does: negative zero comes before zero.
pub open spec fn total_key(bits: u64) -> int {
    if bits < SIGN {
        bits as int
    } else {
        -(bits - SIGN) - 1
    }
}

/// The value of the finite double with the given magnitude bits, in units of two to the power of
/// minus 1074.
pub open spec fn magnitude_value(magnitude: nat) -> nat {
    let exponent = magnitude / FRACTION as nat;
    let fraction = magnitude % FRACTION as nat;
    if exponent == 0 {
        fraction
    } else {
        (FRACTION as nat + fraction) * pow2((exponent - 1) as nat)
    }
}

/// The unit of one in `magnitude_value`.
pub open spec fn one() -> nat {
    pow2(1074)
}

/// The whole number nearest to `value / unit`; halfway between two, the even one.
pub open spec fn nearest(value: nat, unit: nat) -> nat {
    let whole = value / unit;
    let rest = value % unit;
    if 2 * rest < unit || (2 * rest == unit && whole % 2 == 0) {
        whole
    } else {
        whole + 1
    }
}

impl Percent {
    /// The key by which this percentage is ordered.
    pub open spec fn key(self) -> int {
        order_key(self.bits)
    }

    /// Not a number.
    pub open spec fn nan(self) -> bool {
        self.key() > INFINITE || self.key() < -INFINITE
    }

    /// Neither infinite nor not a number.
    pub open spec fn finite(self) -> bool {
        -INFINITE < self.key() < INFINITE
    }

    /// A number from zero to one hundred.
    pub open spec fn in_range(self) -> bool {
        0 <= self.key() <= HUNDRED
    }

    /// A number that is zero or less.
    pub open spec fn spent(self) -> bool {
        !self.nan() && self.key() <= 0
    }

    /// The bits without the sign.
    pub open spec fn magnitude(self) -> nat {
        if self.bits < SIGN {
            self.bits as nat
        } else {
            (self.bits - SIGN) as nat
        }
    }

    /// The whole number nearest to this finite percentage without its sign.
    pub open spec fn whole(self) -> nat
        recommends
            self.finite(),
    {
        nearest(magnitude_value(self.magnitude()), one())
    }

    /// This percentage as text without a fraction.
    pub open spec fn rounded(self) -> Seq<char> {
        if self.nan() {
            "NaN"@
        } else {
            let sign = if self.bits < SIGN {
                ""@
            } else {
                "-"@
            };
            let size = if self.finite() {
                text::digits(self.whole())
            } else {
                "inf"@
            };
            sign + size
        }
    }

    /// The percentage whose double has the given bits.
    pub fn from_bits(bits: u64) -> (percent: Self)
        ensures
            percent.bits == bits,
    {
        Percent { bits }
    }

    /// The key by which percentages are ordered.
    pub fn rank(self) -> (key: i64)
        ensures
            key == self.key(),
    {
        if self.bits < SIGN {
            self.bits as i64
        } else {
            -((self.bits - SIGN) as i64)
        }
    }

    /// The key of the total order.
    pub fn total_rank(self) -> (key: i64)
        ensures
            key == total_key(self.bits),
    {
        if self.bits < SIGN {
            self.bits as i64
        } else {
            -((self.bits - SIGN) as i64) - 1
        }
    }

    /// Whether this is a number from zero to one hundred.
    pub fn is_in_range(self) -> (answer: bool)
        ensures
            answer == self.in_range(),
    {
        let key: i64 = self.rank();
        0 <= key && key <= HUNDRED as i64
    }

    /// Whether this is a number that is zero or less.
    pub fn is_spent(self) -> (answer: bool)
        ensures
            answer == self.spent(),
    {
        let key: i64 = self.rank();
        -(INFINITE as i64) <= key && key <= 0
    }
}

/// A number below the exponent range of whole numbers rounds to zero.
proof fn lemma_small_rounds_to_zero(mantissa: nat, exponent: nat)
    requires
        1 <= exponent <= 1021,
        mantissa < 2 * FRACTION,
    ensures
        nearest(mantissa * pow2((exponent - 1) as nat), one()) == 0,
{
    let low = pow2((exponent - 1) as nat);
    lemma_pow2_pos((exponent - 1) as nat);
    lemma_pow2_adds((exponent - 1) as nat, 54);
    if exponent + 53 < 1074 {
        lemma_pow2_strictly_increases((exponent + 53) as nat, 1074);
    }
    assert(pow2(54) == 0x40_0000_0000_0000) by {
        lemma2_to64_rest();
    }
    assert(2 * (mantissa * low) < low * pow2(54)) by (nonlinear_arith)
        requires
            mantissa < 0x20_0000_0000_0000,
            low > 0,
            pow2(54) == 0x40_0000_0000_0000,
    ;
    let value = mantissa * low;
    assert(2 * value < one());
    lemma_small_mod(value, one());
    lemma_basic_div(value as int, one() as int);
}

/// Dividing numerator and unit by a common factor leaves the nearest whole number.
proof fn lemma_nearest_scales(value: nat, unit: nat, factor: nat)
    requires
        unit > 0,
        factor > 0,
    ensures
        nearest(value * factor, unit * factor) == nearest(value, unit),
{
    let whole = value / unit;
    let rest = value % unit;
    lemma_fundamental_div_mod(value as int, unit as int);
    assert(value * factor == whole * (unit * factor) + rest * factor) by (nonlinear_arith)
        requires
            value == unit * whole + rest,
    ;
    assert(0 <= rest * factor < unit * factor) by (nonlinear_arith)
        requires
            0 <= rest < unit,
            factor > 0,
    ;
    lemma_fundamental_div_mod_converse(
        (value * factor) as int,
        (unit * factor) as int,
        whole as int,
        (rest * factor) as int,
    );
    assert(2 * (rest * factor) < unit * factor <==> 2 * rest < unit) by (nonlinear_arith)
        requires
            factor > 0,
    ;
    assert(2 * (rest * factor) == unit * factor <==> 2 * rest == unit) by (nonlinear_arith)
        requires
            factor > 0,
    ;
}

/// Two to the given power.
fn power_of_two(exponent: u64) -> (power: u64)
    requires
        exponent < 64,
    ensures
        power == pow2(exponent as nat),
{
    let mut power: u64 = 1;
    let mut i: u64 = 0;
    proof {
        lemma2_to64();
    }
    while i < exponent
        invariant
            i <= exponent < 64,
            power == pow2(i as nat),
        decreases exponent - i,
    {
        proof {
            lemma_pow2_unfold((i + 1) as nat);
            lemma2_to64_rest();
            if i + 1 < 63 {
                lemma_pow2_strictly_increases((i + 1) as nat, 63);
            }
        }
        power = power * 2;
        i = i + 1;
    }
    power
}

/// The value of decimal digits, lowest first.
pub open spec fn digits_value(list: Seq<u8>) -> nat
    decreases list.len(),
{
    if list.len() == 0 {
        0
    } else {
        list[0] as nat + 10 * digits_value(list.drop_first())
    }
}

/// Decimal digits, lowest first, with no leading zero.
pub open spec fn digit_list(list: Seq<u8>) -> bool {
    &&& forall|i: int| 0 <= i < list.len() ==> #[trigger] list[i] < 10
    &&& list.len() > 0
    &&& list.len() > 1 ==> list.last() != 0
}

/// The numeral of a digit list is written highest digit first.
proof fn lemma_digits_of_list(list: Seq<u8>)
    requires
        digit_list(list),
    ensures
        text::digits(digits_value(list)) == Seq::new(
            list.len(),
            |i: int| text::digit_char(list[list.len() - 1 - i] as nat),
        ),
        list.len() > 1 ==> digits_value(list) >= 10,
    decreases list.len(),
{
    let rest = list.drop_first();
    let n = digits_value(list);
    if list.len() == 1 {
        assert(digits_value(rest) == 0);
        assert(text::digits(n) =~= Seq::new(
            list.len(),
            |i: int| text::digit_char(list[list.len() - 1 - i] as nat),
        ));
    } else {
        assert(rest.last() == list.last());
        assert(digit_list(rest)) by {
            assert forall|i: int| 0 <= i < rest.len() implies #[trigger] rest[i] < 10 by {
                assert(rest[i] == list[i + 1]);
            }
        }
        lemma_digits_of_list(rest);
        if list.len() == 2 {
            assert(rest[0] == list[1]);
            assert(digits_value(rest.drop_first()) == 0);
        }
        assert(n == list[0] + 10 * digits_value(rest));
        assert(n / 10 == digits_value(rest));
        assert(n % 10 == list[0]);
        assert(text::digits(n) =~= Seq::new(
            list.len(),
            |i: int| text::digit_char(list[list.len() - 1 - i] as nat),
        ));
    }
}

/// The digits of a machine integer.
fn digits_of(n: u64) -> (list: Vec<u8>)
    ensures
        digit_list(list@),
        digits_value(list@) == n,
    decreases n,
{
    let digit: u8 = (n % 10) as u8;
    let mut list: Vec<u8> = Vec::new();
    list.push(digit);
    if n >= 10 {
        let mut rest: Vec<u8> = digits_of(n / 10);
        let ghost tail = rest@;
        list.append(&mut rest);
        proof {
            assert(list@ =~= seq![digit] + tail);
            assert(list@.drop_first() =~= tail);
            assert(list@.last() == tail.last());
            if tail.len() == 1 {
                assert(digits_value(tail.drop_first()) == 0);
                assert(tail[0] == n / 10);
            }
        }
    } else {
        assert(digits_value(list@.drop_first()) == 0);
    }
    list
}

/// Twice a digit list.
fn doubled(list: &Vec<u8>) -> (twice: Vec<u8>)
    requires
        digit_list(list@),
    ensures
        digit_list(twice@),
        digits_value(twice@) == 2 * digits_value(list@),
{
    let mut twice: Vec<u8> = Vec::new();
    let mut carry: u8 = 0;
    let mut i: usize = 0;
    let ghost mut weight: nat = 1;
    while i < list.len()
        invariant
            i <= list.len(),
            digit_list(list@),
            carry <= 1,
            twice@.len() == i,
            forall|j: int| 0 <= j < i ==> #[trigger] twice@[j] < 10,
            i > 0 ==> (twice@[i - 1] == 0 && carry == 0 ==> list@[i - 1] == 0),
            digits_value(twice@) + carry * power10(i as nat) == 2 * digits_value(
                list@.take(i as int),
            ),
        decreases list.len() - i,
    {
        assert(list@[i as int] < 10);
        let sum: u8 = 2 * list[i] + carry;
        let ghost old_twice = twice@;
        let ghost old_carry = carry;
        let digit: u8 = if sum >= 10 {
            sum - 10
        } else {
            sum
        };
        carry = if sum >= 10 {
            1
        } else {
            0
        };
        twice.push(digit);
        proof {
            lemma_value_push(old_twice, digit);
            assert(list@.take(i + 1) =~= list@.take(i as int).push(list@[i as int]));
            lemma_value_push(list@.take(i as int), list@[i as int]);
            let w = power10(i as nat);
            assert(digit * w + carry * (10 * w) == 2 * (list@[i as int] * w) + old_carry * w)
                by (nonlinear_arith)
                requires
                    digit + 10 * carry == 2 * list@[i as int] + old_carry,
            ;
        }
        i = i + 1;
    }
    assert(list@.take(list.len() as int) =~= list@);
    if carry > 0 {
        let ghost old_twice = twice@;
        twice.push(carry);
        proof {
            lemma_value_push(old_twice, carry);
        }
    } else {
        proof {
            assert(carry * power10(i as nat) == 0) by (nonlinear_arith)
                requires
                    carry == 0,
            ;
        }
    }
    twice
}

/// Ten to the given power.
pub open spec fn power10(n: nat) -> nat
    decreases n,
{
    if n == 0 {
        1
    } else {
        10 * power10((n - 1) as nat)
    }
}

/// One more digit on top adds its weight.
proof fn lemma_value_push(list: Seq<u8>, digit: u8)
    ensures
        digits_value(list.push(digit)) == digits_value(list) + digit * power10(list.len()),
    decreases list.len(),
{
    let longer = list.push(digit);
    if list.len() == 0 {
        assert(longer.drop_first() =~= Seq::<u8>::empty());
        assert(digits_value(longer.drop_first()) == 0);
        assert(digits_value(longer) == digit);
        assert(power10(0) == 1);
    } else {
        lemma_value_push(list.drop_first(), digit);
        assert(longer.drop_first() =~= list.drop_first().push(digit));
        let w = power10((list.len() - 1) as nat);
        assert(10 * (digit * w) == digit * (10 * w)) by (nonlinear_arith);
    }
}

/// The numeral of a digit list.
fn digits_numeral(list: &Vec<u8>) -> (text: String)
    requires
        digit_list(list@),
    ensures
        text@ == text::digits(digits_value(list@)),
{
    let mut text: String = String::new();
    let mut i: usize = list.len();
    while i > 0
        invariant
            i <= list.len(),
            digit_list(list@),
            text@ == Seq::new(
                (list.len() - i) as nat,
                |j: int| text::digit_char(list@[list.len() - 1 - j] as nat),
            ),
        decreases i,
    {
        i = i - 1;
        assert(list@[i as int] < 10);
        let ghost before = text@;
        let code: u8 = 48u8 + list[i];
        text.push(code as char);
        assert(text@ =~= Seq::new(
            (list.len() - i) as nat,
            |j: int| text::digit_char(list@[list.len() - 1 - j] as nat),
        ));
    }
    proof {
        lemma_digits_of_list(list@);
    }
    text
}

/// Prints a finite percentage without its sign and without a fraction.
fn whole_numeral(percent: Percent) -> (text: String)
    requires
        percent.finite(),
    ensures
        text@ == text::digits(percent.whole()),
{
    let magnitude: u64 = if percent.bits < SIGN {
        percent.bits
    } else {
        percent.bits - SIGN
    };
    let exponent: u64 = magnitude / FRACTION;
    let fraction: u64 = magnitude % FRACTION;
    let ghost value = magnitude_value(magnitude as nat);
    assert(exponent < 2047);
    if exponent < 1022 {
        proof {
            lemma_pow2_pos(0);
            lemma2_to64();
            if exponent == 0 {
                lemma_small_rounds_to_zero(fraction as nat, 1);
                assert(fraction as nat * pow2(0) == fraction) by (nonlinear_arith)
                    requires
                        pow2(0) == 1,
                ;
            } else {
                lemma_small_rounds_to_zero((FRACTION + fraction) as nat, exponent as nat);
            }
        }
        return digits_numeral(&digits_of(0));
    }
    let mantissa: u64 = FRACTION + fraction;
    let ghost low = pow2((exponent - 1) as nat);
    if exponent < 1075 {
        let shift: u64 = 1075 - exponent;
        let unit: u64 = power_of_two(shift);
        proof {
            lemma_pow2_pos((exponent - 1) as nat);
            lemma_pow2_pos(shift as nat);
            lemma_pow2_adds(shift as nat, (exponent - 1) as nat);
            assert(one() == pow2(shift as nat) * low);
            lemma_nearest_scales(mantissa as nat, unit as nat, low);
        }
        let whole: u64 = mantissa / unit;
        let rest: u64 = mantissa % unit;
        proof {
            lemma2_to64_rest();
            if shift < 53 {
                lemma_pow2_strictly_increases(shift as nat, 53);
            }
            lemma_div_is_ordered_by_denominator(mantissa as int, 1, unit as int);
        }
        if 2 * rest < unit || (2 * rest == unit && whole % 2 == 0) {
            digits_numeral(&digits_of(whole))
        } else {
            digits_numeral(&digits_of(whole + 1))
        }
    } else {
        let mut list: Vec<u8> = digits_of(mantissa);
        let mut i: u64 = 1075;
        proof {
            lemma2_to64();
            assert(mantissa as nat * pow2(0) == mantissa) by (nonlinear_arith)
                requires
                    pow2(0) == 1,
            ;
        }
        while i < exponent
            invariant
                1075 <= i <= exponent < 2047,
                digit_list(list@),
                digits_value(list@) == mantissa as nat * pow2((i - 1075) as nat),
            decreases exponent - i,
        {
            list = doubled(&list);
            proof {
                let p = pow2((i - 1075) as nat);
                lemma_pow2_unfold((i + 1 - 1075) as nat);
                assert(2 * (mantissa as nat * p) == mantissa as nat * (2 * p)) by (nonlinear_arith);
            }
            i = i + 1;
        }
        proof {
            let whole = mantissa as nat * pow2((exponent - 1075) as nat);
            lemma_pow2_pos(1074);
            lemma_pow2_adds((exponent - 1075) as nat, 1074);
            assert(value == whole * one()) by (nonlinear_arith)
                requires
                    value == mantissa as nat * low,
                    low == pow2((exponent - 1075) as nat) * one(),
                    whole == mantissa as nat * pow2((exponent - 1075) as nat),
            ;
            lemma_mod_multiples_basic(whole as int, one() as int);
            lemma_div_by_multiple(whole as int, one() as int);
        }
        digits_numeral(&list)
    }
}

/// Prints a percentage without a fraction.
pub fn rounded_text(percent: Percent) -> (text: String)
    ensures
        text@ == percent.rounded(),
{
    let key: i64 = percent.rank();
    let infinite: i64 = INFINITE as i64;
    if key > infinite || key < -infinite {
        return "NaN".to_owned();
    }
    let mut text: String = if percent.bits < SIGN {
        "".to_owned()
    } else {
        "-".to_owned()
    };
    if key == infinite || key == -infinite {
        text.append("inf");
    } else {
        let size: String = whole_numeral(percent);
        text.append(size.as_str());
    }
    text
}

/// Larger keys are larger numbers: on non-negative doubles the order of the bits is the order of the
/// values.
pub proof fn lemma_key_order_is_value_order(a: nat, b: nat)
    requires
        a < b,
    ensures
        magnitude_value(a) < magnitude_value(b),
{
    let ea = a / FRACTION as nat;
    let eb = b / FRACTION as nat;
    let fa = a % FRACTION as nat;
    let fb = b % FRACTION as nat;
    lemma2_to64();
    if ea == eb {
        if ea > 0 {
            let low = pow2((ea - 1) as nat);
            lemma_pow2_pos((ea - 1) as nat);
            assert((FRACTION as nat + fa) * low < (FRACTION as nat + fb) * low) by (nonlinear_arith)
                requires
                    fa < fb,
                    low > 0,
            ;
        }
    } else if ea == 0 {
        let low = pow2((eb - 1) as nat);
        lemma_pow2_pos((eb - 1) as nat);
        assert((FRACTION as nat + fb) * low >= FRACTION as nat) by (nonlinear_arith)
            requires
                low >= 1,
        ;
    } else {
        let low = pow2((ea - 1) as nat);
        let high = pow2((eb - 1) as nat);
        lemma_pow2_pos((ea - 1) as nat);
        lemma_pow2_unfold(ea);
        if ea < eb - 1 {
            lemma_pow2_strictly_increases(ea, (eb - 1) as nat);
        }
        assert((FRACTION as nat + fa) * low < (FRACTION as nat + fb) * high) by (nonlinear_arith)
            requires
                fa < FRACTION,
                low > 0,
                high >= 2 * low,
        ;
    }
}

/// The bits of one hundred stand for one hundred.
pub proof fn lemma_bits_of_one_hundred()
    ensures
        magnitude_value(HUNDRED as nat) == 100 * one(),
{
    lemma2_to64();
    lemma_pow2_adds(46, 1028);
    assert(pow2(46) == 0x4000_0000_0000) by {
        lemma2_to64_rest();
    }
    let low = pow2(1028);
    assert(HUNDRED as nat / FRACTION as nat == 1029);
    assert(HUNDRED as nat % FRACTION as nat == 0x9_0000_0000_0000);
    assert(0x19_0000_0000_0000 * low == 100 * (0x4000_0000_0000 * low)) by (nonlinear_arith);
}

/// A percentage is in range exactly where it stands for a number from zero to one hundred, negative
/// zero included.
pub proof fn law_range_is_zero_to_one_hundred(percent: Percent)
    ensures
        percent.in_range() <==> {
            &&& percent.bits < SIGN || percent.magnitude() == 0
            &&& magnitude_value(percent.magnitude()) <= 100 * one()
        },
{
    lemma_bits_of_one_hundred();
    if percent.magnitude() < HUNDRED {
        lemma_key_order_is_value_order(percent.magnitude(), HUNDRED as nat);
    } else if percent.magnitude() > HUNDRED {
        lemma_key_order_is_value_order(HUNDRED as nat, percent.magnitude());
    }
}

/// Percentages that are numbers are ordered as the numbers they stand for: a smaller key is a
/// smaller number, and equal keys are equal numbers, negative zero being zero.
pub proof fn law_keys_order_numbers(a: Percent, b: Percent)
    ensures
        ({
            let first = if a.bits < 0x8000_0000_0000_0000 {
                magnitude_value(a.bits as nat) as int
            } else {
                -(magnitude_value((a.bits - 0x8000_0000_0000_0000) as nat) as int)
            };
            let second = if b.bits < 0x8000_0000_0000_0000 {
                magnitude_value(b.bits as nat) as int
            } else {
                -(magnitude_value((b.bits - 0x8000_0000_0000_0000) as nat) as int)
            };
            &&& a.key() < b.key() <==> first < second
            &&& a.key() == b.key() <==> first == second
        }),
{
    let m = a.magnitude();
    let n = b.magnitude();
    lemma2_to64();
    assert(magnitude_value(0) == 0);
    if m > 0 {
        lemma_key_order_is_value_order(0, m);
    }
    if n > 0 {
        lemma_key_order_is_value_order(0, n);
    }
    if m < n {
        lemma_key_order_is_value_order(m, n);
    } else if n < m {
        lemma_key_order_is_value_order(n, m);
    }
}

/// A quota is spent exactly where it is a number that is not above zero.
pub proof fn law_spent_is_nothing_left(percent: Percent)
    ensures
        percent.spent() <==> {
            &&& percent.magnitude() <= 0x7ff0_0000_0000_0000
            &&& percent.bits >= 0x8000_0000_0000_0000 || percent.bits == 0
        },
        percent.nan() <==> percent.magnitude() > 0x7ff0_0000_0000_0000,
        percent.finite() <==> percent.magnitude() < 0x7ff0_0000_0000_0000,
        percent.magnitude() == percent.bits || percent.magnitude() + 0x8000_0000_0000_0000
            == percent.bits,
        percent.magnitude() < 0x8000_0000_0000_0000,
{
}

/// The total order puts negative zero just before zero, and is otherwise the order of numbers.
pub proof fn law_total_order_refines(a: Percent, b: Percent)
    ensures
        a.key() < b.key() ==> total_key(a.bits) < total_key(b.bits),
        total_key(a.bits) == total_key(b.bits) <==> a.bits == b.bits,
        a.bits == 0x8000_0000_0000_0000 && b.bits == 0 ==> total_key(a.bits) < total_key(b.bits),
{
}

/// A percentage is shown as the whole number nearest to it, and as the even one of two that are
/// equally near.
pub proof fn law_shown_number_is_nearest(percent: Percent)
    requires
        percent.finite(),
    ensures
        ({
            let value = magnitude_value(percent.magnitude()) as int;
            let shown = percent.whole() as int * one() as int;
            &&& -(one() as int) <= 2 * (shown - value) <= one()
            &&& 2 * (shown - value) == one() || 2 * (value - shown) == one() ==> percent.whole() % 2
                == 0
        }),
        percent.rounded() == (if percent.bits < 0x8000_0000_0000_0000 {
            seq![]
        } else {
            seq!['-']
        }) + text::digits(percent.whole()),
{
    lemma_pow2_pos(1074);
    reveal_strlit("");
    reveal_strlit("-");
    assert(""@ =~= seq![]);
    assert("-"@ =~= seq!['-']);
    let value = magnitude_value(percent.magnitude());
    let unit = one();
    lemma_fundamental_div_mod(value as int, unit as int);
    let whole = value / unit;
    let rest = value % unit;
    assert(value as int == whole as int * unit as int + rest as int) by (nonlinear_arith)
        requires
            value as int == unit as int * whole as int + rest as int,
    ;
    assert((whole + 1) as int * unit as int == whole as int * unit as int + unit as int)
        by (nonlinear_arith);
}

} // verus!
