use vstd::prelude::*;
use crate::numeral::{numeral_of_text, Number, Numeral};
use crate::text::{
    all_digits, digit_of, digit_value, digits_value, is_digit, lemma_digits_value_grows,
};

verus! {

/// The weight class of an order. `Unknown` is that of a weight that is no
/// numeral.
#[derive(Clone, Copy, Debug, PartialEq, Eq, Structural, Hash)]
pub enum WeightRange {
    Under2Lbs,
    Between2And5Lbs,
    Over5Lbs,
    Unknown,
}

pub open spec fn pow10(n: nat) -> nat
    decreases n,
{
    if n == 0 {
        1
    } else {
        10 * pow10((n - 1) as nat)
    }
}

/// `(2 - 2^-24) * 10^24`. Weights are single-precision numbers, and
/// `2 - 2^-24` lies halfway between 2 and the next such number below it. A
/// decimal under it is nearest to a number under 2; the halfway point itself
/// goes to 2, the neighbour with the even last bit.
pub const LIGHT_LIMIT: u128 = 1_999_999_940_395_355_224_609_375;

/// `(5 - 2^-22) * 10^24`, halfway between 5 and the next single-precision
/// number below it; the halfway point itself goes to 5.
pub const MEDIUM_LIMIT: u128 = 4_999_999_761_581_420_898_437_500;

/// Whether `d * 10^x` is less than `limit * 10^-24`.
pub open spec fn decimal_below(d: nat, x: int, limit: nat) -> bool {
    if x >= -24 {
        d * pow10((x + 24) as nat) < limit
    } else {
        d < limit * pow10((-24 - x) as nat)
    }
}

/// The weight class of a number: `Under2Lbs` if the single-precision number
/// nearest to it is less than 2, `Between2And5Lbs` if that is at least 2 and
/// less than 5, `Over5Lbs` otherwise, also for what is not a number.
pub open spec fn weight_range_of(numeral: Numeral) -> WeightRange {
    match numeral {
        Numeral::NotANumber => WeightRange::Over5Lbs,
        Numeral::Infinite { negative } => if negative {
            WeightRange::Under2Lbs
        } else {
            WeightRange::Over5Lbs
        },
        Numeral::Decimal { negative, digits, exponent } => {
            if negative || decimal_below(digits_value(digits), exponent, LIGHT_LIMIT as nat) {
                WeightRange::Under2Lbs
            } else if decimal_below(digits_value(digits), exponent, MEDIUM_LIMIT as nat) {
                WeightRange::Between2And5Lbs
            } else {
                WeightRange::Over5Lbs
            }
        },
    }
}

/// The weight class of a weight as text.
pub open spec fn weight_range_of_text(s: Seq<char>) -> WeightRange {
    match numeral_of_text(s) {
        Some(numeral) => weight_range_of(numeral),
        None => WeightRange::Unknown,
    }
}

/// The name under which a weight class is shown.
pub open spec fn weight_range_name(range: WeightRange) -> Seq<char> {
    match range {
        WeightRange::Under2Lbs => "Orders under 2 Pounds"@,
        WeightRange::Between2And5Lbs => "Orders between 2 and 5 pounds"@,
        WeightRange::Over5Lbs => "Orders over 5 Pounds"@,
        WeightRange::Unknown => "Orders where weight is not known"@,
    }
}

/// The number that the first `width` digits of `s` denote, with zeros in
/// the places that `s` is too short to fill.
pub open spec fn leading(s: Seq<char>, width: nat) -> nat
    decreases width,
{
    if width == 0 {
        0
    } else {
        leading(s, (width - 1) as nat) * 10 + if width - 1 < s.len() {
            digit_value(s[width - 1])
        } else {
            0
        }
    }
}

pub proof fn lemma_pow10_adds(a: nat, b: nat)
    ensures
        pow10(a + b) == pow10(a) * pow10(b),
    decreases a,
{
    if a == 0 {
        assert(pow10(a) == 1);
        assert(1 * pow10(b) == pow10(b));
    } else {
        let less = (a - 1) as nat;
        lemma_pow10_adds(less, b);
        assert(pow10(a) == 10 * pow10(less));
        assert(pow10(a + b) == 10 * pow10(less + b));
        assert(10 * (pow10(less) * pow10(b)) == (10 * pow10(less)) * pow10(b))
            by (nonlinear_arith);
    }
}

pub proof fn lemma_pow10_grows(a: nat, b: nat)
    requires
        a <= b,
    ensures
        1 <= pow10(a) <= pow10(b),
    decreases b,
{
    if a < b {
        lemma_pow10_grows(a, (b - 1) as nat);
    } else if a > 0 {
        lemma_pow10_grows((a - 1) as nat, (a - 1) as nat);
    }
}

pub proof fn lemma_pow10_values()
    ensures
        pow10(24) == 1_000_000_000_000_000_000_000_000,
        pow10(25) == 10_000_000_000_000_000_000_000_000,
{
    reveal_with_fuel(pow10, 26);
}

/// The two limits are what the halfway points come to in decimal.
pub proof fn lemma_limits_are_halfway_points()
    ensures
        LIGHT_LIMIT * 0x100_0000 == (2 * 0x100_0000 - 1) * pow10(24),
        MEDIUM_LIMIT * 0x40_0000 == (5 * 0x40_0000 - 1) * pow10(24),
{
    lemma_pow10_values();
}

/// What stands below a limit stands below every greater one: the weight
/// classes follow one another without a gap or an overlap.
pub proof fn lemma_limits_nest(d: nat, x: int, lower: nat, upper: nat)
    requires
        lower <= upper,
        decimal_below(d, x, lower),
    ensures
        decimal_below(d, x, upper),
{
    if x < -24 {
        let e = pow10((-24 - x) as nat);
        assert(lower * e <= upper * e) by (nonlinear_arith)
            requires
                lower <= upper,
        ;
    }
}

/// Zeros in front change nothing.
pub proof fn lemma_zeros_in_front(s: Seq<char>, k: int)
    requires
        0 <= k <= s.len(),
        forall|i: int| 0 <= i < k ==> s[i] == '0',
    ensures
        digits_value(s) == digits_value(s.skip(k)),
    decreases s.len(),
{
    if s.len() == 0 {
        assert(s.skip(k) =~= s);
    } else if k == s.len() {
        lemma_zeros_in_front(s.drop_last(), k - 1);
        assert(s.drop_last().skip(k - 1) =~= Seq::<char>::empty());
        assert(s.skip(k) =~= Seq::<char>::empty());
    } else {
        lemma_zeros_in_front(s.drop_last(), k);
        assert(s.drop_last().skip(k) =~= s.skip(k).drop_last());
        assert(s.skip(k).last() == s.last());
    }
}

/// A run of `n` digits denotes less than `10^n`, and no less than
/// `10^(n - 1)` if it has a first digit other than zero.
pub proof fn lemma_digits_bounds(s: Seq<char>)
    requires
        all_digits(s),
    ensures
        digits_value(s) < pow10(s.len()),
        s.len() > 0 && s[0] != '0' ==> digits_value(s) >= pow10((s.len() - 1) as nat),
    decreases s.len(),
{
    if s.len() > 0 {
        let init = s.drop_last();
        assert(all_digits(init)) by {
            assert forall|i: int| 0 <= i < init.len() implies is_digit(#[trigger] init[i]) by {
                assert(init[i] == s[i]);
            }
        }
        lemma_digits_bounds(init);
        assert(is_digit(s[s.len() - 1]));
        assert(digit_value(s.last()) <= 9);
        if s.len() > 1 {
            assert(init[0] == s[0]);
        }
    }
}

/// A run of digits splits at any place into its two parts' numbers.
pub proof fn lemma_digits_split(s: Seq<char>, m: int)
    requires
        0 <= m <= s.len(),
    ensures
        digits_value(s) == digits_value(s.take(m)) * pow10((s.len() - m) as nat) + digits_value(
            s.skip(m),
        ),
    decreases s.len(),
{
    if m == s.len() {
        assert(s.take(m) =~= s);
        assert(s.skip(m) =~= Seq::<char>::empty());
        assert(pow10(0) == 1);
        assert(digits_value(s) * 1 == digits_value(s));
    } else {
        let init = s.drop_last();
        lemma_digits_split(init, m);
        assert(init.take(m) =~= s.take(m));
        assert(init.skip(m) =~= s.skip(m).drop_last());
        assert(s.skip(m).last() == s.last());
        let a = digits_value(s.take(m));
        let p = pow10((s.len() - 1 - m) as nat);
        let b = digits_value(init.skip(m));
        assert(digits_value(init) == a * p + b);
        assert(digits_value(s.skip(m)) == b * 10 + digit_value(s.last()));
        assert(pow10((s.len() - m) as nat) == 10 * p);
        assert((a * p + b) * 10 == a * (10 * p) + b * 10) by (nonlinear_arith);
    }
}

/// What `leading` comes to: the first `width` digits where there are as
/// many, and all of them with zeros behind where there are fewer.
pub proof fn lemma_leading(s: Seq<char>, width: nat)
    ensures
        width <= s.len() ==> leading(s, width) == digits_value(s.take(width as int)),
        width >= s.len() ==> leading(s, width) == digits_value(s) * pow10(
            (width - s.len()) as nat,
        ),
    decreases width,
{
    assert(pow10(0) == 1);
    assert(digits_value(s) * 1 == digits_value(s));
    if width == 0 {
        assert(s.take(0) =~= Seq::<char>::empty());
    } else {
        lemma_leading(s, (width - 1) as nat);
        if width <= s.len() {
            assert(s.take(width as int).drop_last() =~= s.take(width - 1));
            assert(s.take(width as int).last() == s[width - 1]);
            if width == s.len() {
                assert(s.take(width as int) =~= s);
            }
        } else {
            let v = digits_value(s);
            let p = pow10((width - 1 - s.len()) as nat);
            assert(leading(s, (width - 1) as nat) == v * p);
            assert(pow10((width - s.len()) as nat) == 10 * p);
            assert((v * p) * 10 == v * (10 * p)) by (nonlinear_arith);
        }
    }
}

/// A number of `n` digits, the first not zero, times `10^x`, stands below
/// a limit between 1 and 10 if `n + x` is under 1, above it if `n + x` is
/// over 1, and where `n + x` is 1, as its first 25 digits do.
pub proof fn lemma_decimal_below(s: Seq<char>, x: int, limit: nat)
    requires
        all_digits(s),
        s.len() > 0,
        s[0] != '0',
        pow10(24) <= limit <= pow10(25),
    ensures
        s.len() + x <= 0 ==> decimal_below(digits_value(s), x, limit),
        s.len() + x >= 2 ==> !decimal_below(digits_value(s), x, limit),
        s.len() + x == 1 ==> decimal_below(digits_value(s), x, limit) == (leading(s, 25) < limit),
{
    let d = digits_value(s);
    let n = s.len();
    lemma_digits_bounds(s);
    if n + x <= 0 {
        lemma_pow10_grows(n, (-x) as nat);
        if x >= -24 {
            let e = pow10((x + 24) as nat);
            lemma_pow10_adds((-x) as nat, (x + 24) as nat);
            lemma_pow10_grows(0, (x + 24) as nat);
            assert(d * e < pow10((-x) as nat) * e) by (nonlinear_arith)
                requires
                    d < pow10((-x) as nat),
                    e >= 1,
            ;
        } else {
            let e = pow10((-24 - x) as nat);
            lemma_pow10_adds(24, (-24 - x) as nat);
            assert(pow10(24) * e <= limit * e) by (nonlinear_arith)
                requires
                    pow10(24) <= limit,
            ;
        }
    } else if n + x >= 2 {
        if x >= -24 {
            let e = pow10((x + 24) as nat);
            lemma_pow10_adds((n - 1) as nat, (x + 24) as nat);
            lemma_pow10_grows(25, (n - 1 + x + 24) as nat);
            assert(d * e >= pow10((n - 1) as nat) * e) by (nonlinear_arith)
                requires
                    d >= pow10((n - 1) as nat),
            ;
        } else {
            let e = pow10((-24 - x) as nat);
            lemma_pow10_adds(25, (-24 - x) as nat);
            lemma_pow10_grows((25 + (-24 - x)) as nat, (n - 1) as nat);
            assert(pow10(25) * e >= limit * e) by (nonlinear_arith)
                requires
                    pow10(25) >= limit,
            ;
        }
    } else {
        lemma_leading(s, 25);
        if n <= 25 {
            assert(x + 24 == 25 - n);
        } else {
            let p = pow10((n - 25) as nat);
            let hi = digits_value(s.take(25));
            let lo = digits_value(s.skip(25));
            lemma_digits_split(s, 25);
            assert(all_digits(s.skip(25))) by {
                assert forall|i: int| 0 <= i < s.skip(25).len() implies is_digit(
                    #[trigger] s.skip(25)[i],
                ) by {
                    assert(s.skip(25)[i] == s[i + 25]);
                }
            }
            lemma_digits_bounds(s.skip(25));
            assert(-24 - x == n - 25);
            assert((hi * p + lo < limit * p) == (hi < limit)) by (nonlinear_arith)
                requires
                    0 <= lo < p,
                    hi >= 0,
                    limit >= 0,
            ;
        }
    }
}

/// The number that a run of digits denotes, or `cap` if that is less.
fn value_up_to(digits: &Vec<char>, cap: u128) -> (v: u128)
    requires
        all_digits(digits@),
        0 < cap <= 1_000_000_000_000_000_000_000_000_000_000,
    ensures
        v == if digits_value(digits@) < cap {
            digits_value(digits@)
        } else {
            cap as nat
        },
{
    let mut v: u128 = 0;
    let mut i: usize = 0;
    while i < digits.len()
        invariant
            i <= digits.len(),
            all_digits(digits@),
            0 < cap <= 1_000_000_000_000_000_000_000_000_000_000,
            v == digits_value(digits@.take(i as int)),
            v < cap,
        decreases digits.len() - i,
    {
        let d = digit_of(digits[i]);
        v = v * 10 + d as u128;
        proof {
            assert(digits@.take(i + 1).drop_last() =~= digits@.take(i as int));
            assert(digits@.take(i + 1).last() == digits@[i as int]);
        }
        i = i + 1;
        if v >= cap {
            proof {
                lemma_digits_value_grows(digits@, i as int);
            }
            return cap;
        }
    }
    proof {
        assert(digits@.take(i as int) =~= digits@);
    }
    v
}

/// The first 25 digits of `digits[from..]` as a number, zeros filling up.
fn leading_digits(digits: &Vec<char>, from: usize) -> (v: u128)
    requires
        all_digits(digits@),
        from <= digits.len(),
    ensures
        v == leading(digits@.skip(from as int), 25),
{
    let ghost s = digits@.skip(from as int);
    let mut v: u128 = 0;
    let mut j: usize = 0;
    while j < 25
        invariant
            j <= 25,
            from <= digits.len(),
            all_digits(digits@),
            s == digits@.skip(from as int),
            v == leading(s, j as nat),
            v < pow10(j as nat),
        decreases 25 - j,
    {
        let d: u8 = if j < digits.len() - from {
            assert(s[j as int] == digits@[from + j]);
            digit_of(digits[from + j])
        } else {
            0
        };
        proof {
            lemma_pow10_grows((j + 1) as nat, 25);
            lemma_pow10_values();
        }
        v = v * 10 + d as u128;
        j = j + 1;
    }
    v
}

/// Classifies a decimal. Only the count of its digits, its power of ten and
/// its first 25 digits are looked at, however long it is.
fn decimal_class(number: &Number) -> (range: WeightRange)
    requires
        number.wf(),
        number is Decimal,
    ensures
        range == weight_range_of(number@),
{
    match number {
        Number::Decimal { negative, digits, fraction_len, power_negative, power } => {
            if *negative {
                return WeightRange::Under2Lbs;
            }
            let ghost x = number@->exponent;
            let mut k: usize = 0;
            while k < digits.len() && digits[k] == '0'
                invariant
                    k <= digits.len(),
                    forall|i: int| 0 <= i < k ==> digits@[i] == '0',
                decreases digits.len() - k,
            {
                k = k + 1;
            }
            proof {
                lemma_zeros_in_front(digits@, k as int);
                lemma_pow10_values();
            }
            if k == digits.len() {
                proof {
                    assert(digits@.skip(k as int) =~= Seq::<char>::empty());
                    assert(digits_value(digits@) == 0);
                    if x < -24 {
                        lemma_pow10_grows(0, (-24 - x) as nat);
                        assert(LIGHT_LIMIT as nat * pow10((-24 - x) as nat) > 0)
                            by (nonlinear_arith)
                            requires
                                pow10((-24 - x) as nat) >= 1,
                                LIGHT_LIMIT as nat > 0,
                        ;
                    } else {
                        assert(0 * pow10((x + 24) as nat) == 0);
                    }
                }
                return WeightRange::Under2Lbs;
            }
            let ghost s = digits@.skip(k as int);
            proof {
                assert(all_digits(s)) by {
                    assert forall|i: int| 0 <= i < s.len() implies is_digit(#[trigger] s[i]) by {
                        assert(s[i] == digits@[i + k]);
                    }
                }
                assert(s[0] == digits@[k as int]);
                lemma_decimal_below(s, x, LIGHT_LIMIT as nat);
                lemma_decimal_below(s, x, MEDIUM_LIMIT as nat);
            }
            let cap: u128 = 1_000_000_000_000_000_000_000_000_000_000;
            let p = value_up_to(power, cap);
            let n: i128 = (digits.len() - k) as i128;
            let shift: i128 = if *power_negative {
                -(p as i128)
            } else {
                p as i128
            };
            let q: i128 = n + shift - *fraction_len as i128;
            if q <= 0 {
                WeightRange::Under2Lbs
            } else if q >= 2 {
                WeightRange::Over5Lbs
            } else {
                let lead = leading_digits(digits, k);
                if lead < LIGHT_LIMIT {
                    WeightRange::Under2Lbs
                } else if lead < MEDIUM_LIMIT {
                    WeightRange::Between2And5Lbs
                } else {
                    WeightRange::Over5Lbs
                }
            }
        },
        _ => WeightRange::Unknown,
    }
}

impl WeightRange {
    /// Classifies a weight given as text. A text that is no numeral is
    /// `Unknown`; nothing is rejected here.
    pub fn from_str(weight_str: &str) -> (range: WeightRange)
        ensures
            range == weight_range_of_text(weight_str@),
    {
        match Number::parse(weight_str) {
            Some(number) => WeightRange::of_number(&number),
            None => WeightRange::Unknown,
        }
    }

    /// Classifies a weight that was read as a numeral.
    pub fn of_number(number: &Number) -> (range: WeightRange)
        requires
            number.wf(),
        ensures
            range == weight_range_of(number@),
            range != WeightRange::Unknown,
    {
        match number {
            Number::NotANumber => WeightRange::Over5Lbs,
            Number::Infinite { negative } => if *negative {
                WeightRange::Under2Lbs
            } else {
                WeightRange::Over5Lbs
            },
            Number::Decimal { .. } => decimal_class(number),
        }
    }

    pub fn name(&self) -> (name: String)
        ensures
            name@ == weight_range_name(*self),
    {
        match self {
            WeightRange::Under2Lbs => "Orders under 2 Pounds".to_owned(),
            WeightRange::Between2And5Lbs => "Orders between 2 and 5 pounds".to_owned(),
            WeightRange::Over5Lbs => "Orders over 5 Pounds".to_owned(),
            WeightRange::Unknown => "Orders where weight is not known".to_owned(),
        }
    }
}

} // verus!
