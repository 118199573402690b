use vstd::prelude::*;
use crate::text::{
    all_digits, chars_of, digits_value, find_char, only_digits, position_of, slice_of,
};

verus! {

/// What a numeral denotes, before any rounding: not a number, an infinity,
/// or the decimal `digits * 10^exponent` with its sign.
pub enum Numeral {
    NotANumber,
    Infinite { negative: bool },
    Decimal { negative: bool, digits: Seq<char>, exponent: int },
}

/// A capital letter of the Latin alphabet as its small letter; any other
/// character as itself.
pub open spec fn small(c: char) -> char {
    if 'A' <= c <= 'Z' {
        ((c as u32) + 32) as char
    } else {
        c
    }
}

/// Whether `s` spells `word`, capitals counting as small letters.
pub open spec fn spells(s: Seq<char>, word: Seq<char>) -> bool {
    &&& s.len() == word.len()
    &&& forall|i: int| 0 <= i < s.len() ==> small(#[trigger] s[i]) == word[i]
}

/// Where the first `e` or `E` of `s` at or after `from` stands; the length of
/// `s` if there is none.
pub open spec fn exponent_mark(s: Seq<char>, from: int) -> int
    decreases s.len() - from,
{
    if from < 0 || from >= s.len() {
        s.len() as int
    } else if s[from] == 'e' || s[from] == 'E' {
        from
    } else {
        exponent_mark(s, from + 1)
    }
}

pub open spec fn has_sign(s: Seq<char>) -> bool {
    s.len() > 0 && (s[0] == '-' || s[0] == '+')
}

pub open spec fn has_minus(s: Seq<char>) -> bool {
    s.len() > 0 && s[0] == '-'
}

/// A text without its sign, if it has one.
pub open spec fn unsigned_part(s: Seq<char>) -> Seq<char> {
    if has_sign(s) {
        s.drop_first()
    } else {
        s
    }
}

/// The power of ten that the text after an exponent mark denotes: an
/// optional sign and one or more digits.
pub open spec fn power_of_text(t: Seq<char>) -> Option<int> {
    let digits = unsigned_part(t);
    if digits.len() > 0 && all_digits(digits) {
        Some(
            if has_minus(t) {
                -(digits_value(digits) as int)
            } else {
                digits_value(digits) as int
            },
        )
    } else {
        None
    }
}

/// The digits before the point of a mantissa.
pub open spec fn whole_part(mantissa: Seq<char>) -> Seq<char> {
    mantissa.take(position_of(mantissa, '.', 0))
}

/// The digits after the point of a mantissa; none if it has no point.
pub open spec fn fraction_part(mantissa: Seq<char>) -> Seq<char> {
    let point = position_of(mantissa, '.', 0);
    if point < mantissa.len() {
        mantissa.skip(point + 1)
    } else {
        Seq::empty()
    }
}

/// The digits and the power of ten of an unsigned decimal numeral: digits
/// with at most one point among them and at least one digit in all, then,
/// if an `e` or `E` follows, a power of ten.
pub open spec fn decimal_of_text(body: Seq<char>) -> Option<(Seq<char>, int)> {
    let mark = exponent_mark(body, 0);
    let mantissa = body.take(mark);
    let whole = whole_part(mantissa);
    let fraction = fraction_part(mantissa);
    let power = if mark < body.len() {
        power_of_text(body.skip(mark + 1))
    } else {
        Some(0int)
    };
    if all_digits(whole) && all_digits(fraction) && whole.len() + fraction.len() > 0
        && power is Some {
        Some((whole + fraction, power->0 - fraction.len()))
    } else {
        None
    }
}

/// What an unsigned decimal numeral denotes, with the sign given.
pub open spec fn decimal_numeral(body: Seq<char>, negative: bool) -> Option<Numeral> {
    match decimal_of_text(body) {
        Some((digits, exponent)) => Some(Numeral::Decimal { negative, digits, exponent }),
        None => None,
    }
}

/// What a text denotes as a number, if it is a numeral: an optional sign,
/// then `inf`, `infinity` or `nan` in any mix of capitals and small letters,
/// or a decimal numeral. Blanks are no part of a numeral.
pub open spec fn numeral_of_text(s: Seq<char>) -> Option<Numeral> {
    let body = unsigned_part(s);
    let negative = has_minus(s);
    if spells(body, "inf"@) || spells(body, "infinity"@) {
        Some(Numeral::Infinite { negative })
    } else if spells(body, "nan"@) {
        Some(Numeral::NotANumber)
    } else {
        decimal_numeral(body, negative)
    }
}

/// Whether a text is a numeral.
pub open spec fn is_numeral(s: Seq<char>) -> bool {
    numeral_of_text(s) is Some
}

/// A numeral as it was read: the digits of a decimal as written, point
/// removed, and its power of ten still in digits, since either may be longer
/// than any machine number.
pub enum Number {
    NotANumber,
    Infinite { negative: bool },
    Decimal {
        negative: bool,
        digits: Vec<char>,
        fraction_len: usize,
        power_negative: bool,
        power: Vec<char>,
    },
}

impl Number {
    /// The digits are digits, and the fraction is part of them.
    pub open spec fn wf(&self) -> bool {
        match *self {
            Number::Decimal { digits, fraction_len, power, .. } => {
                &&& all_digits(digits@)
                &&& all_digits(power@)
                &&& digits@.len() > 0
                &&& fraction_len <= digits@.len()
            },
            _ => true,
        }
    }

    pub open spec fn view(&self) -> Numeral {
        match *self {
            Number::NotANumber => Numeral::NotANumber,
            Number::Infinite { negative } => Numeral::Infinite { negative },
            Number::Decimal { negative, digits, fraction_len, power_negative, power } => {
                Numeral::Decimal {
                    negative,
                    digits: digits@,
                    exponent: if power_negative {
                        -(digits_value(power@) as int) - fraction_len
                    } else {
                        digits_value(power@) as int - fraction_len
                    },
                }
            },
        }
    }

    /// Reads a numeral. Gives `None` for a text that is none.
    pub fn parse(text: &str) -> (r: Option<Number>)
        ensures
            r is Some <==> is_numeral(text@),
            r matches Some(number) ==> number.wf() && Some(number@) == numeral_of_text(text@),
    {
        let chars = chars_of(text);
        let len = chars.len();
        let negative = len > 0 && chars[0] == '-';
        let signed = len > 0 && (chars[0] == '-' || chars[0] == '+');
        let body = if signed {
            slice_of(&chars, 1, len)
        } else {
            slice_of(&chars, 0, len)
        };
        assert(body@ =~= unsigned_part(text@));
        if spells_word(&body, "inf") || spells_word(&body, "infinity") {
            return Some(Number::Infinite { negative });
        }
        if spells_word(&body, "nan") {
            return Some(Number::NotANumber);
        }
        parse_decimal(&body, negative)
    }
}

fn small_of(c: char) -> (r: char)
    ensures
        r == small(c),
{
    if 'A' <= c && c <= 'Z' {
        let code: u32 = c as u32 + 32;
        assert(code == 'a' as u32 + (c as u32 - 'A' as u32));
        code as u8 as char
    } else {
        c
    }
}

fn spells_word(s: &Vec<char>, word: &str) -> (b: bool)
    ensures
        b == spells(s@, word@),
{
    let letters = chars_of(word);
    if s.len() != letters.len() {
        return false;
    }
    let mut i: usize = 0;
    while i < s.len()
        invariant
            i <= s.len(),
            s.len() == letters.len(),
            letters@ == word@,
            forall|j: int| 0 <= j < i ==> small(#[trigger] s@[j]) == letters@[j],
        decreases s.len() - i,
    {
        if small_of(s[i]) != letters[i] {
            return false;
        }
        i = i + 1;
    }
    true
}

fn find_exponent_mark(s: &Vec<char>) -> (at: usize)
    ensures
        at == exponent_mark(s@, 0),
        at <= s.len(),
{
    let mut at: usize = 0;
    while at < s.len() && s[at] != 'e' && s[at] != 'E'
        invariant
            at <= s.len(),
            exponent_mark(s@, 0) == exponent_mark(s@, at as int),
        decreases s.len() - at,
    {
        at = at + 1;
    }
    at
}

/// Reads an unsigned decimal numeral.
fn parse_decimal(body: &Vec<char>, negative: bool) -> (r: Option<Number>)
    ensures
        r is Some <==> decimal_of_text(body@) is Some,
        r matches Some(number) ==> number.wf() && Some(number@) == decimal_numeral(
            body@,
            negative,
        ),
{
    let mark = find_exponent_mark(body);
    let mantissa = slice_of(body, 0, mark);
    let point = find_char(&mantissa, '.', 0);
    let whole = slice_of(&mantissa, 0, point);
    let fraction = if point < mantissa.len() {
        slice_of(&mantissa, point + 1, mantissa.len())
    } else {
        Vec::new()
    };
    assert(whole@ =~= whole_part(mantissa@));
    assert(fraction@ =~= fraction_part(mantissa@));
    if !only_digits(&whole) || !only_digits(&fraction) {
        return None;
    }
    if whole.len() == 0 && fraction.len() == 0 {
        return None;
    }
    let mut power_negative = false;
    let mut power: Vec<char> = Vec::new();
    if mark < body.len() {
        let tail = slice_of(body, mark + 1, body.len());
        assert(tail@ =~= body@.skip(mark + 1));
        power_negative = tail.len() > 0 && tail[0] == '-';
        let signed = tail.len() > 0 && (tail[0] == '-' || tail[0] == '+');
        power = if signed {
            slice_of(&tail, 1, tail.len())
        } else {
            slice_of(&tail, 0, tail.len())
        };
        assert(power@ =~= unsigned_part(tail@));
        if power.len() == 0 || !only_digits(&power) {
            return None;
        }
    }
    let fraction_len = fraction.len();
    let mut digits = whole;
    let mut fraction = fraction;
    digits.append(&mut fraction);
    Some(Number::Decimal { negative, digits, fraction_len, power_negative, power })
}

/// Says whether a text is a numeral.
pub fn is_number(text: &str) -> (b: bool)
    ensures
        b == is_numeral(text@),
{
    Number::parse(text).is_some()
}

} // verus!
