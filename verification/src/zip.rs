use vstd::prelude::*;
use crate::text::{
    all_digits, chars_of, digit_of, digits_value, find_char, is_digit_char,
    lemma_digits_value_grows, position_of,
};

verus! {

/// A state or territory of the United States, by its postal abbreviation.
#[derive(Clone, Copy, Debug, PartialEq, Eq, Structural, Hash)]
pub enum Province {
    AK, AL, AR, AZ, CA, CO, CT, DC, DE, FL, GA, HI, IA, ID, IL, IN, KS, KY, LA, MA, MD, ME, MI,
    MN, MO, MS, MT, NC, ND, NE, NH, NJ, NM, NV, NY, OH, OK, OR, PA, PR, RI, SC, SD, TN, TX, UT,
    VA, VT, WA, WI, WV, WY,
}

/// One row of the zip table: every zip code from `first` to `last`, both
/// included, belongs to `province`, unless an earlier row claims it.
#[derive(Clone, Copy, Debug, PartialEq, Eq, Structural)]
pub struct ZipRange {
    pub first: u32,
    pub last: u32,
    pub province: Province,
}

impl ZipRange {
    pub open spec fn covers(self, zip: u32) -> bool {
        self.first <= zip <= self.last
    }
}

pub open spec fn range(first: u32, last: u32, province: Province) -> ZipRange {
    ZipRange { first, last, province }
}

/// The zip table. Its order matters: a few zip codes lie in two rows, and the
/// row that comes first decides.
pub open spec fn zip_ranges() -> Seq<ZipRange> {
    seq![
        range(20042, 20042, Province::VA),
        range(20331, 20331, Province::MD),
        range(99501, 99950, Province::AK),
        range(35004, 36925, Province::AL),
        range(71601, 72959, Province::AR),
        range(75502, 75502, Province::AR),
        range(85001, 86556, Province::AZ),
        range(90001, 96162, Province::CA),
        range(80001, 81658, Province::CO),
        range(6001, 6389, Province::CT),
        range(6401, 6928, Province::CT),
        range(20001, 20039, Province::DC),
        range(20042, 20599, Province::DC),
        range(20799, 20799, Province::DC),
        range(19701, 19980, Province::DE),
        range(32004, 34997, Province::FL),
        range(30001, 31999, Province::GA),
        range(39901, 39901, Province::GA),
        range(96701, 96898, Province::HI),
        range(50001, 52809, Province::IA),
        range(68119, 68120, Province::IA),
        range(83201, 83876, Province::ID),
        range(60001, 62999, Province::IL),
        range(46001, 47997, Province::IN),
        range(66002, 67954, Province::KS),
        range(40003, 42788, Province::KY),
        range(70001, 71232, Province::LA),
        range(71234, 71497, Province::LA),
        range(1001, 2791, Province::MA),
        range(5501, 5544, Province::MA),
        range(20335, 20797, Province::MD),
        range(20812, 21930, Province::MD),
        range(3901, 4992, Province::ME),
        range(48001, 49971, Province::MI),
        range(55001, 56763, Province::MN),
        range(63001, 65899, Province::MO),
        range(38601, 39776, Province::MS),
        range(71233, 71233, Province::MS),
        range(59001, 59937, Province::MT),
        range(27006, 28909, Province::NC),
        range(58001, 58856, Province::ND),
        range(68001, 68118, Province::NE),
        range(68122, 69367, Province::NE),
        range(3031, 3897, Province::NH),
        range(7001, 8989, Province::NJ),
        range(87001, 88441, Province::NM),
        range(88901, 89883, Province::NV),
        range(6390, 6390, Province::NY),
        range(10001, 14975, Province::NY),
        range(43001, 45999, Province::OH),
        range(73001, 73199, Province::OK),
        range(73401, 74966, Province::OK),
        range(97001, 97920, Province::OR),
        range(15001, 19640, Province::PA),
        range(600, 799, Province::PR),
        range(900, 999, Province::PR),
        range(2801, 2940, Province::RI),
        range(29001, 29948, Province::SC),
        range(57001, 57799, Province::SD),
        range(37010, 38589, Province::TN),
        range(73301, 73301, Province::TX),
        range(75001, 75501, Province::TX),
        range(75503, 79999, Province::TX),
        range(88510, 88589, Province::TX),
        range(84001, 84784, Province::UT),
        range(20040, 20041, Province::VA),
        range(20040, 20167, Province::VA),
        range(22001, 24658, Province::VA),
        range(5001, 5495, Province::VT),
        range(5601, 5907, Province::VT),
        range(98001, 99403, Province::WA),
        range(53001, 54990, Province::WI),
        range(24701, 26886, Province::WV),
        range(82001, 83128, Province::WY),
    ]
}

/// The province of the first row at or after `from` that covers `zip`.
pub open spec fn first_cover(table: Seq<ZipRange>, zip: u32, from: int) -> Option<Province>
    decreases table.len() - from,
{
    if from < 0 || from >= table.len() {
        None
    } else if table[from].covers(zip) {
        Some(table[from].province)
    } else {
        first_cover(table, zip, from + 1)
    }
}

/// The province that a zip code belongs to, if any.
pub open spec fn province_of_zip(zip: u32) -> Option<Province> {
    first_cover(zip_ranges(), zip, 0)
}

fn entry(first: u32, last: u32, province: Province) -> (r: ZipRange)
    ensures
        r == range(first, last, province),
{
    ZipRange { first, last, province }
}

/// The zip table as a vector, row for row.
pub fn zip_table() -> (table: Vec<ZipRange>)
    ensures
        table@ == zip_ranges(),
{
    let table = vec![
        entry(20042, 20042, Province::VA),
        entry(20331, 20331, Province::MD),
        entry(99501, 99950, Province::AK),
        entry(35004, 36925, Province::AL),
        entry(71601, 72959, Province::AR),
        entry(75502, 75502, Province::AR),
        entry(85001, 86556, Province::AZ),
        entry(90001, 96162, Province::CA),
        entry(80001, 81658, Province::CO),
        entry(6001, 6389, Province::CT),
        entry(6401, 6928, Province::CT),
        entry(20001, 20039, Province::DC),
        entry(20042, 20599, Province::DC),
        entry(20799, 20799, Province::DC),
        entry(19701, 19980, Province::DE),
        entry(32004, 34997, Province::FL),
        entry(30001, 31999, Province::GA),
        entry(39901, 39901, Province::GA),
        entry(96701, 96898, Province::HI),
        entry(50001, 52809, Province::IA),
        entry(68119, 68120, Province::IA),
        entry(83201, 83876, Province::ID),
        entry(60001, 62999, Province::IL),
        entry(46001, 47997, Province::IN),
        entry(66002, 67954, Province::KS),
        entry(40003, 42788, Province::KY),
        entry(70001, 71232, Province::LA),
        entry(71234, 71497, Province::LA),
        entry(1001, 2791, Province::MA),
        entry(5501, 5544, Province::MA),
        entry(20335, 20797, Province::MD),
        entry(20812, 21930, Province::MD),
        entry(3901, 4992, Province::ME),
        entry(48001, 49971, Province::MI),
        entry(55001, 56763, Province::MN),
        entry(63001, 65899, Province::MO),
        entry(38601, 39776, Province::MS),
        entry(71233, 71233, Province::MS),
        entry(59001, 59937, Province::MT),
        entry(27006, 28909, Province::NC),
        entry(58001, 58856, Province::ND),
        entry(68001, 68118, Province::NE),
        entry(68122, 69367, Province::NE),
        entry(3031, 3897, Province::NH),
        entry(7001, 8989, Province::NJ),
        entry(87001, 88441, Province::NM),
        entry(88901, 89883, Province::NV),
        entry(6390, 6390, Province::NY),
        entry(10001, 14975, Province::NY),
        entry(43001, 45999, Province::OH),
        entry(73001, 73199, Province::OK),
        entry(73401, 74966, Province::OK),
        entry(97001, 97920, Province::OR),
        entry(15001, 19640, Province::PA),
        entry(600, 799, Province::PR),
        entry(900, 999, Province::PR),
        entry(2801, 2940, Province::RI),
        entry(29001, 29948, Province::SC),
        entry(57001, 57799, Province::SD),
        entry(37010, 38589, Province::TN),
        entry(73301, 73301, Province::TX),
        entry(75001, 75501, Province::TX),
        entry(75503, 79999, Province::TX),
        entry(88510, 88589, Province::TX),
        entry(84001, 84784, Province::UT),
        entry(20040, 20041, Province::VA),
        entry(20040, 20167, Province::VA),
        entry(22001, 24658, Province::VA),
        entry(5001, 5495, Province::VT),
        entry(5601, 5907, Province::VT),
        entry(98001, 99403, Province::WA),
        entry(53001, 54990, Province::WI),
        entry(24701, 26886, Province::WV),
        entry(82001, 83128, Province::WY),
    ];
    assert(table@ =~= zip_ranges());
    table
}

/// Why a zip text names no province.
#[derive(Clone, Copy, Debug, PartialEq, Eq, Structural)]
pub enum ZipError {
    /// The text is empty.
    Empty,
    /// What stands before the first hyphen is not a number of 32 bits.
    NotANumber,
    /// No row of the zip table covers the number.
    Unassigned,
}

/// The part of a zip text that holds the number: all that stands before the
/// first hyphen.
pub open spec fn zip_prefix(s: Seq<char>) -> Seq<char> {
    s.take(position_of(s, '-', 0))
}

/// The number that a text denotes: an optional `+`, then one or more decimal
/// digits, nothing else, and a value of at most 32 bits.
pub open spec fn unsigned_of_text(t: Seq<char>) -> Option<u32> {
    let digits = if t.len() > 0 && t[0] == '+' {
        t.drop_first()
    } else {
        t
    };
    if digits.len() > 0 && all_digits(digits) && digits_value(digits) <= u32::MAX {
        Some(digits_value(digits) as u32)
    } else {
        None
    }
}

/// The zip code that a text holds.
pub open spec fn zip_number(s: Seq<char>) -> Result<u32, ZipError> {
    if s.len() == 0 {
        Err(ZipError::Empty)
    } else {
        match unsigned_of_text(zip_prefix(s)) {
            Some(zip) => Ok(zip),
            None => Err(ZipError::NotANumber),
        }
    }
}

/// Reads the number in `s[from..to]`.
#[verifier::loop_isolation(false)]
fn parse_unsigned(s: &Vec<char>, from: usize, to: usize) -> (r: Option<u32>)
    requires
        from <= to <= s.len(),
    ensures
        r == unsigned_of_text(s@.subrange(from as int, to as int)),
{
    let ghost t = s@.subrange(from as int, to as int);
    let start: usize = if from < to && s[from] == '+' {
        from + 1
    } else {
        from
    };
    let ghost digits = s@.subrange(start as int, to as int);
    proof {
        if from < to && s@[from as int] == '+' {
            assert(t[0] == '+');
            assert(t.drop_first() =~= digits);
        } else {
            assert(t.len() > 0 ==> t[0] == s@[from as int]);
            assert(t =~= digits);
        }
    }
    if start == to {
        return None;
    }
    let mut value: u64 = 0;
    let mut i: usize = start;
    while i < to
        invariant
            start <= i <= to <= s.len(),
            digits == s@.subrange(start as int, to as int),
            all_digits(digits.take(i - start)),
            value == digits_value(digits.take(i - start)),
            value <= u32::MAX,
        decreases to - i,
    {
        let c = s[i];
        assert(digits[i - start] == c);
        if !is_digit_char(c) {
            return None;
        }
        let d = digit_of(c);
        value = value * 10 + d as u64;
        proof {
            let longer = digits.take(i - start + 1);
            assert(longer.drop_last() =~= digits.take(i - start));
            assert(longer.last() == c);
            assert forall|j: int| 0 <= j < longer.len() implies crate::text::is_digit(
                #[trigger] longer[j],
            ) by {
                if j < i - start {
                    assert(longer[j] == digits.take(i - start)[j]);
                }
            }
        }
        if value > 0xffff_ffff {
            proof {
                lemma_digits_value_grows(digits, i - start + 1);
            }
            return None;
        }
        i = i + 1;
    }
    proof {
        assert(digits.take(to - start) =~= digits);
    }
    Some(value as u32)
}

/// Reads the zip code of a text such as `"95060"` or `"95060-9412"`: the number
/// before the first hyphen.
pub fn zip_as_u32(zip_string: &str) -> (r: Result<u32, ZipError>)
    ensures
        r == zip_number(zip_string@),
{
    let chars = chars_of(zip_string);
    if chars.len() == 0 {
        return Err(ZipError::Empty);
    }
    let hyphen = find_char(&chars, '-', 0);
    assert(chars@.subrange(0, hyphen as int) =~= zip_prefix(chars@));
    match parse_unsigned(&chars, 0, hyphen) {
        Some(zip) => Ok(zip),
        None => Err(ZipError::NotANumber),
    }
}

impl Province {
    /// Looks a zip code up in the zip table, from its first row down. The
    /// first row that covers the code decides.
    pub fn from_zip_code(zip_code: u32) -> (r: Result<Province, ZipError>)
        ensures
            r == match province_of_zip(zip_code) {
                Some(province) => Ok::<Province, ZipError>(province),
                None => Err(ZipError::Unassigned),
            },
    {
        let table = zip_table();
        let mut i: usize = 0;
        while i < table.len()
            invariant
                i <= table.len(),
                table@ == zip_ranges(),
                province_of_zip(zip_code) == first_cover(zip_ranges(), zip_code, i as int),
            decreases table.len() - i,
        {
            let row = table[i];
            if row.first <= zip_code && zip_code <= row.last {
                return Ok(row.province);
            }
            i = i + 1;
        }
        Err(ZipError::Unassigned)
    }
}

} // verus!
