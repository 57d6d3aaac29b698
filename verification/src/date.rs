//! The calendar-date model for a task's optional due date. The wire format
//! carries a due date as an ISO-8601 calendar date (`YYYY-MM-DD`); this
//! module holds it as plain year, month and day fields with a validity
//! invariant, and formats and parses the ten-character form exactly.

use vstd::prelude::*;
use vstd::string::StrSliceExecFns;
use vstd::string::StringExecFns;

use crate::error::Error;

verus! {

/// A calendar date as plain values. Valid dates (see [`valid_date`]) have a
/// four-digit year, a real month, and a day that exists in that month.
#[derive(Debug, Clone, Copy, PartialEq, Eq, Structural)]
pub struct CalendarDate {
    pub year: u16,
    pub month: u8,
    pub day: u8,
}

/// Leap years in the proleptic Gregorian calendar.
pub open spec fn spec_is_leap_year(y: int) -> bool {
    (y % 4 == 0 && y % 100 != 0) || y % 400 == 0
}

/// The number of days in a month of a given year.
pub open spec fn spec_days_in_month(y: int, m: int) -> int {
    if m == 2 {
        if spec_is_leap_year(y) {
            29
        } else {
            28
        }
    } else if m == 4 || m == 6 || m == 9 || m == 11 {
        30
    } else {
        31
    }
}

/// Well-formedness of a calendar date: the year fits in four digits, the
/// month is real, and the day exists in that month of that year.
pub open spec fn valid_date(d: CalendarDate) -> bool {
    &&& d.year <= 9999
    &&& 1 <= d.month <= 12
    &&& 1 <= d.day <= spec_days_in_month(d.year as int, d.month as int)
}

/// The character of one decimal digit.
pub open spec fn spec_digit_char(v: int) -> char {
    if v == 0 {
        '0'
    } else if v == 1 {
        '1'
    } else if v == 2 {
        '2'
    } else if v == 3 {
        '3'
    } else if v == 4 {
        '4'
    } else if v == 5 {
        '5'
    } else if v == 6 {
        '6'
    } else if v == 7 {
        '7'
    } else if v == 8 {
        '8'
    } else {
        '9'
    }
}

/// The decimal digit a character stands for, if any.
pub open spec fn spec_char_digit(c: char) -> Option<int> {
    if c == '0' {
        Some(0int)
    } else if c == '1' {
        Some(1int)
    } else if c == '2' {
        Some(2int)
    } else if c == '3' {
        Some(3int)
    } else if c == '4' {
        Some(4int)
    } else if c == '5' {
        Some(5int)
    } else if c == '6' {
        Some(6int)
    } else if c == '7' {
        Some(7int)
    } else if c == '8' {
        Some(8int)
    } else if c == '9' {
        Some(9int)
    } else {
        None
    }
}

/// The exact ten-character ISO-8601 form of a date: four year digits, a
/// dash, two month digits, a dash, two day digits, all zero-padded.
pub open spec fn spec_format_date(d: CalendarDate) -> Seq<char> {
    seq![
        spec_digit_char(d.year as int / 1000),
        spec_digit_char((d.year as int / 100) % 10),
        spec_digit_char((d.year as int / 10) % 10),
        spec_digit_char(d.year as int % 10),
        '-',
        spec_digit_char(d.month as int / 10),
        spec_digit_char(d.month as int % 10),
        '-',
        spec_digit_char(d.day as int / 10),
        spec_digit_char(d.day as int % 10),
    ]
}

/// Append one decimal digit character to a string.
pub(crate) fn push_digit(s: &mut String, v: u8)
    requires
        v < 10,
    ensures
        final(s)@ == old(s)@ + seq![spec_digit_char(v as int)],
{
    let t: &str = match v {
        0 => "0",
        1 => "1",
        2 => "2",
        3 => "3",
        4 => "4",
        5 => "5",
        6 => "6",
        7 => "7",
        8 => "8",
        _ => "9",
    };
    proof {
        reveal_strlit("0");
        reveal_strlit("1");
        reveal_strlit("2");
        reveal_strlit("3");
        reveal_strlit("4");
        reveal_strlit("5");
        reveal_strlit("6");
        reveal_strlit("7");
        reveal_strlit("8");
        reveal_strlit("9");
        assert(t@ =~= seq![spec_digit_char(v as int)]);
    }
    s.append(t);
}

/// The number of days in a month of a given year.
pub fn days_in_month(year: u16, month: u8) -> (r: u8)
    ensures
        r as int == spec_days_in_month(year as int, month as int),
{
    if month == 2 {
        if (year % 4 == 0 && year % 100 != 0) || year % 400 == 0 {
            29
        } else {
            28
        }
    } else if month == 4 || month == 6 || month == 9 || month == 11 {
        30
    } else {
        31
    }
}

/// Decide [`valid_date`] at run time, for callers that must test a date
/// before handing it to a function that requires a valid one.
pub fn date_is_valid(d: &CalendarDate) -> (r: bool)
    ensures
        r == valid_date(*d),
{
    d.year <= 9999 && 1 <= d.month && d.month <= 12 && 1 <= d.day && d.day <= days_in_month(
        d.year,
        d.month,
    )
}

/// Format a valid date in its exact ten-character ISO-8601 form.
pub fn format_date(d: &CalendarDate) -> (r: String)
    requires
        valid_date(*d),
    ensures
        r@ == spec_format_date(*d),
{
    let mut s = String::new();
    push_digit(&mut s, (d.year / 1000) as u8);
    push_digit(&mut s, ((d.year / 100) % 10) as u8);
    push_digit(&mut s, ((d.year / 10) % 10) as u8);
    push_digit(&mut s, (d.year % 10) as u8);
    proof {
        reveal_strlit("-");
    }
    s.append("-");
    push_digit(&mut s, d.month / 10);
    push_digit(&mut s, d.month % 10);
    s.append("-");
    push_digit(&mut s, d.day / 10);
    push_digit(&mut s, d.day % 10);
    proof {
        assert(s@ =~= spec_format_date(*d));
    }
    s
}

/// The decimal digit a character stands for, if any.
fn char_digit(c: char) -> (r: Option<u8>)
    ensures
        match r {
            Some(v) => spec_char_digit(c) == Some(v as int),
            None => spec_char_digit(c) is None,
        },
{
    match c {
        '0' => Some(0),
        '1' => Some(1),
        '2' => Some(2),
        '3' => Some(3),
        '4' => Some(4),
        '5' => Some(5),
        '6' => Some(6),
        '7' => Some(7),
        '8' => Some(8),
        '9' => Some(9),
        _ => None,
    }
}

/// Decomposing a number into its decimal digits is undone by recomposing
/// them positionally.
proof fn lemma_two_digits(v: int)
    requires
        0 <= v < 100,
    ensures
        v == 10 * (v / 10) + v % 10,
        0 <= v / 10 < 10,
        0 <= v % 10 < 10,
{
}

/// Parse the exact ten-character ISO-8601 calendar-date form. Succeeds on
/// precisely the strings that [`format_date`] produces from a valid date,
/// and fails with `Malformed` on every other string.
pub fn parse_date(s: &str) -> (r: Result<CalendarDate, Error>)
    ensures
        match r {
            Ok(d) => valid_date(d) && s@ == spec_format_date(d),
            Err(e) => e is Malformed && forall|d: CalendarDate|
                valid_date(d) ==> s@ != spec_format_date(d),
        },
{
    if s.unicode_len() != 10 {
        return Err(Error::Malformed);
    }
    if s.get_char(4) != '-' || s.get_char(7) != '-' {
        return Err(Error::Malformed);
    }
    let y0 = char_digit(s.get_char(0));
    let y1 = char_digit(s.get_char(1));
    let y2 = char_digit(s.get_char(2));
    let y3 = char_digit(s.get_char(3));
    let m0 = char_digit(s.get_char(5));
    let m1 = char_digit(s.get_char(6));
    let d0 = char_digit(s.get_char(8));
    let d1 = char_digit(s.get_char(9));
    match (y0, y1, y2, y3, m0, m1, d0, d1) {
        (
            Some(y0),
            Some(y1),
            Some(y2),
            Some(y3),
            Some(m0),
            Some(m1),
            Some(d0),
            Some(d1),
        ) => {
            let year: u16 = 1000 * (y0 as u16) + 100 * (y1 as u16) + 10 * (y2 as u16) + (y3
                as u16);
            let month: u8 = 10 * m0 + m1;
            let day: u8 = 10 * d0 + d1;
            proof {
                lemma_parse_determines(
                    s@,
                    y0 as int,
                    y1 as int,
                    y2 as int,
                    y3 as int,
                    m0 as int,
                    m1 as int,
                    d0 as int,
                    d1 as int,
                    year as int,
                    month as int,
                    day as int,
                );
            }
            if month < 1 || month > 12 {
                proof {
                    assert forall|d: CalendarDate| valid_date(d) implies s@ != spec_format_date(
                        d,
                    ) by {
                        if s@ == spec_format_date(d) {
                            assert(d.month as int == month as int);
                        }
                    }
                }
                return Err(Error::Malformed);
            }
            if day < 1 || day > days_in_month(year, month) {
                proof {
                    assert forall|d: CalendarDate| valid_date(d) implies s@ != spec_format_date(
                        d,
                    ) by {
                        if s@ == spec_format_date(d) {
                            assert(d.year as int == year as int);
                            assert(d.month as int == month as int);
                            assert(d.day as int == day as int);
                        }
                    }
                }
                return Err(Error::Malformed);
            }
            let d = CalendarDate { year, month, day };
            proof {
                lemma_digit_recompose(
                    d,
                    s@,
                    y0 as int,
                    y1 as int,
                    y2 as int,
                    y3 as int,
                    m0 as int,
                    m1 as int,
                    d0 as int,
                    d1 as int,
                );
            }
            Ok(d)
        },
        _ => {
            proof {
                assert forall|d: CalendarDate| valid_date(d) implies s@ != spec_format_date(
                    d,
                ) by {
                    if s@ == spec_format_date(d) {
                        lemma_format_chars_are_digits(d);
                    }
                }
            }
            Err(Error::Malformed)
        },
    }
}

/// Every non-dash position of a formatted valid date holds a digit
/// character, and its digit value recomposes the corresponding field.
proof fn lemma_format_chars_are_digits(d: CalendarDate)
    requires
        valid_date(d),
    ensures
        spec_char_digit(spec_format_date(d)[0]) == Some(d.year as int / 1000),
        spec_char_digit(spec_format_date(d)[1]) == Some((d.year as int / 100) % 10),
        spec_char_digit(spec_format_date(d)[2]) == Some((d.year as int / 10) % 10),
        spec_char_digit(spec_format_date(d)[3]) == Some(d.year as int % 10),
        spec_char_digit(spec_format_date(d)[5]) == Some(d.month as int / 10),
        spec_char_digit(spec_format_date(d)[6]) == Some(d.month as int % 10),
        spec_char_digit(spec_format_date(d)[8]) == Some(d.day as int / 10),
        spec_char_digit(spec_format_date(d)[9]) == Some(d.day as int % 10),
{
}

/// If the parsed digit values recompose the fields of a valid date, the
/// input string is exactly that date's formatted form.
proof fn lemma_digit_recompose(
    d: CalendarDate,
    s: Seq<char>,
    y0: int,
    y1: int,
    y2: int,
    y3: int,
    m0: int,
    m1: int,
    d0: int,
    d1: int,
)
    requires
        s.len() == 10,
        0 <= y0 < 10,
        0 <= y1 < 10,
        0 <= y2 < 10,
        0 <= y3 < 10,
        0 <= m0 < 10,
        0 <= m1 < 10,
        0 <= d0 < 10,
        0 <= d1 < 10,
        spec_char_digit(s[0]) == Some(y0),
        spec_char_digit(s[1]) == Some(y1),
        spec_char_digit(s[2]) == Some(y2),
        spec_char_digit(s[3]) == Some(y3),
        s[4] == '-',
        spec_char_digit(s[5]) == Some(m0),
        spec_char_digit(s[6]) == Some(m1),
        s[7] == '-',
        spec_char_digit(s[8]) == Some(d0),
        spec_char_digit(s[9]) == Some(d1),
        d.year as int == 1000 * y0 + 100 * y1 + 10 * y2 + y3,
        d.month as int == 10 * m0 + m1,
        d.day as int == 10 * d0 + d1,
    ensures
        s == spec_format_date(d),
{
    let y = d.year as int;
    assert(y / 1000 == y0 && (y / 100) % 10 == y1 && (y / 10) % 10 == y2 && y % 10 == y3)
        by (nonlinear_arith)
        requires
            y == 1000 * y0 + 100 * y1 + 10 * y2 + y3,
            0 <= y0 < 10,
            0 <= y1 < 10,
            0 <= y2 < 10,
            0 <= y3 < 10,
    ;
    lemma_two_digits(d.month as int);
    lemma_two_digits(d.day as int);
    assert(s[0] == spec_digit_char(y0));
    assert(s[1] == spec_digit_char(y1));
    assert(s[2] == spec_digit_char(y2));
    assert(s[3] == spec_digit_char(y3));
    assert(s[5] == spec_digit_char(m0));
    assert(s[6] == spec_digit_char(m1));
    assert(s[8] == spec_digit_char(d0));
    assert(s[9] == spec_digit_char(d1));
    assert(s =~= spec_format_date(d));
}

/// A ten-character string whose digit and dash positions are known
/// determines the fields of any valid date that formats to it.
proof fn lemma_parse_determines(
    s: Seq<char>,
    y0: int,
    y1: int,
    y2: int,
    y3: int,
    m0: int,
    m1: int,
    d0: int,
    d1: int,
    year: int,
    month: int,
    day: int,
)
    requires
        s.len() == 10,
        0 <= y0 < 10,
        0 <= y1 < 10,
        0 <= y2 < 10,
        0 <= y3 < 10,
        0 <= m0 < 10,
        0 <= m1 < 10,
        0 <= d0 < 10,
        0 <= d1 < 10,
        spec_char_digit(s[0]) == Some(y0),
        spec_char_digit(s[1]) == Some(y1),
        spec_char_digit(s[2]) == Some(y2),
        spec_char_digit(s[3]) == Some(y3),
        spec_char_digit(s[5]) == Some(m0),
        spec_char_digit(s[6]) == Some(m1),
        spec_char_digit(s[8]) == Some(d0),
        spec_char_digit(s[9]) == Some(d1),
        year == 1000 * y0 + 100 * y1 + 10 * y2 + y3,
        month == 10 * m0 + m1,
        day == 10 * d0 + d1,
    ensures
        forall|d: CalendarDate|
            valid_date(d) && s == spec_format_date(d) ==> d.year as int == year && d.month as int
                == month && d.day as int == day,
{
    assert forall|d: CalendarDate|
        valid_date(d) && s == spec_format_date(d) implies d.year as int == year && d.month as int
        == month && d.day as int == day by {
        lemma_format_chars_are_digits(d);
        let y = d.year as int;
        assert(y == 1000 * (y / 1000) + 100 * ((y / 100) % 10) + 10 * ((y / 10) % 10) + y % 10)
            by (nonlinear_arith)
            requires
                0 <= y < 10000,
        ;
        lemma_two_digits(d.month as int);
        lemma_two_digits(d.day as int);
    }
}

/// Law: formatting a valid date and parsing the result yields the same date
/// back; on valid dates the two directions are mutually inverse. Stated over
/// the specification forms the executable contracts use: the formatted text
/// of a valid date determines that date uniquely.
pub proof fn lemma_date_round_trip(a: CalendarDate, b: CalendarDate)
    requires
        valid_date(a),
        valid_date(b),
        spec_format_date(a) == spec_format_date(b),
    ensures
        a == b,
{
    lemma_format_chars_are_digits(a);
    lemma_format_chars_are_digits(b);
    let fa = spec_format_date(a);
    let fb = spec_format_date(b);
    assert(fa[0] == fb[0] && fa[1] == fb[1] && fa[2] == fb[2] && fa[3] == fb[3] && fa[5] == fb[5]
        && fa[6] == fb[6] && fa[8] == fb[8] && fa[9] == fb[9]);
    let ya = a.year as int;
    let yb = b.year as int;
    assert(ya == 1000 * (ya / 1000) + 100 * ((ya / 100) % 10) + 10 * ((ya / 10) % 10) + ya % 10)
        by (nonlinear_arith)
        requires
            0 <= ya < 10000,
    ;
    assert(yb == 1000 * (yb / 1000) + 100 * ((yb / 100) % 10) + 10 * ((yb / 10) % 10) + yb % 10)
        by (nonlinear_arith)
        requires
            0 <= yb < 10000,
    ;
    lemma_two_digits(a.month as int);
    lemma_two_digits(b.month as int);
    lemma_two_digits(a.day as int);
    lemma_two_digits(b.day as int);
}

} // verus!
