use vstd::prelude::*;
use vstd::slice::slice_subrange;
use crate::chars::{in_class, is_in, Class};
use crate::text::{byte, lower, res_view, spec_byte, Error, Res};
use crate::whitespace::{fws, opt_cfws, spec_fws, spec_opt_cfws};

verus! {

#[derive(Debug, Clone, Copy, PartialEq, Eq, Structural)]
pub enum Day {
    Monday,
    Tuesday,
    Wednesday,
    Thursday,
    Friday,
    Saturday,
    Sunday,
}

#[derive(Debug, Clone, Copy, PartialEq, Eq, Structural)]
pub enum Month {
    January,
    February,
    March,
    April,
    May,
    June,
    July,
    August,
    September,
    October,
    November,
    December,
}

/// Optional day of week; (day, month, year); ((hour, minute, second),
/// (zone east of UTC, zone hours, zone minutes)).
pub type DateTime = (Option<Day>, (u8, Month, u16), ((u8, u8, u8), (bool, u8, u8)));

fn fold_exec(b: u8) -> (r: u8)
    ensures
        r == lower(b),
{
    if 65 <= b && b <= 90 {
        b + 32
    } else {
        b
    }
}

/// The day whose three-letter name, in lower case, is `(a, b, c)`.
pub open spec fn day_named(a: u8, b: u8, c: u8) -> Option<Day> {
    match (a, b, c) {
        (109, 111, 110) => Some(Day::Monday),
        (116, 117, 101) => Some(Day::Tuesday),
        (119, 101, 100) => Some(Day::Wednesday),
        (116, 104, 117) => Some(Day::Thursday),
        (102, 114, 105) => Some(Day::Friday),
        (115, 97, 116) => Some(Day::Saturday),
        (115, 117, 110) => Some(Day::Sunday),
        _ => None,
    }
}

/// The month whose three-letter name, in lower case, is `(a, b, c)`.
pub open spec fn month_named(a: u8, b: u8, c: u8) -> Option<Month> {
    match (a, b, c) {
        (106, 97, 110) => Some(Month::January),
        (102, 101, 98) => Some(Month::February),
        (109, 97, 114) => Some(Month::March),
        (97, 112, 114) => Some(Month::April),
        (109, 97, 121) => Some(Month::May),
        (106, 117, 110) => Some(Month::June),
        (106, 117, 108) => Some(Month::July),
        (97, 117, 103) => Some(Month::August),
        (115, 101, 112) => Some(Month::September),
        (111, 99, 116) => Some(Month::October),
        (110, 111, 118) => Some(Month::November),
        (100, 101, 99) => Some(Month::December),
        _ => None,
    }
}

fn day_named_exec(a: u8, b: u8, c: u8) -> (r: Option<Day>)
    ensures
        r == day_named(a, b, c),
{
    match (a, b, c) {
        (109, 111, 110) => Some(Day::Monday),
        (116, 117, 101) => Some(Day::Tuesday),
        (119, 101, 100) => Some(Day::Wednesday),
        (116, 104, 117) => Some(Day::Thursday),
        (102, 114, 105) => Some(Day::Friday),
        (115, 97, 116) => Some(Day::Saturday),
        (115, 117, 110) => Some(Day::Sunday),
        _ => None,
    }
}

fn month_named_exec(a: u8, b: u8, c: u8) -> (r: Option<Month>)
    ensures
        r == month_named(a, b, c),
{
    match (a, b, c) {
        (106, 97, 110) => Some(Month::January),
        (102, 101, 98) => Some(Month::February),
        (109, 97, 114) => Some(Month::March),
        (97, 112, 114) => Some(Month::April),
        (109, 97, 121) => Some(Month::May),
        (106, 117, 110) => Some(Month::June),
        (106, 117, 108) => Some(Month::July),
        (97, 117, 103) => Some(Month::August),
        (115, 101, 112) => Some(Month::September),
        (111, 99, 116) => Some(Month::October),
        (110, 111, 118) => Some(Month::November),
        (100, 101, 99) => Some(Month::December),
        _ => None,
    }
}

pub open spec fn spec_opt_fws(s: Seq<u8>) -> Seq<u8> {
    match spec_fws(s) {
        Some(r) => r,
        None => s,
    }
}

fn opt_fws(input: &[u8]) -> (r: &[u8])
    ensures
        r@ == spec_opt_fws(input@),
{
    match fws(input) {
        Ok((r, _)) => r,
        Err(_) => input,
    }
}

/// Day of week followed by a comma, after optional folding white space.
pub open spec fn spec_day_of_week(s: Seq<u8>) -> Option<(Seq<u8>, Day)> {
    let t = spec_opt_fws(s);
    if t.len() >= 4 && day_named(lower(t[0]), lower(t[1]), lower(t[2])) is Some && t[3] == 44 {
        Some((t.skip(4), day_named(lower(t[0]), lower(t[1]), lower(t[2]))->0))
    } else {
        None
    }
}

fn day_of_week(input: &[u8]) -> (r: Res<Day>)
    ensures
        res_view(r, |d: Day| d) == spec_day_of_week(input@),
{
    let t = opt_fws(input);
    if t.len() >= 4 && t[3] == 44 {
        if let Some(d) = day_named_exec(fold_exec(t[0]), fold_exec(t[1]), fold_exec(t[2])) {
            return Ok((slice_subrange(t, 4, t.len()), d));
        }
    }
    Err(Error::DateTime)
}

pub open spec fn is_digit(b: u8) -> bool {
    in_class(Class::Digit, b)
}

pub open spec fn digit(b: u8) -> int {
    b - 48
}

/// Exactly two digits and their value.
pub open spec fn spec_two_digits(s: Seq<u8>) -> Option<(Seq<u8>, u8)> {
    if s.len() >= 2 && is_digit(s[0]) && is_digit(s[1]) {
        Some((s.skip(2), (digit(s[0]) * 10 + digit(s[1])) as u8))
    } else {
        None
    }
}

fn two_digits(input: &[u8]) -> (r: Res<u8>)
    ensures
        res_view(r, |v: u8| v) == spec_two_digits(input@),
{
    if input.len() >= 2 && is_in(Class::Digit, input[0]) && is_in(Class::Digit, input[1]) {
        Ok((slice_subrange(input, 2, input.len()), (input[0] - 48) * 10 + (input[1] - 48)))
    } else {
        Err(Error::DateTime)
    }
}

/// Day of month: optional folding white space, one or two digits with a value
/// from 1 to 31, then folding white space.
pub open spec fn spec_day(s: Seq<u8>) -> Option<(Seq<u8>, u8)> {
    let t = spec_opt_fws(s);
    let (r, v) = if t.len() >= 2 && is_digit(t[0]) && is_digit(t[1]) {
        (t.skip(2), digit(t[0]) * 10 + digit(t[1]))
    } else if t.len() >= 1 && is_digit(t[0]) {
        (t.skip(1), digit(t[0]))
    } else {
        (t, 0)
    };
    if 1 <= v <= 31 && spec_fws(r) is Some {
        Some((spec_fws(r)->0, v as u8))
    } else {
        None
    }
}

fn day(input: &[u8]) -> (r: Res<u8>)
    ensures
        res_view(r, |v: u8| v) == spec_day(input@),
{
    let t = opt_fws(input);
    let (r, v): (&[u8], u8) = if t.len() >= 2 && is_in(Class::Digit, t[0]) && is_in(Class::Digit, t[1]) {
        (slice_subrange(t, 2, t.len()), (t[0] - 48) * 10 + (t[1] - 48))
    } else if t.len() >= 1 && is_in(Class::Digit, t[0]) {
        (slice_subrange(t, 1, t.len()), t[0] - 48)
    } else {
        (t, 0)
    };
    if 1 <= v && v <= 31 {
        let (r, _) = fws(r)?;
        Ok((r, v))
    } else {
        Err(Error::DateTime)
    }
}

/// Month name, in any casing.
pub open spec fn spec_month(s: Seq<u8>) -> Option<(Seq<u8>, Month)> {
    if s.len() >= 3 && month_named(lower(s[0]), lower(s[1]), lower(s[2])) is Some {
        Some((s.skip(3), month_named(lower(s[0]), lower(s[1]), lower(s[2]))->0))
    } else {
        None
    }
}

fn month(input: &[u8]) -> (r: Res<Month>)
    ensures
        res_view(r, |m: Month| m) == spec_month(input@),
{
    if input.len() >= 3 {
        if let Some(m) = month_named_exec(fold_exec(input[0]), fold_exec(input[1]), fold_exec(input[2])) {
            return Ok((slice_subrange(input, 3, input.len()), m));
        }
    }
    Err(Error::DateTime)
}

/// Number of leading digits, up to five.
pub open spec fn digit_count(s: Seq<u8>) -> int {
    if s.len() >= 1 && is_digit(s[0]) {
        if s.len() >= 2 && is_digit(s[1]) {
            if s.len() >= 3 && is_digit(s[2]) {
                if s.len() >= 4 && is_digit(s[3]) {
                    if s.len() >= 5 && is_digit(s[4]) {
                        5
                    } else {
                        4
                    }
                } else {
                    3
                }
            } else {
                2
            }
        } else {
            1
        }
    } else {
        0
    }
}

/// The year written with `n` digits at the start of `s`: two-digit years
/// below 50 are in the 2000s and the others in the 1900s; three-digit years
/// count from 1900.
pub open spec fn year_value(s: Seq<u8>, n: int) -> int {
    if n == 2 {
        let v = digit(s[0]) * 10 + digit(s[1]);
        if v < 50 {
            2000 + v
        } else {
            1900 + v
        }
    } else if n == 3 {
        1900 + digit(s[0]) * 100 + digit(s[1]) * 10 + digit(s[2])
    } else {
        digit(s[0]) * 1000 + digit(s[1]) * 100 + digit(s[2]) * 10 + digit(s[3])
    }
}

/// Year: folding white space, two to four digits, folding white space.
pub open spec fn spec_year(s: Seq<u8>) -> Option<(Seq<u8>, u16)> {
    match spec_fws(s) {
        Some(t) => {
            let n = digit_count(t);
            if 2 <= n <= 4 && spec_fws(t.skip(n)) is Some {
                Some((spec_fws(t.skip(n))->0, year_value(t, n) as u16))
            } else {
                None
            }
        },
        None => None,
    }
}

fn year(input: &[u8]) -> (r: Res<u16>)
    ensures
        res_view(r, |y: u16| y) == spec_year(input@),
{
    let (t, _) = fws(input)?;
    let mut n: usize = 0;
    while n < 5 && n < t.len() && is_in(Class::Digit, t[n])
        invariant
            n <= 5,
            n <= t@.len(),
            forall|j: int| 0 <= j < n ==> is_digit(#[trigger] t@[j]),
        decreases 5 - n,
    {
        n = n + 1;
    }
    assert(n == digit_count(t@));
    if n < 2 || n > 4 {
        return Err(Error::DateTime);
    }
    let d0 = (t[0] - 48) as u16;
    let d1 = (t[1] - 48) as u16;
    let y: u16 = if n == 2 {
        let v = d0 * 10 + d1;
        if v < 50 {
            2000 + v
        } else {
            1900 + v
        }
    } else if n == 3 {
        1900 + d0 * 100 + d1 * 10 + (t[2] - 48) as u16
    } else {
        d0 * 1000 + d1 * 100 + (t[2] - 48) as u16 * 10 + (t[3] - 48) as u16
    };
    let (r, _) = fws(slice_subrange(t, n, t.len()))?;
    Ok((r, y))
}

/// Time of day: hour, `:`, minute, optionally `:` and second; hour at most 23,
/// minute at most 59, second at most 60 (a leap second); second 0 when absent.
pub open spec fn spec_time_of_day(s: Seq<u8>) -> Option<(Seq<u8>, (u8, u8, u8))> {
    match spec_two_digits(s) {
        Some((r1, h)) => match spec_byte(r1, 58) {
            Some(r2) => match spec_two_digits(r2) {
                Some((r3, m)) => {
                    let (r4, sec) = match spec_byte(r3, 58) {
                        Some(r) => match spec_two_digits(r) {
                            Some((r5, x)) => (r5, x),
                            None => (r3, 0u8),
                        },
                        None => (r3, 0u8),
                    };
                    if h <= 23 && m <= 59 && sec <= 60 {
                        Some((r4, (h, m, sec)))
                    } else {
                        None
                    }
                },
                None => None,
            },
            None => None,
        },
        None => None,
    }
}

fn time_of_day(input: &[u8]) -> (r: Res<(u8, u8, u8)>)
    ensures
        res_view(r, |t: (u8, u8, u8)| t) == spec_time_of_day(input@),
{
    let (r, h) = two_digits(input)?;
    let r = byte(r, 58)?;
    let (r3, m) = two_digits(r)?;
    let (r4, sec) = match byte(r3, 58) {
        Ok(r) => match two_digits(r) {
            Ok(x) => x,
            Err(_) => (r3, 0),
        },
        Err(_) => (r3, 0),
    };
    if h <= 23 && m <= 59 && sec <= 60 {
        Ok((r4, (h, m, sec)))
    } else {
        Err(Error::DateTime)
    }
}

/// The offset that a legacy zone name stands for, given the lower-cased
/// bytes that follow the white space; the number of bytes it spans comes
/// first. Military letters other than the ones named read as UTC.
pub open spec fn legacy_zone(s: Seq<u8>) -> Option<(int, (bool, u8, u8))> {
    let a = if s.len() >= 1 { lower(s[0]) } else { 0 };
    let b = if s.len() >= 2 { lower(s[1]) } else { 0 };
    let c = if s.len() >= 3 { lower(s[2]) } else { 0 };
    if (a, b, c) == (103u8, 109u8, 116u8) {
        Some((3, (true, 0, 0)))
    } else if b == 115 && c == 116 && (a == 101 || a == 99 || a == 109 || a == 112) {
        Some((3, (false, if a == 101 { 5u8 } else if a == 99 { 6u8 } else if a == 109 { 7u8 } else { 8u8 }, 0)))
    } else if b == 100 && c == 116 && (a == 101 || a == 99 || a == 109 || a == 112) {
        Some((3, (false, if a == 101 { 4u8 } else if a == 99 { 5u8 } else if a == 109 { 6u8 } else { 7u8 }, 0)))
    } else if a == 117 && b == 116 {
        Some((2, (true, 0, 0)))
    } else if 97 <= a <= 122 {
        Some((1, (true, 0, 0)))
    } else {
        None
    }
}

fn legacy_zone_exec(s: &[u8]) -> (r: Option<(usize, (bool, u8, u8))>)
    ensures
        match r {
            Some((n, z)) => legacy_zone(s@) == Some((n as int, z)),
            None => legacy_zone(s@) is None,
        },
{
    let a = if s.len() >= 1 { fold_exec(s[0]) } else { 0 };
    let b = if s.len() >= 2 { fold_exec(s[1]) } else { 0 };
    let c = if s.len() >= 3 { fold_exec(s[2]) } else { 0 };
    if a == 103 && b == 109 && c == 116 {
        Some((3, (true, 0, 0)))
    } else if b == 115 && c == 116 && (a == 101 || a == 99 || a == 109 || a == 112) {
        Some((3, (false, if a == 101 { 5 } else if a == 99 { 6 } else if a == 109 { 7 } else { 8 }, 0)))
    } else if b == 100 && c == 116 && (a == 101 || a == 99 || a == 109 || a == 112) {
        Some((3, (false, if a == 101 { 4 } else if a == 99 { 5 } else if a == 109 { 6 } else { 7 }, 0)))
    } else if a == 117 && b == 116 {
        Some((2, (true, 0, 0)))
    } else if 97 <= a && a <= 122 {
        Some((1, (true, 0, 0)))
    } else {
        None
    }
}

/// Zone: folding white space, then `+` or `-` and four digits (minutes at
/// most 59), or a legacy zone name.
pub open spec fn spec_zone(s: Seq<u8>) -> Option<(Seq<u8>, (bool, u8, u8))> {
    match spec_fws(s) {
        Some(t) => if t.len() >= 1 && (t[0] == 43 || t[0] == 45) {
            match spec_two_digits(t.skip(1)) {
                Some((r1, h)) => match spec_two_digits(r1) {
                    Some((r2, m)) => if m <= 59 {
                        Some((r2, (t[0] == 43, h, m)))
                    } else {
                        None
                    },
                    None => None,
                },
                None => None,
            }
        } else {
            match legacy_zone(t) {
                Some((n, z)) => Some((t.skip(n), z)),
                None => None,
            }
        },
        None => None,
    }
}

fn zone(input: &[u8]) -> (r: Res<(bool, u8, u8)>)
    ensures
        res_view(r, |z: (bool, u8, u8)| z) == spec_zone(input@),
{
    let (t, _) = fws(input)?;
    if t.len() >= 1 && (t[0] == 43 || t[0] == 45) {
        let (r1, h) = two_digits(slice_subrange(t, 1, t.len()))?;
        let (r2, m) = two_digits(r1)?;
        if m <= 59 {
            Ok((r2, (t[0] == 43, h, m)))
        } else {
            Err(Error::DateTime)
        }
    } else {
        match legacy_zone_exec(t) {
            Some((n, z)) => {
                Ok((slice_subrange(t, n, t.len()), z))
            },
            None => Err(Error::DateTime),
        }
    }
}

/// Date and time: optional day of week and comma, day, month, year, time of
/// day, zone, optional CFWS.
pub open spec fn spec_date_time(s: Seq<u8>) -> Option<(Seq<u8>, DateTime)> {
    let (r0, dow) = match spec_day_of_week(s) {
        Some((r, d)) => (r, Some(d)),
        None => (s, None),
    };
    match spec_day(r0) {
        Some((r1, d)) => match spec_month(r1) {
            Some((r2, m)) => match spec_year(r2) {
                Some((r3, y)) => match spec_time_of_day(r3) {
                    Some((r4, t)) => match spec_zone(r4) {
                        Some((r5, z)) => Some((spec_opt_cfws(r5), (dow, (d, m, y), (t, z)))),
                        None => None,
                    },
                    None => None,
                },
                None => None,
            },
            None => None,
        },
        None => None,
    }
}

pub fn date_time(input: &[u8]) -> (r: Res<DateTime>)
    ensures
        res_view(r, |d: DateTime| d) == spec_date_time(input@),
{
    let (r0, dow) = match day_of_week(input) {
        Ok((r, d)) => (r, Some(d)),
        Err(_) => (input, None),
    };
    let (r1, d) = day(r0)?;
    let (r2, m) = month(r1)?;
    let (r3, y) = year(r2)?;
    let (r4, t) = time_of_day(r3)?;
    let (r5, z) = zone(r4)?;
    Ok((opt_cfws(r5), (dow, (d, m, y), (t, z))))
}

} // verus!
