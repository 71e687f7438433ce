use vstd::prelude::*;
use crate::text::is_digit;
use crate::text::digit_val;

verus! {

/// A calendar day, taken as midnight UTC: the precision the enlistment
/// field carries.
#[derive(Debug, Clone, Copy, PartialEq, Eq, Structural)]
pub struct UtcDate {
    pub year: u16,
    pub month: u8,
    pub day: u8,
}

pub open spec fn is_leap_year(y: int) -> bool {
    y % 4 == 0 && (y % 100 != 0 || y % 400 == 0)
}

pub open spec fn days_in_month(m: int, y: int) -> int {
    if m == 2 {
        if is_leap_year(y) { 29 } else { 28 }
    } else if m == 4 || m == 6 || m == 9 || m == 11 {
        30
    } else {
        31
    }
}

impl UtcDate {
    /// A proper proleptic-Gregorian calendar day with a four-digit year.
    pub open spec fn wf(self) -> bool {
        self.year <= 9999
            && 1 <= self.month <= 12
            && 1 <= self.day <= days_in_month(self.month as int, self.year as int)
    }
}

/// The month a three-letter abbreviation names, or 0 for any other text.
pub open spec fn month_num(a: char, b: char, c: char) -> int {
    if a == 'J' && b == 'a' && c == 'n' { 1 }
    else if a == 'F' && b == 'e' && c == 'b' { 2 }
    else if a == 'M' && b == 'a' && c == 'r' { 3 }
    else if a == 'A' && b == 'p' && c == 'r' { 4 }
    else if a == 'M' && b == 'a' && c == 'y' { 5 }
    else if a == 'J' && b == 'u' && c == 'n' { 6 }
    else if a == 'J' && b == 'u' && c == 'l' { 7 }
    else if a == 'A' && b == 'u' && c == 'g' { 8 }
    else if a == 'S' && b == 'e' && c == 'p' { 9 }
    else if a == 'O' && b == 'c' && c == 't' { 10 }
    else if a == 'N' && b == 'o' && c == 'v' { 11 }
    else if a == 'D' && b == 'e' && c == 'c' { 12 }
    else { 0 }
}

/// The day field of an enlistment text: one or two digits after the month.
pub open spec fn day_of(s: Seq<char>) -> int {
    if s.len() == 11 {
        digit_val(s[4])
    } else {
        10 * digit_val(s[4]) + digit_val(s[5])
    }
}

/// The four-digit year field at the end of an enlistment text.
pub open spec fn year_of(s: Seq<char>) -> int {
    let b = s.len() - 4;
    1000 * digit_val(s[b]) + 100 * digit_val(s[b + 1]) + 10 * digit_val(s[b + 2])
        + digit_val(s[b + 3])
}

/// Whether the text has the enlistment shape: a three-letter month
/// abbreviation, a space, a one- or two-digit day, a comma and a space, and a
/// four-digit year, with the day lying inside the named month.
pub open spec fn date_text_ok(s: Seq<char>) -> bool {
    let shape_ok = if s.len() == 11 {
        month_num(s[0], s[1], s[2]) != 0 && s[3] == ' ' && is_digit(s[4]) && s[5] == ','
            && s[6] == ' ' && is_digit(s[7]) && is_digit(s[8]) && is_digit(s[9]) && is_digit(s[10])
    } else if s.len() == 12 {
        month_num(s[0], s[1], s[2]) != 0 && s[3] == ' ' && is_digit(s[4]) && is_digit(s[5])
            && s[6] == ',' && s[7] == ' ' && is_digit(s[8]) && is_digit(s[9]) && is_digit(s[10])
            && is_digit(s[11])
    } else {
        false
    };
    shape_ok && 1 <= day_of(s)
        && day_of(s) <= days_in_month(month_num(s[0], s[1], s[2]), year_of(s))
}

/// The day a well-shaped enlistment text names.
pub open spec fn date_of_text(s: Seq<char>) -> UtcDate {
    UtcDate {
        year: year_of(s) as u16,
        month: month_num(s[0], s[1], s[2]) as u8,
        day: day_of(s) as u8,
    }
}

fn month_from_chars(a: char, b: char, c: char) -> (r: u8)
    ensures
        r as int == month_num(a, b, c),
{
    if a == 'J' && b == 'a' && c == 'n' { 1 }
    else if a == 'F' && b == 'e' && c == 'b' { 2 }
    else if a == 'M' && b == 'a' && c == 'r' { 3 }
    else if a == 'A' && b == 'p' && c == 'r' { 4 }
    else if a == 'M' && b == 'a' && c == 'y' { 5 }
    else if a == 'J' && b == 'u' && c == 'n' { 6 }
    else if a == 'J' && b == 'u' && c == 'l' { 7 }
    else if a == 'A' && b == 'u' && c == 'g' { 8 }
    else if a == 'S' && b == 'e' && c == 'p' { 9 }
    else if a == 'O' && b == 'c' && c == 't' { 10 }
    else if a == 'N' && b == 'o' && c == 'v' { 11 }
    else if a == 'D' && b == 'e' && c == 'c' { 12 }
    else { 0 }
}

fn digit_of(c: char) -> (r: Option<u8>)
    ensures
        r is Some <==> is_digit(c),
        r is Some ==> r.unwrap() as int == digit_val(c),
{
    let u: u32 = c as u32;
    if 48 <= u && u <= 57 {
        Some((u - 48) as u8)
    } else {
        None
    }
}

fn days_in_month_exec(m: u8, y: u16) -> (r: u8)
    ensures
        r as int == days_in_month(m as int, y as int),
{
    if m == 2 {
        if (y % 4 == 0) && (y % 100 != 0 || y % 400 == 0) { 29 } else { 28 }
    } else if m == 4 || m == 6 || m == 9 || m == 11 {
        30
    } else {
        31
    }
}

/// Reads an enlistment text such as `Jan 5, 2941` into a calendar day,
/// rejecting any other shape and any day outside its month.
pub fn parse_date_text(s: &str) -> (r: Option<UtcDate>)
    ensures
        r is Some <==> date_text_ok(s@),
        r is Some ==> r.unwrap() == date_of_text(s@) && r.unwrap().wf(),
{
    let n: usize = s.unicode_len();
    if n != 11 && n != 12 {
        return None;
    }
    let month = month_from_chars(s.get_char(0), s.get_char(1), s.get_char(2));
    if month == 0 {
        return None;
    }
    if s.get_char(3) != ' ' {
        return None;
    }
    let day: u8;
    let year_base: usize;
    if n == 11 {
        let d0 = match digit_of(s.get_char(4)) {
            Some(v) => v,
            None => { return None; },
        };
        if s.get_char(5) != ',' || s.get_char(6) != ' ' {
            return None;
        }
        day = d0;
        year_base = 7;
    } else {
        let d0 = match digit_of(s.get_char(4)) {
            Some(v) => v,
            None => { return None; },
        };
        let d1 = match digit_of(s.get_char(5)) {
            Some(v) => v,
            None => { return None; },
        };
        if s.get_char(6) != ',' || s.get_char(7) != ' ' {
            return None;
        }
        day = 10 * d0 + d1;
        year_base = 8;
    }
    let y0 = match digit_of(s.get_char(year_base)) {
        Some(v) => v,
        None => { return None; },
    };
    let y1 = match digit_of(s.get_char(year_base + 1)) {
        Some(v) => v,
        None => { return None; },
    };
    let y2 = match digit_of(s.get_char(year_base + 2)) {
        Some(v) => v,
        None => { return None; },
    };
    let y3 = match digit_of(s.get_char(year_base + 3)) {
        Some(v) => v,
        None => { return None; },
    };
    let year: u16 = 1000 * (y0 as u16) + 100 * (y1 as u16) + 10 * (y2 as u16) + (y3 as u16);
    if day < 1 || day > days_in_month_exec(month, year) {
        return None;
    }
    Some(UtcDate { year, month, day })
}

} // verus!
