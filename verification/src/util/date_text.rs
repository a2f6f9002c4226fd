//! The three texts of an HTTP date: the fixed-width form that is written, and
//! the two obsolete forms that are still read.
//!
//! ```text
//! Sun, 06 Nov 1994 08:49:37 GMT     the fixed-width form
//! Sunday, 06-Nov-94 08:49:37 GMT    the obsolete form with a long day name
//! Sun Nov  6 08:49:37 1994          the obsolete form of C's asctime
//! ```
//!
//! The names are case-sensitive. The day name must be a day name, but it is
//! not held against the date. The zone of the first two forms is `GMT`, and
//! `UTC` is read as the same; the third form has no zone and means UTC.

use crate::util::civil::DateTime;
use crate::util::digits::{digit_value, is_digit, ones, tens, ZERO};
use vstd::prelude::*;

verus! {

/// The space.
pub const SPACE: u8 = 32;

/// The comma.
pub const COMMA: u8 = 44;

/// The hyphen.
pub const HYPHEN: u8 = 45;

/// The colon.
pub const COLON: u8 = 58;

/// The length of a date in the fixed-width form.
pub const FIXDATE_LEN: usize = 29;

/// The length of a date in the asctime form.
pub const ASCTIME_LEN: usize = 24;

/// The length of what follows the day name in a date of the long form.
pub const RFC850_TAIL_LEN: usize = 24;

/// The three-letter name of a day of the week, 0 for Sunday to 6 for Saturday.
pub open spec fn weekday_abbrev(w: int) -> Seq<u8> {
    if w == 0 {
        seq![83u8, 117, 110]  // Sun
    } else if w == 1 {
        seq![77u8, 111, 110]  // Mon
    } else if w == 2 {
        seq![84u8, 117, 101]  // Tue
    } else if w == 3 {
        seq![87u8, 101, 100]  // Wed
    } else if w == 4 {
        seq![84u8, 104, 117]  // Thu
    } else if w == 5 {
        seq![70u8, 114, 105]  // Fri
    } else {
        seq![83u8, 97, 116]  // Sat
    }
}

/// The full name of a day of the week, 0 for Sunday to 6 for Saturday.
pub open spec fn weekday_name(w: int) -> Seq<u8> {
    if w == 0 {
        seq![83u8, 117, 110, 100, 97, 121]  // Sunday
    } else if w == 1 {
        seq![77u8, 111, 110, 100, 97, 121]  // Monday
    } else if w == 2 {
        seq![84u8, 117, 101, 115, 100, 97, 121]  // Tuesday
    } else if w == 3 {
        seq![87u8, 101, 100, 110, 101, 115, 100, 97, 121]  // Wednesday
    } else if w == 4 {
        seq![84u8, 104, 117, 114, 115, 100, 97, 121]  // Thursday
    } else if w == 5 {
        seq![70u8, 114, 105, 100, 97, 121]  // Friday
    } else {
        seq![83u8, 97, 116, 117, 114, 100, 97, 121]  // Saturday
    }
}

/// The three-letter name of a month, 1 for January to 12 for December.
pub open spec fn month_abbrev(m: int) -> Seq<u8> {
    if m == 1 {
        seq![74u8, 97, 110]  // Jan
    } else if m == 2 {
        seq![70u8, 101, 98]  // Feb
    } else if m == 3 {
        seq![77u8, 97, 114]  // Mar
    } else if m == 4 {
        seq![65u8, 112, 114]  // Apr
    } else if m == 5 {
        seq![77u8, 97, 121]  // May
    } else if m == 6 {
        seq![74u8, 117, 110]  // Jun
    } else if m == 7 {
        seq![74u8, 117, 108]  // Jul
    } else if m == 8 {
        seq![65u8, 117, 103]  // Aug
    } else if m == 9 {
        seq![83u8, 101, 112]  // Sep
    } else if m == 10 {
        seq![79u8, 99, 116]  // Oct
    } else if m == 11 {
        seq![78u8, 111, 118]  // Nov
    } else {
        seq![68u8, 101, 99]  // Dec
    }
}

/// The zone that is written: `GMT`.
pub open spec fn gmt() -> Seq<u8> {
    seq![71u8, 77, 84]
}

/// The other name that is read for the same zone: `UTC`.
pub open spec fn utc() -> Seq<u8> {
    seq![85u8, 84, 67]
}

/// Whether the three bytes of `t` from `at` on are the three-letter `name`.
pub open spec fn names(t: Seq<u8>, at: int, name: Seq<u8>) -> bool {
    t[at] == name[0] && t[at + 1] == name[1] && t[at + 2] == name[2]
}

/// Whether the three bytes of `t` from `at` on are the three-letter name of a
/// day of the week.
pub open spec fn is_weekday_at(t: Seq<u8>, at: int) -> bool {
    ||| names(t, at, weekday_abbrev(0))
    ||| names(t, at, weekday_abbrev(1))
    ||| names(t, at, weekday_abbrev(2))
    ||| names(t, at, weekday_abbrev(3))
    ||| names(t, at, weekday_abbrev(4))
    ||| names(t, at, weekday_abbrev(5))
    ||| names(t, at, weekday_abbrev(6))
}

/// Whether the first `len` bytes of `t` are the full name of day `w` of the
/// week.
pub open spec fn starts_with_weekday(t: Seq<u8>, len: int, w: int) -> bool {
    t.subrange(0, len) =~= weekday_name(w)
}

/// Whether the first `len` bytes of `t` are the full name of a day of the
/// week.
pub open spec fn starts_with_a_weekday(t: Seq<u8>, len: int) -> bool {
    ||| starts_with_weekday(t, len, 0)
    ||| starts_with_weekday(t, len, 1)
    ||| starts_with_weekday(t, len, 2)
    ||| starts_with_weekday(t, len, 3)
    ||| starts_with_weekday(t, len, 4)
    ||| starts_with_weekday(t, len, 5)
    ||| starts_with_weekday(t, len, 6)
}

/// The month that the three bytes of `t` from `at` on are the three-letter
/// name of, or 0 if they name no month.
pub open spec fn month_at(t: Seq<u8>, at: int) -> int {
    if names(t, at, month_abbrev(1)) {
        1
    } else if names(t, at, month_abbrev(2)) {
        2
    } else if names(t, at, month_abbrev(3)) {
        3
    } else if names(t, at, month_abbrev(4)) {
        4
    } else if names(t, at, month_abbrev(5)) {
        5
    } else if names(t, at, month_abbrev(6)) {
        6
    } else if names(t, at, month_abbrev(7)) {
        7
    } else if names(t, at, month_abbrev(8)) {
        8
    } else if names(t, at, month_abbrev(9)) {
        9
    } else if names(t, at, month_abbrev(10)) {
        10
    } else if names(t, at, month_abbrev(11)) {
        11
    } else if names(t, at, month_abbrev(12)) {
        12
    } else {
        0
    }
}

/// Whether the three bytes of `t` from `at` on name the zone.
pub open spec fn is_zone_at(t: Seq<u8>, at: int) -> bool {
    names(t, at, gmt()) || names(t, at, utc())
}

/// Whether the two bytes of `t` from `at` on are digits.
pub open spec fn is_pair_at(t: Seq<u8>, at: int) -> bool {
    is_digit(t[at]) && is_digit(t[at + 1])
}

/// The number that the two digits of `t` from `at` on denote.
pub open spec fn pair_at(t: Seq<u8>, at: int) -> nat {
    digit_value(t[at]) * 10 + digit_value(t[at + 1])
}

/// Whether the four bytes of `t` from `at` on are digits.
pub open spec fn is_year_at(t: Seq<u8>, at: int) -> bool {
    is_pair_at(t, at) && is_pair_at(t, at + 2)
}

/// The number that the four digits of `t` from `at` on denote.
pub open spec fn year_at(t: Seq<u8>, at: int) -> nat {
    pair_at(t, at) * 100 + pair_at(t, at + 2)
}

/// Whether the eight bytes of `t` from `at` on are a time of day, as
/// `HH:MM:SS`.
pub open spec fn is_clock_at(t: Seq<u8>, at: int) -> bool {
    &&& is_pair_at(t, at)
    &&& t[at + 2] == COLON
    &&& is_pair_at(t, at + 3)
    &&& t[at + 5] == COLON
    &&& is_pair_at(t, at + 6)
}

/// Whether the two bytes of `t` from `at` on are a day of the month as the
/// asctime form has it: two digits, or a space and one digit.
pub open spec fn is_padded_day_at(t: Seq<u8>, at: int) -> bool {
    (t[at] == SPACE || is_digit(t[at])) && is_digit(t[at + 1])
}

/// The number that a day of the month in the asctime form denotes.
pub open spec fn padded_day_at(t: Seq<u8>, at: int) -> nat {
    if t[at] == SPACE {
        digit_value(t[at + 1])
    } else {
        pair_at(t, at)
    }
}

/// The year that the two digits of the long form stand for: the seventies to
/// the nineties are of the twentieth century, and what is below of the
/// twenty-first.
pub open spec fn full_year(two: nat) -> nat {
    if two >= 70 {
        1900 + two
    } else {
        2000 + two
    }
}

/// The text of `c` in the fixed-width form, the one form that is written,
/// byte by byte: the day name of the date, the day, the month, the year, the
/// time of day and `GMT`.
pub open spec fn fixdate_text(c: DateTime) -> Seq<u8> {
    let day_name = weekday_abbrev(c.weekday());
    let month_name = month_abbrev(c.month as int);
    let century = c.year as int / 100;
    let year = c.year as int % 100;
    let zone = gmt();
    seq![
        day_name[0],
        day_name[1],
        day_name[2],
        COMMA,
        SPACE,
        tens(c.day as int),
        ones(c.day as int),
        SPACE,
        month_name[0],
        month_name[1],
        month_name[2],
        SPACE,
        tens(century),
        ones(century),
        tens(year),
        ones(year),
        SPACE,
        tens(c.hour as int),
        ones(c.hour as int),
        COLON,
        tens(c.minute as int),
        ones(c.minute as int),
        COLON,
        tens(c.second as int),
        ones(c.second as int),
        SPACE,
        zone[0],
        zone[1],
        zone[2],
    ]
}

/// Whether `t` is a date in the fixed-width form.
pub open spec fn is_fixdate(t: Seq<u8>) -> bool {
    &&& t.len() == FIXDATE_LEN
    &&& is_weekday_at(t, 0)
    &&& t[3] == COMMA
    &&& t[4] == SPACE
    &&& is_pair_at(t, 5)
    &&& t[7] == SPACE
    &&& month_at(t, 8) != 0
    &&& t[11] == SPACE
    &&& is_year_at(t, 12)
    &&& t[16] == SPACE
    &&& is_clock_at(t, 17)
    &&& t[25] == SPACE
    &&& is_zone_at(t, 26)
}

/// The fields that a date in the fixed-width form gives.
pub open spec fn fixdate_fields(t: Seq<u8>) -> DateTime {
    DateTime {
        year: year_at(t, 12) as u16,
        month: month_at(t, 8) as u8,
        day: pair_at(t, 5) as u8,
        hour: pair_at(t, 17) as u8,
        minute: pair_at(t, 20) as u8,
        second: pair_at(t, 23) as u8,
    }
}

/// Whether `t` is a date in the long form: a full day name, and then
/// `, DD-Mon-YY HH:MM:SS GMT`.
pub open spec fn is_rfc850(t: Seq<u8>) -> bool {
    let k = t.len() - RFC850_TAIL_LEN;
    &&& k > 0
    &&& starts_with_a_weekday(t, k)
    &&& t[k] == COMMA
    &&& t[k + 1] == SPACE
    &&& is_pair_at(t, k + 2)
    &&& t[k + 4] == HYPHEN
    &&& month_at(t, k + 5) != 0
    &&& t[k + 8] == HYPHEN
    &&& is_pair_at(t, k + 9)
    &&& t[k + 11] == SPACE
    &&& is_clock_at(t, k + 12)
    &&& t[k + 20] == SPACE
    &&& is_zone_at(t, k + 21)
}

/// The fields that a date in the long form gives.
pub open spec fn rfc850_fields(t: Seq<u8>) -> DateTime {
    let k = t.len() - RFC850_TAIL_LEN;
    DateTime {
        year: full_year(pair_at(t, k + 9)) as u16,
        month: month_at(t, k + 5) as u8,
        day: pair_at(t, k + 2) as u8,
        hour: pair_at(t, k + 12) as u8,
        minute: pair_at(t, k + 15) as u8,
        second: pair_at(t, k + 18) as u8,
    }
}

/// Whether `t` is a date in the asctime form.
pub open spec fn is_asctime(t: Seq<u8>) -> bool {
    &&& t.len() == ASCTIME_LEN
    &&& is_weekday_at(t, 0)
    &&& t[3] == SPACE
    &&& month_at(t, 4) != 0
    &&& t[7] == SPACE
    &&& is_padded_day_at(t, 8)
    &&& t[10] == SPACE
    &&& is_clock_at(t, 11)
    &&& t[19] == SPACE
    &&& is_year_at(t, 20)
}

/// The fields that a date in the asctime form gives.
pub open spec fn asctime_fields(t: Seq<u8>) -> DateTime {
    DateTime {
        year: year_at(t, 20) as u16,
        month: month_at(t, 4) as u8,
        day: padded_day_at(t, 8) as u8,
        hour: pair_at(t, 11) as u8,
        minute: pair_at(t, 14) as u8,
        second: pair_at(t, 17) as u8,
    }
}

/// The fields that a text gives as a date, in whichever of the three forms it
/// is written; `None` if it is in none of them. The fields may still name no
/// instant.
pub open spec fn date_fields(t: Seq<u8>) -> Option<DateTime> {
    if is_fixdate(t) {
        Some(fixdate_fields(t))
    } else if is_rfc850(t) {
        Some(rfc850_fields(t))
    } else if is_asctime(t) {
        Some(asctime_fields(t))
    } else {
        None
    }
}

/// The fixed-width text of valid fields is a date in the fixed-width form, and
/// it gives those fields back.
#[verifier::rlimit(40)]
pub proof fn lemma_fixdate_reads_back(c: DateTime)
    requires
        c.is_valid(),
    ensures
        fixdate_text(c).len() == FIXDATE_LEN,
        is_fixdate(fixdate_text(c)),
        fixdate_fields(fixdate_text(c)) == c,
        date_fields(fixdate_text(c)) == Some(c),
{
    let t = fixdate_text(c);
    assert(is_weekday_at(t, 0)) by {
        assert(names(t, 0, weekday_abbrev(c.weekday())));
    }
    assert(month_at(t, 8) == c.month) by {
        assert(names(t, 8, month_abbrev(c.month as int)));
    }
    assert(pair_at(t, 5) == c.day);
    assert(year_at(t, 12) == c.year);
    assert(pair_at(t, 17) == c.hour && pair_at(t, 20) == c.minute && pair_at(t, 23) == c.second);
}

/// Whether the three bytes of `text` from `at` on are `name`.
fn name_at(text: &[u8], at: usize, name: [u8; 3]) -> (b: bool)
    requires
        at + 3 <= text.len(),
    ensures
        b == names(text@, at as int, name@),
{
    text[at] == name[0] && text[at + 1] == name[1] && text[at + 2] == name[2]
}

/// Whether `word` is all of the first `len` bytes of `text`.
fn starts_with(text: &[u8], len: usize, word: &[u8]) -> (b: bool)
    requires
        len <= text.len(),
    ensures
        b == (text@.subrange(0, len as int) == word@),
{
    if word.len() != len {
        return false;
    }
    let ghost start = text@.subrange(0, len as int);
    let mut i: usize = 0;
    while i < len
        invariant
            len <= text.len(),
            len == word@.len(),
            i <= len,
            start == text@.subrange(0, len as int),
            forall|j: int| 0 <= j < i ==> start[j] == word@[j],
        decreases len - i,
    {
        if text[i] != word[i] {
            return false;
        }
        i = i + 1;
    }
    assert(start =~= word@);
    true
}

/// The three-letter name of day `w` of the week.
fn weekday_abbrev_bytes(w: u8) -> (name: [u8; 3])
    requires
        w < 7,
    ensures
        name@ == weekday_abbrev(w as int),
{
    let name: [u8; 3] = if w == 0 {
        [83, 117, 110]
    } else if w == 1 {
        [77, 111, 110]
    } else if w == 2 {
        [84, 117, 101]
    } else if w == 3 {
        [87, 101, 100]
    } else if w == 4 {
        [84, 104, 117]
    } else if w == 5 {
        [70, 114, 105]
    } else {
        [83, 97, 116]
    };
    name
}

/// The full name of day `w` of the week.
fn weekday_name_bytes(w: u8) -> (name: Vec<u8>)
    requires
        w < 7,
    ensures
        name@ == weekday_name(w as int),
{
    let name: Vec<u8> = if w == 0 {
        vec![83, 117, 110, 100, 97, 121]
    } else if w == 1 {
        vec![77, 111, 110, 100, 97, 121]
    } else if w == 2 {
        vec![84, 117, 101, 115, 100, 97, 121]
    } else if w == 3 {
        vec![87, 101, 100, 110, 101, 115, 100, 97, 121]
    } else if w == 4 {
        vec![84, 104, 117, 114, 115, 100, 97, 121]
    } else if w == 5 {
        vec![70, 114, 105, 100, 97, 121]
    } else {
        vec![83, 97, 116, 117, 114, 100, 97, 121]
    };
    name
}

/// The three-letter name of month `m`.
fn month_abbrev_bytes(m: u8) -> (name: [u8; 3])
    requires
        1 <= m <= 12,
    ensures
        name@ == month_abbrev(m as int),
{
    let name: [u8; 3] = if m == 1 {
        [74, 97, 110]
    } else if m == 2 {
        [70, 101, 98]
    } else if m == 3 {
        [77, 97, 114]
    } else if m == 4 {
        [65, 112, 114]
    } else if m == 5 {
        [77, 97, 121]
    } else if m == 6 {
        [74, 117, 110]
    } else if m == 7 {
        [74, 117, 108]
    } else if m == 8 {
        [65, 117, 103]
    } else if m == 9 {
        [83, 101, 112]
    } else if m == 10 {
        [79, 99, 116]
    } else if m == 11 {
        [78, 111, 118]
    } else {
        [68, 101, 99]
    };
    name
}

/// Whether the three bytes from `at` on are the short name of a day of the
/// week.
fn weekday_at(text: &[u8], at: usize) -> (b: bool)
    requires
        at + 3 <= text.len(),
    ensures
        b == is_weekday_at(text@, at as int),
{
    let mut w: u8 = 0;
    while w < 7
        invariant
            w <= 7,
            at + 3 <= text.len(),
            forall|k: int| 0 <= k < w ==> !names(text@, at as int, #[trigger] weekday_abbrev(k)),
        decreases 7 - w,
    {
        if name_at(text, at, weekday_abbrev_bytes(w)) {
            return true;
        }
        w = w + 1;
    }
    false
}

/// Whether the first `len` bytes are the full name of a day of the week.
fn weekday_at_start(text: &[u8], len: usize) -> (b: bool)
    requires
        len <= text.len(),
    ensures
        b == starts_with_a_weekday(text@, len as int),
{
    let mut w: u8 = 0;
    while w < 7
        invariant
            w <= 7,
            len <= text.len(),
            forall|k: int| 0 <= k < w ==> !#[trigger] starts_with_weekday(text@, len as int, k),
        decreases 7 - w,
    {
        let name = weekday_name_bytes(w);
        if starts_with(text, len, name.as_slice()) {
            return true;
        }
        w = w + 1;
    }
    false
}

/// The month that the three bytes from `at` on name, or 0 if they name none.
fn read_month(text: &[u8], at: usize) -> (m: u8)
    requires
        at + 3 <= text.len(),
    ensures
        m == month_at(text@, at as int),
{
    let mut m: u8 = 1;
    while m <= 12
        invariant
            1 <= m <= 13,
            at + 3 <= text.len(),
            forall|k: int| 1 <= k < m ==> !names(text@, at as int, #[trigger] month_abbrev(k)),
        decreases 13 - m,
    {
        if name_at(text, at, month_abbrev_bytes(m)) {
            return m;
        }
        m = m + 1;
    }
    0
}

/// Whether the three bytes from `at` on name the zone.
fn zone_at(text: &[u8], at: usize) -> (b: bool)
    requires
        at + 3 <= text.len(),
    ensures
        b == is_zone_at(text@, at as int),
{
    let written: [u8; 3] = [71, 77, 84];
    let other: [u8; 3] = [85, 84, 67];
    name_at(text, at, written) || name_at(text, at, other)
}

/// The number that the two bytes from `at` on denote, if both are digits.
fn read_pair(text: &[u8], at: usize) -> (r: Option<u8>)
    requires
        at + 2 <= text.len(),
    ensures
        r is Some <==> is_pair_at(text@, at as int),
        r matches Some(n) ==> n == pair_at(text@, at as int),
{
    let a: u8 = text[at];
    let b: u8 = text[at + 1];
    if 48 <= a && a <= 57 && 48 <= b && b <= 57 {
        Some((a - 48) * 10 + (b - 48))
    } else {
        None
    }
}

/// The number that the four bytes from `at` on denote, if all are digits.
fn read_year(text: &[u8], at: usize) -> (r: Option<u16>)
    requires
        at + 4 <= text.len(),
    ensures
        r is Some <==> is_year_at(text@, at as int),
        r matches Some(n) ==> n == year_at(text@, at as int),
{
    match (read_pair(text, at), read_pair(text, at + 2)) {
        (Some(high), Some(low)) => Some(high as u16 * 100 + low as u16),
        _ => None,
    }
}

/// The time of day that the eight bytes from `at` on give, if they are one.
fn read_clock(text: &[u8], at: usize) -> (r: Option<(u8, u8, u8)>)
    requires
        at + 8 <= text.len(),
    ensures
        r is Some <==> is_clock_at(text@, at as int),
        r matches Some(c) ==> c.0 == pair_at(text@, at as int),
        r matches Some(c) ==> c.1 == pair_at(text@, at + 3),
        r matches Some(c) ==> c.2 == pair_at(text@, at + 6),
{
    if text[at + 2] != COLON || text[at + 5] != COLON {
        return None;
    }
    match (read_pair(text, at), read_pair(text, at + 3), read_pair(text, at + 6)) {
        (Some(hour), Some(minute), Some(second)) => Some((hour, minute, second)),
        _ => None,
    }
}

/// Reads a date in the fixed-width form.
pub fn read_fixdate(text: &[u8]) -> (r: Option<DateTime>)
    ensures
        r is Some <==> is_fixdate(text@),
        r matches Some(fields) ==> fields == fixdate_fields(text@),
{
    if text.len() != FIXDATE_LEN {
        return None;
    }
    if !weekday_at(text, 0) || text[3] != COMMA || text[4] != SPACE || text[7] != SPACE
        || text[11] != SPACE || text[16] != SPACE || text[25] != SPACE || !zone_at(text, 26) {
        return None;
    }
    let month = read_month(text, 8);
    if month == 0 {
        return None;
    }
    match (read_pair(text, 5), read_year(text, 12), read_clock(text, 17)) {
        (Some(day), Some(year), Some(clock)) => Some(
            DateTime { year, month, day, hour: clock.0, minute: clock.1, second: clock.2 },
        ),
        _ => None,
    }
}

/// Reads a date in the long form.
pub fn read_rfc850(text: &[u8]) -> (r: Option<DateTime>)
    ensures
        r is Some <==> is_rfc850(text@),
        r matches Some(fields) ==> fields == rfc850_fields(text@),
{
    if text.len() <= RFC850_TAIL_LEN {
        return None;
    }
    let k: usize = text.len() - RFC850_TAIL_LEN;
    if !weekday_at_start(text, k) || text[k] != COMMA || text[k + 1] != SPACE || text[k + 4]
        != HYPHEN || text[k + 8] != HYPHEN || text[k + 11] != SPACE || text[k + 20] != SPACE
        || !zone_at(text, k + 21) {
        return None;
    }
    let month = read_month(text, k + 5);
    if month == 0 {
        return None;
    }
    match (read_pair(text, k + 2), read_pair(text, k + 9), read_clock(text, k + 12)) {
        (Some(day), Some(two), Some(clock)) => {
            let year: u16 = if two >= 70 {
                1900 + two as u16
            } else {
                2000 + two as u16
            };
            Some(DateTime { year, month, day, hour: clock.0, minute: clock.1, second: clock.2 })
        },
        _ => None,
    }
}

/// Reads a date in the asctime form.
pub fn read_asctime(text: &[u8]) -> (r: Option<DateTime>)
    ensures
        r is Some <==> is_asctime(text@),
        r matches Some(fields) ==> fields == asctime_fields(text@),
{
    if text.len() != ASCTIME_LEN {
        return None;
    }
    if !weekday_at(text, 0) || text[3] != SPACE || text[7] != SPACE || text[10] != SPACE
        || text[19] != SPACE {
        return None;
    }
    let month = read_month(text, 4);
    if month == 0 {
        return None;
    }
    let day: Option<u8> = if text[8] == SPACE {
        if 48 <= text[9] && text[9] <= 57 {
            Some(text[9] - 48)
        } else {
            None
        }
    } else {
        read_pair(text, 8)
    };
    match (day, read_year(text, 20), read_clock(text, 11)) {
        (Some(day), Some(year), Some(clock)) => Some(
            DateTime { year, month, day, hour: clock.0, minute: clock.1, second: clock.2 },
        ),
        _ => None,
    }
}

/// Reads a date in whichever of the three forms it is written.
pub fn read_date(text: &[u8]) -> (r: Option<DateTime>)
    ensures
        r == date_fields(text@),
{
    match read_fixdate(text) {
        Some(c) => Some(c),
        None => match read_rfc850(text) {
            Some(c) => Some(c),
            None => read_asctime(text),
        },
    }
}

/// Appends `n` in two digits to `out`.
fn push_pair(n: u8, out: &mut Vec<u8>)
    requires
        n < 100,
    ensures
        final(out)@ == old(out)@.push(tens(n as int)).push(ones(n as int)),
{
    out.push(ZERO + n / 10);
    out.push(ZERO + n % 10);
}

/// Appends the day name, the day, the month and the year of `c`, each with
/// what follows it in the fixed-width form.
fn push_date(c: &DateTime, out: &mut Vec<u8>)
    requires
        c.is_valid(),
    ensures
        final(out)@ == old(out)@ + fixdate_text(*c).subrange(0, 17),
{
    let day_name = weekday_abbrev_bytes(c.weekday_number());
    let month_name = month_abbrev_bytes(c.month);
    out.push(day_name[0]);
    out.push(day_name[1]);
    out.push(day_name[2]);
    out.push(COMMA);
    out.push(SPACE);
    push_pair(c.day, out);
    out.push(SPACE);
    out.push(month_name[0]);
    out.push(month_name[1]);
    out.push(month_name[2]);
    out.push(SPACE);
    push_pair((c.year / 100) as u8, out);
    push_pair((c.year % 100) as u8, out);
    out.push(SPACE);
    assert(final(out)@ =~= old(out)@ + fixdate_text(*c).subrange(0, 17));
}

/// Appends the time of day of `c` and the zone, as the fixed-width form has
/// them.
fn push_time(c: &DateTime, out: &mut Vec<u8>)
    requires
        c.is_valid(),
    ensures
        final(out)@ == old(out)@ + fixdate_text(*c).subrange(17, 29),
{
    push_pair(c.hour, out);
    out.push(COLON);
    push_pair(c.minute, out);
    out.push(COLON);
    push_pair(c.second, out);
    out.push(SPACE);
    out.push(71);
    out.push(77);
    out.push(84);
    assert(final(out)@ =~= old(out)@ + fixdate_text(*c).subrange(17, 29));
}

/// Writes valid fields in the fixed-width form.
pub(crate) fn write_fixdate(c: &DateTime) -> (text: Vec<u8>)
    requires
        c.is_valid(),
    ensures
        text@ == fixdate_text(*c),
{
    let mut text: Vec<u8> = Vec::with_capacity(FIXDATE_LEN);
    push_date(c, &mut text);
    push_time(c, &mut text);
    assert(text@ =~= fixdate_text(*c));
    text
}

} // verus!
