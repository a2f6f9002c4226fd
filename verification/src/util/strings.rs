//! Texts as strings: the same texts that are written as bytes, for display.
//!
//! Every text of this library is ASCII, so a text has one character for each
//! of its bytes.

use crate::util::civil::DateTime;
use crate::util::date_text::{fixdate_text, month_abbrev, weekday_abbrev};
use crate::util::digits::{decimal, digit, ones, tens};
use vstd::prelude::*;
use vstd::string::StringExecFns;

verus! {

/// The characters of an ASCII text, one for each byte.
pub open spec fn chars_of(bytes: Seq<u8>) -> Seq<char> {
    bytes.map_values(|b: u8| b as char)
}

/// The digit `d` as a string.
fn digit_str(d: u8) -> (s: &'static str)
    requires
        d < 10,
    ensures
        s@ == seq![digit(d as nat) as char],
{
    proof {
        reveal_strlit("0");
        reveal_strlit("1");
        reveal_strlit("2");
        reveal_strlit("3");
        reveal_strlit("4");
        reveal_strlit("5");
        reveal_strlit("6");
        reveal_strlit("7");
        reveal_strlit("8");
        reveal_strlit("9");
    }
    let s = if d == 0 {
        "0"
    } else if d == 1 {
        "1"
    } else if d == 2 {
        "2"
    } else if d == 3 {
        "3"
    } else if d == 4 {
        "4"
    } else if d == 5 {
        "5"
    } else if d == 6 {
        "6"
    } else if d == 7 {
        "7"
    } else if d == 8 {
        "8"
    } else {
        "9"
    };
    s
}

/// The three-letter name of day `w` of the week, as a string.
fn weekday_str(w: u8) -> (s: &'static str)
    requires
        w < 7,
    ensures
        s@ == chars_of(weekday_abbrev(w as int)),
{
    proof {
        reveal_strlit("Sun");
        reveal_strlit("Mon");
        reveal_strlit("Tue");
        reveal_strlit("Wed");
        reveal_strlit("Thu");
        reveal_strlit("Fri");
        reveal_strlit("Sat");
    }
    let s = if w == 0 {
        "Sun"
    } else if w == 1 {
        "Mon"
    } else if w == 2 {
        "Tue"
    } else if w == 3 {
        "Wed"
    } else if w == 4 {
        "Thu"
    } else if w == 5 {
        "Fri"
    } else {
        "Sat"
    };
    s
}

/// The three-letter name of month `m`, as a string.
fn month_str(m: u8) -> (s: &'static str)
    requires
        1 <= m <= 12,
    ensures
        s@ == chars_of(month_abbrev(m as int)),
{
    proof {
        reveal_strlit("Jan");
        reveal_strlit("Feb");
        reveal_strlit("Mar");
        reveal_strlit("Apr");
        reveal_strlit("May");
        reveal_strlit("Jun");
        reveal_strlit("Jul");
        reveal_strlit("Aug");
        reveal_strlit("Sep");
        reveal_strlit("Oct");
        reveal_strlit("Nov");
        reveal_strlit("Dec");
    }
    let s = if m == 1 {
        "Jan"
    } else if m == 2 {
        "Feb"
    } else if m == 3 {
        "Mar"
    } else if m == 4 {
        "Apr"
    } else if m == 5 {
        "May"
    } else if m == 6 {
        "Jun"
    } else if m == 7 {
        "Jul"
    } else if m == 8 {
        "Aug"
    } else if m == 9 {
        "Sep"
    } else if m == 10 {
        "Oct"
    } else if m == 11 {
        "Nov"
    } else {
        "Dec"
    };
    s
}

/// Appends the decimal form of `n` to `out`.
pub(crate) fn push_decimal_str(n: u64, out: &mut String)
    ensures
        final(out)@ == old(out)@ + chars_of(decimal(n as nat)),
    decreases n,
{
    if n >= 10 {
        push_decimal_str(n / 10, out);
    }
    out.append(digit_str((n % 10) as u8));
}

/// Appends `n` in two digits to `out`.
fn push_pair_str(n: u8, out: &mut String)
    requires
        n < 100,
    ensures
        final(out)@ == old(out)@.push(tens(n as int) as char).push(ones(n as int) as char),
{
    out.append(digit_str(n / 10));
    out.append(digit_str(n % 10));
}

/// Appends the day name and the day of `c`, each with what follows it in the
/// fixed-width form.
fn push_day_str(c: &DateTime, out: &mut String)
    requires
        c.is_valid(),
    ensures
        final(out)@ == old(out)@ + chars_of(fixdate_text(*c).subrange(0, 8)),
{
    proof {
        reveal_strlit(", ");
        reveal_strlit(" ");
    }
    out.append(weekday_str(c.weekday_number()));
    out.append(", ");
    push_pair_str(c.day, out);
    out.append(" ");
    assert(final(out)@ =~= old(out)@ + chars_of(fixdate_text(*c).subrange(0, 8)));
}

/// Appends the month and the year of `c`, each with what follows it in the
/// fixed-width form.
fn push_month_str(c: &DateTime, out: &mut String)
    requires
        c.is_valid(),
    ensures
        final(out)@ == old(out)@ + chars_of(fixdate_text(*c).subrange(8, 17)),
{
    proof {
        reveal_strlit(" ");
    }
    out.append(month_str(c.month));
    out.append(" ");
    push_pair_str((c.year / 100) as u8, out);
    push_pair_str((c.year % 100) as u8, out);
    out.append(" ");
    assert(final(out)@ =~= old(out)@ + chars_of(fixdate_text(*c).subrange(8, 17)));
}

/// Appends the time of day of `c` and the zone, as the fixed-width form has
/// them.
fn push_time_str(c: &DateTime, out: &mut String)
    requires
        c.is_valid(),
    ensures
        final(out)@ == old(out)@ + chars_of(fixdate_text(*c).subrange(17, 29)),
{
    proof {
        reveal_strlit(":");
        reveal_strlit(" GMT");
    }
    push_pair_str(c.hour, out);
    out.append(":");
    push_pair_str(c.minute, out);
    out.append(":");
    push_pair_str(c.second, out);
    out.append(" GMT");
    assert(final(out)@ =~= old(out)@ + chars_of(fixdate_text(*c).subrange(17, 29)));
}

/// Writes valid fields in the fixed-width form, as a string.
pub(crate) fn fixdate_string(c: &DateTime) -> (text: String)
    requires
        c.is_valid(),
    ensures
        text@ == chars_of(fixdate_text(*c)),
{
    let mut text = String::new();
    push_day_str(c, &mut text);
    push_month_str(c, &mut text);
    push_time_str(c, &mut text);
    assert(text@ =~= chars_of(fixdate_text(*c)));
    text
}

} // verus!
