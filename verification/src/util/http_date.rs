//! An instant at one-second resolution, read from any of the three texts of
//! an HTTP date and written in the fixed-width one.

use crate::clock::{unix_epoch, unix_nanos, EpochOffset, SECOND_NANOS};
use crate::header::TryFromValues;
use crate::util::civil::{
    lemma_instant_of, lemma_of_instant, DateTime, FIRST_INSTANT, LAST_INSTANT,
};
use crate::util::date_text::{
    date_fields, fixdate_text, lemma_fixdate_reads_back, month_abbrev, read_date, weekday_abbrev,
    write_fixdate,
};
use crate::util::strings::{chars_of, fixdate_string};
use crate::value::{as_bytes, from_bytes, is_value_byte, is_value_text, value_bytes, Values};
use http::header::HeaderValue;
use std::cmp::Ordering;
use std::time::Duration;
use std::time::SystemTime;
use vstd::prelude::*;
use vstd::std_specs::cmp::PartialOrdSpecImpl;
use vstd::std_specs::convert::FromSpecImpl;

verus! {

/// An instant of the years 0 to 9999, at one-second resolution.
#[derive(Clone, Copy, PartialEq, Eq, Structural, Ord, Hash, Debug)]
pub struct HttpDate {
    secs: i64,
}

/// Whether an instant, in seconds from the Unix epoch, lies in the years 0 to
/// 9999: the instants that an HTTP date can write.
pub open spec fn is_http_instant(t: int) -> bool {
    FIRST_INSTANT <= t <= LAST_INSTANT
}

/// The instant of the years 0 to 9999 that lies nearest to `t`.
pub open spec fn nearest_http_instant(t: int) -> int {
    if t < FIRST_INSTANT {
        FIRST_INSTANT as int
    } else if t > LAST_INSTANT {
        LAST_INSTANT as int
    } else {
        t
    }
}

/// The instant that a text stands for, in seconds from the Unix epoch: the
/// text must be a date in one of the three forms, and its fields must name an
/// instant.
pub open spec fn parse_http_date(text: Seq<u8>) -> Option<int> {
    match date_fields(text) {
        Some(fields) => if fields.is_valid() {
            Some(fields.instant())
        } else {
            None
        },
        None => None,
    }
}

/// The text of an instant: its date and time of day in the fixed-width form.
pub open spec fn format_http_date(t: int) -> Seq<u8> {
    fixdate_text(DateTime::of_instant(t))
}

impl View for HttpDate {
    type V = int;

    /// The instant, in seconds from the Unix epoch.
    closed spec fn view(&self) -> int {
        self.secs as int
    }
}

impl HttpDate {
    #[verifier::type_invariant]
    spec fn in_calendar(self) -> bool {
        FIRST_INSTANT <= self.secs <= LAST_INSTANT
    }

    /// The date of the instant that lies `secs` seconds after the Unix epoch,
    /// if that is an instant of the years 0 to 9999.
    pub fn from_unix(secs: i64) -> (r: Option<HttpDate>)
        ensures
            r is Some <==> is_http_instant(secs as int),
            r matches Some(date) ==> date@ == secs,
    {
        if FIRST_INSTANT <= secs && secs <= LAST_INSTANT {
            Some(HttpDate { secs })
        } else {
            None
        }
    }

    /// The instant, in seconds from the Unix epoch.
    pub fn as_unix(&self) -> (secs: i64)
        ensures
            secs == self@,
            is_http_instant(self@),
    {
        proof {
            use_type_invariant(self);
        }
        self.secs
    }

    /// The instant that the fields name, if they name one.
    pub fn from_civil(fields: &DateTime) -> (r: Option<HttpDate>)
        ensures
            r is Some <==> fields.is_valid(),
            r matches Some(date) ==> date@ == fields.instant(),
    {
        if fields.validate() {
            Some(HttpDate { secs: fields.to_instant() })
        } else {
            None
        }
    }

    /// The date and the time of day of the instant.
    pub fn civil(&self) -> (fields: DateTime)
        ensures
            fields == DateTime::of_instant(self@),
            fields.is_valid(),
            fields.instant() == self@,
    {
        proof {
            use_type_invariant(self);
        }
        DateTime::from_instant(self.secs)
    }

    /// The day of the week of the instant: 0 for Sunday, up to 6 for
    /// Saturday.
    pub fn weekday(&self) -> (w: u8)
        ensures
            w == DateTime::of_instant(self@).weekday(),
            w < 7,
    {
        self.civil().weekday_number()
    }

    /// Reads an instant from its text, in any of the three forms.
    pub fn parse(text: &[u8]) -> (r: Option<HttpDate>)
        ensures
            r is Some <==> parse_http_date(text@) is Some,
            r matches Some(date) ==> parse_http_date(text@) == Some(date@),
    {
        match read_date(text) {
            Some(fields) => HttpDate::from_civil(&fields),
            None => None,
        }
    }

    /// Reads an instant from a raw header value.
    pub fn from_val(val: &HeaderValue) -> (r: Option<HttpDate>)
        ensures
            r is Some <==> parse_http_date(value_bytes(*val)) is Some,
            r matches Some(date) ==> parse_http_date(value_bytes(*val)) == Some(date@),
    {
        HttpDate::parse(as_bytes(val))
    }

    /// The text of the instant, in the fixed-width form.
    pub fn format(&self) -> (text: Vec<u8>)
        ensures
            text@ == format_http_date(self@),
            is_http_instant(self@),
    {
        proof {
            use_type_invariant(self);
        }
        let fields = self.civil();
        write_fixdate(&fields)
    }

    /// The text of the instant, in the fixed-width form, as a string.
    pub fn to_string(&self) -> (text: String)
        ensures
            text@ == chars_of(format_http_date(self@)),
    {
        let fields = self.civil();
        fixdate_string(&fields)
    }

    /// The raw header value of the instant: its text in the fixed-width form.
    pub fn to_value(&self) -> (value: HeaderValue)
        ensures
            value_bytes(value) == format_http_date(self@),
            is_http_instant(self@),
    {
        let text = self.format();
        proof {
            use_type_invariant(self);
            lemma_text_is_value_text(self@);
        }
        match from_bytes(text.as_slice()) {
            Ok(value) => value,
            Err(_) => unreached(),
        }
    }

    /// The instant of the offset, with what is beyond its whole second
    /// dropped: the last whole second at or before it. An offset outside the
    /// years 0 to 9999 gives the nearest instant of those years.
    pub fn from_offset(offset: EpochOffset) -> (date: HttpDate)
        ensures
            date@ == nearest_http_instant(offset.nanos() / (SECOND_NANOS as int)),
    {
        let ghost whole = offset.nanos() / (SECOND_NANOS as int);
        let secs: u128 = offset.secs as u128 + (offset.subsec_nanos / SECOND_NANOS) as u128;
        let beyond: u32 = offset.subsec_nanos % SECOND_NANOS;
        assert(offset.secs * SECOND_NANOS + offset.subsec_nanos == secs * SECOND_NANOS + beyond);
        if !offset.before {
            assert(whole == secs);
            if secs > LAST_INSTANT as u128 {
                HttpDate { secs: LAST_INSTANT }
            } else {
                HttpDate { secs: secs as i64 }
            }
        } else {
            let part: u128 = if beyond > 0 {
                1
            } else {
                0
            };
            assert(whole == -(secs + part));
            if secs >= (-FIRST_INSTANT) as u128 {
                HttpDate { secs: FIRST_INSTANT }
            } else {
                HttpDate { secs: -((secs + part) as i64) }
            }
        }
    }

    /// Whether the instant of `offset` is this instant or a later one.
    pub fn is_reached_by(&self, offset: EpochOffset) -> (b: bool)
        ensures
            b == (offset.nanos() >= self@ * SECOND_NANOS),
    {
        proof {
            use_type_invariant(self);
        }
        let secs: u128 = offset.secs as u128 + (offset.subsec_nanos / SECOND_NANOS) as u128;
        let beyond: u32 = offset.subsec_nanos % SECOND_NANOS;
        assert(offset.secs * SECOND_NANOS + offset.subsec_nanos == secs * SECOND_NANOS + beyond);
        if !offset.before {
            self.secs <= 0 || secs >= self.secs as u128
        } else if self.secs >= 0 {
            self.secs == 0 && secs == 0 && beyond == 0
        } else {
            let back: u128 = (-self.secs) as u128;
            secs < back || (secs == back && beyond == 0)
        }
    }

    /// This instant on the system clock, or `None` where the clock of this
    /// platform cannot hold it.
    pub fn to_system_time(&self) -> (r: Option<SystemTime>)
        ensures
            r matches Some(t) ==> unix_nanos(t) == self@ * SECOND_NANOS,
    {
        proof {
            use_type_invariant(self);
        }
        let epoch = unix_epoch();
        if self.secs >= 0 {
            epoch.checked_add(Duration::from_secs(self.secs as u64))
        } else {
            epoch.checked_sub(Duration::from_secs((-self.secs) as u64))
        }
    }
}

impl TryFromValues for HttpDate {
    /// A date is decoded from the first value alone, read as its text.
    open spec fn decoded(values: Seq<Seq<u8>>) -> Option<int> {
        if values.len() == 0 {
            None
        } else {
            parse_http_date(values[0])
        }
    }

    /// Takes the next value from the cursor, if there is one, and reads it as
    /// a date.
    fn try_from_values(values: &mut Values) -> (r: Option<HttpDate>)
        ensures
            final(values).remaining() == old(values).after_next(),
    {
        match values.next() {
            Some(value) => HttpDate::from_val(value),
            None => None,
        }
    }
}

impl From<SystemTime> for HttpDate {
    /// The instant of the system clock, with what is beyond its whole second
    /// dropped.
    fn from(time: SystemTime) -> (date: HttpDate)
        ensures
            date@ == nearest_http_instant(unix_nanos(time) / (SECOND_NANOS as int)),
    {
        HttpDate::from_offset(EpochOffset::of(time))
    }
}

impl FromSpecImpl<SystemTime> for HttpDate {
    open spec fn obeys_from_spec() -> bool {
        true
    }

    open spec fn from_spec(time: SystemTime) -> HttpDate {
        HttpDate::at(nearest_http_instant(unix_nanos(time) / (SECOND_NANOS as int)))
    }
}

impl HttpDate {
    /// The date of an instant of the years 0 to 9999.
    pub closed spec fn at(t: int) -> HttpDate {
        HttpDate { secs: t as i64 }
    }
}

impl PartialOrd for HttpDate {
    /// Dates are ordered as their instants.
    fn partial_cmp(&self, other: &HttpDate) -> (r: Option<Ordering>) {
        if self.secs < other.secs {
            Some(Ordering::Less)
        } else if self.secs > other.secs {
            Some(Ordering::Greater)
        } else {
            Some(Ordering::Equal)
        }
    }
}

impl PartialOrdSpecImpl for HttpDate {
    open spec fn obeys_partial_cmp_spec() -> bool {
        true
    }

    open spec fn partial_cmp_spec(&self, other: &HttpDate) -> Option<Ordering> {
        if self@ < other@ {
            Some(Ordering::Less)
        } else if self@ > other@ {
            Some(Ordering::Greater)
        } else {
            Some(Ordering::Equal)
        }
    }
}

/// A date is its instant: two dates of one instant are the same date, and the
/// date at an instant of the years 0 to 9999 has that instant.
pub proof fn lemma_date_by_instant(a: HttpDate, b: HttpDate, t: int)
    ensures
        a@ == b@ <==> a == b,
        is_http_instant(t) ==> HttpDate::at(t)@ == t,
        HttpDate::at(a@) == a,
{
}

/// Every byte of the fixed-width text of valid fields is one that a header
/// value admits.
proof fn lemma_fixdate_is_value_text(c: DateTime)
    requires
        c.is_valid(),
    ensures
        is_value_text(fixdate_text(c)),
{
    let day_name = weekday_abbrev(c.weekday());
    let month_name = month_abbrev(c.month as int);
    assert(is_value_byte(day_name[0]) && is_value_byte(day_name[1]) && is_value_byte(day_name[2]));
    assert(is_value_byte(month_name[0]) && is_value_byte(month_name[1]) && is_value_byte(
        month_name[2],
    ));
}

/// Every byte of the text of an instant is one that a header value admits.
proof fn lemma_text_is_value_text(t: int)
    requires
        is_http_instant(t),
    ensures
        is_value_text(format_http_date(t)),
{
    lemma_of_instant(t);
    lemma_fixdate_is_value_text(DateTime::of_instant(t));
}

/// Reading the text of an instant gives the instant back, whatever instant of
/// the years 0 to 9999 it is. So writing what was read from a written text
/// gives the same text again.
pub proof fn lemma_parse_format(t: int)
    requires
        is_http_instant(t),
    ensures
        parse_http_date(format_http_date(t)) == Some(t),
        format_http_date(parse_http_date(format_http_date(t)).unwrap()) == format_http_date(t),
{
    lemma_of_instant(t);
    lemma_fixdate_reads_back(DateTime::of_instant(t));
}

/// What a text is read as is an instant of the years 0 to 9999, and the text
/// of that instant reads as the same instant: texts in different forms that
/// read as one instant are written as one text.
pub proof fn lemma_format_parse(text: Seq<u8>)
    requires
        parse_http_date(text) is Some,
    ensures
        is_http_instant(parse_http_date(text).unwrap()),
        parse_http_date(format_http_date(parse_http_date(text).unwrap())) == parse_http_date(text),
{
    let fields = date_fields(text).unwrap();
    lemma_instant_of(fields);
    lemma_parse_format(fields.instant());
}

} // verus!
