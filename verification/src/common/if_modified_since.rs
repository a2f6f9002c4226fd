//! The `If-Modified-Since` header of a conditional request.

use crate::clock::{unix_nanos, EpochOffset, SECOND_NANOS};
use crate::header::{Header, TryFromValues};
use crate::util::http_date::{
    format_http_date, lemma_date_by_instant, lemma_parse_format, nearest_http_instant,
    parse_http_date, HttpDate,
};
use crate::value::Values;
use http::header::HeaderValue;
use std::cmp::Ordering;
use std::time::SystemTime;
use vstd::prelude::*;
use vstd::std_specs::cmp::PartialOrdSpecImpl;
use vstd::std_specs::convert::FromSpecImpl;

verus! {

/// The `If-Modified-Since` header: the date that a client holds its copy of a
/// resource to be of. The request is to be served in full only if the
/// resource was modified at that date or after it.
///
/// ```text
/// If-Modified-Since = HTTP-date
/// ```
///
/// An example value is `Sat, 29 Oct 1994 19:43:31 GMT`.
#[derive(Clone, Copy, PartialEq, Eq, Structural, Ord, Hash, Debug)]
pub struct IfModifiedSince(HttpDate);

impl View for IfModifiedSince {
    type V = int;

    /// The instant of the date, in seconds from the Unix epoch.
    closed spec fn view(&self) -> int {
        self.0@
    }
}

impl IfModifiedSince {
    /// The header of a date.
    pub closed spec fn of(date: HttpDate) -> IfModifiedSince {
        IfModifiedSince(date)
    }

    /// The header of a date.
    pub fn new(date: HttpDate) -> (header: IfModifiedSince)
        ensures
            header == IfModifiedSince::of(date),
            header@ == date@,
    {
        IfModifiedSince(date)
    }

    /// The date of the header.
    pub fn date(&self) -> (date: HttpDate)
        ensures
            date@ == self@,
            *self == IfModifiedSince::of(date),
    {
        self.0
    }

    /// Whether a resource last modified at `last_modified` counts as modified
    /// for this header: whether that instant is the date of the header or a
    /// later one. A resource modified at the very second of the date counts
    /// as modified.
    pub fn is_modified(&self, last_modified: SystemTime) -> (modified: bool)
        ensures
            modified == (unix_nanos(last_modified) >= self@ * SECOND_NANOS),
    {
        self.is_modified_at(EpochOffset::of(last_modified))
    }

    /// Whether a resource last modified at the instant of `last_modified`
    /// counts as modified for this header: whether that instant is the date
    /// of the header or a later one.
    pub fn is_modified_at(&self, last_modified: EpochOffset) -> (modified: bool)
        ensures
            modified == (last_modified.nanos() >= self@ * SECOND_NANOS),
    {
        self.0.is_reached_by(last_modified)
    }

    /// The date of the header on the system clock, or `None` where the clock
    /// of this platform cannot hold it.
    pub fn to_system_time(&self) -> (r: Option<SystemTime>)
        ensures
            r matches Some(t) ==> unix_nanos(t) == self@ * SECOND_NANOS,
    {
        self.0.to_system_time()
    }
}

impl Header for IfModifiedSince {
    /// The header is decoded from the first value alone, read as a date.
    open spec fn decoded(values: Seq<Seq<u8>>) -> Option<int> {
        if values.len() == 0 {
            None
        } else {
            parse_http_date(values[0])
        }
    }

    /// The header is encoded as one value, the text of its date.
    open spec fn encoded(header: int) -> Seq<Seq<u8>> {
        seq![format_http_date(header)]
    }

    /// The field name, `if-modified-since`.
    fn name() -> (name: &'static str)
        ensures
            name@ == "if-modified-since"@,
    {
        "if-modified-since"
    }

    /// Takes the next value from the cursor, if there is one, and reads it as
    /// a date.
    fn decode(values: &mut Values) -> (r: Option<IfModifiedSince>)
        ensures
            final(values).remaining() == old(values).after_next(),
    {
        match HttpDate::try_from_values(values) {
            Some(date) => Some(IfModifiedSince(date)),
            None => None,
        }
    }

    /// Appends the text of the date, as one value.
    fn encode(&self, sink: &mut Vec<HeaderValue>)
        ensures
            final(sink)@.len() == old(sink)@.len() + 1,
    {
        let value = self.0.to_value();
        sink.push(value);
        proof {
            lemma_parse_format(self@);
        }
    }
}

impl From<SystemTime> for IfModifiedSince {
    /// The header of an instant of the system clock, with what is beyond its
    /// whole second dropped.
    fn from(time: SystemTime) -> (header: IfModifiedSince)
        ensures
            header@ == nearest_http_instant(unix_nanos(time) / (SECOND_NANOS as int)),
    {
        IfModifiedSince(HttpDate::from(time))
    }
}

impl FromSpecImpl<SystemTime> for IfModifiedSince {
    open spec fn obeys_from_spec() -> bool {
        true
    }

    open spec fn from_spec(time: SystemTime) -> IfModifiedSince {
        IfModifiedSince::of(
            HttpDate::at(nearest_http_instant(unix_nanos(time) / (SECOND_NANOS as int))),
        )
    }
}

impl PartialOrd for IfModifiedSince {
    /// Headers are ordered as their dates.
    fn partial_cmp(&self, other: &IfModifiedSince) -> (r: Option<Ordering>) {
        self.0.partial_cmp(&other.0)
    }
}

impl PartialOrdSpecImpl for IfModifiedSince {
    open spec fn obeys_partial_cmp_spec() -> bool {
        true
    }

    open spec fn partial_cmp_spec(&self, other: &IfModifiedSince) -> Option<Ordering> {
        if self@ < other@ {
            Some(Ordering::Less)
        } else if self@ > other@ {
            Some(Ordering::Greater)
        } else {
            Some(Ordering::Equal)
        }
    }
}

/// A header is its date: two headers of one instant are the same header.
pub proof fn lemma_header_by_instant(a: IfModifiedSince, b: IfModifiedSince, date: HttpDate)
    ensures
        a@ == b@ <==> a == b,
        IfModifiedSince::of(date)@ == date@,
{
    lemma_date_by_instant(a.0, b.0, 0);
}

} // verus!
