//! A duration in whole seconds, written on the wire as a decimal number.

use crate::clock::{duration_nanos, SECOND_NANOS};
use crate::header::TryFromValues;
use crate::util::digits::{
    decimal, digits_value, is_decimal, lemma_decimal_denotes, lemma_decimal_unique, push_decimal,
    read_digits,
};
use crate::util::strings::{chars_of, push_decimal_str};
use crate::value::{as_bytes, from_bytes, value_bytes, Values};
use http::header::HeaderValue;
use std::cmp::Ordering;
use std::time::Duration;
use vstd::prelude::*;
use vstd::std_specs::cmp::PartialOrdSpecImpl;
use vstd::std_specs::convert::FromSpecImpl;

verus! {

/// A duration of a whole number of seconds, at most `u64::MAX` of them.
#[derive(Clone, Copy, PartialEq, Eq, Structural, Ord, Hash, Debug)]
pub struct Seconds(u64);

/// The number of seconds that a text stands for. The text must be the shortest
/// decimal form of a number that fits 64 bits: a sign, a space, a decimal
/// point, a leading zero before another digit and the empty text are refused.
pub open spec fn parse_seconds(text: Seq<u8>) -> Option<nat> {
    if is_decimal(text) && digits_value(text) <= u64::MAX {
        Some(digits_value(text))
    } else {
        None
    }
}

/// The text of a number of seconds: its shortest decimal form.
pub open spec fn format_seconds(secs: nat) -> Seq<u8> {
    decimal(secs)
}

impl View for Seconds {
    type V = nat;

    /// The number of seconds.
    closed spec fn view(&self) -> nat {
        self.0 as nat
    }
}

impl Seconds {
    /// The duration of `n` seconds, for `n` that fits 64 bits.
    pub closed spec fn of(n: nat) -> Seconds {
        Seconds(n as u64)
    }

    /// The duration of `secs` seconds.
    pub fn from_secs(secs: u64) -> (r: Seconds)
        ensures
            r@ == secs,
    {
        Seconds(secs)
    }

    /// Reads a duration from its text.
    pub fn parse(text: &[u8]) -> (r: Option<Seconds>)
        ensures
            r is Some <==> parse_seconds(text@) is Some,
            r matches Some(secs) ==> parse_seconds(text@) == Some(secs@),
    {
        if text.len() == 0 {
            return None;
        }
        if text[0] == 48 && text.len() > 1 {
            return None;
        }
        match read_digits(text) {
            Some(n) => Some(Seconds(n)),
            None => None,
        }
    }

    /// Reads a duration from a raw header value.
    pub fn from_val(val: &HeaderValue) -> (r: Option<Seconds>)
        ensures
            r is Some <==> parse_seconds(value_bytes(*val)) is Some,
            r matches Some(secs) ==> parse_seconds(value_bytes(*val)) == Some(secs@),
    {
        Seconds::parse(as_bytes(val))
    }

    /// The number of seconds.
    pub fn as_u64(&self) -> (secs: u64)
        ensures
            secs == self@,
    {
        self.0
    }

    /// The text of this duration.
    pub fn format(&self) -> (text: Vec<u8>)
        ensures
            text@ == format_seconds(self@),
    {
        let mut text: Vec<u8> = Vec::new();
        push_decimal(self.0, &mut text);
        text
    }

    /// The text of this duration, as a string.
    pub fn to_string(&self) -> (text: String)
        ensures
            text@ == chars_of(format_seconds(self@)),
    {
        let mut text = String::new();
        push_decimal_str(self.0, &mut text);
        text
    }

    /// The raw header value of this duration: one that holds its text.
    pub fn to_value(&self) -> (value: HeaderValue)
        ensures
            value_bytes(value) == format_seconds(self@),
    {
        let text = self.format();
        proof {
            lemma_decimal_denotes(self@);
        }
        match from_bytes(text.as_slice()) {
            Ok(value) => value,
            Err(_) => unreached(),
        }
    }
}

impl TryFromValues for Seconds {
    /// A duration is decoded from the first value alone, read as its text.
    open spec fn decoded(values: Seq<Seq<u8>>) -> Option<nat> {
        if values.len() == 0 {
            None
        } else {
            parse_seconds(values[0])
        }
    }

    /// Takes the next value from the cursor, if there is one, and reads it as
    /// a duration.
    fn try_from_values(values: &mut Values) -> (r: Option<Seconds>)
        ensures
            final(values).remaining() == old(values).after_next(),
    {
        match values.next() {
            Some(value) => Seconds::from_val(value),
            None => None,
        }
    }
}

impl PartialOrd for Seconds {
    /// Durations are ordered by their number of seconds.
    fn partial_cmp(&self, other: &Seconds) -> (r: Option<Ordering>) {
        if self.0 < other.0 {
            Some(Ordering::Less)
        } else if self.0 > other.0 {
            Some(Ordering::Greater)
        } else {
            Some(Ordering::Equal)
        }
    }
}

impl PartialOrdSpecImpl for Seconds {
    open spec fn obeys_partial_cmp_spec() -> bool {
        true
    }

    open spec fn partial_cmp_spec(&self, other: &Seconds) -> Option<Ordering> {
        if self@ < other@ {
            Some(Ordering::Less)
        } else if self@ > other@ {
            Some(Ordering::Greater)
        } else {
            Some(Ordering::Equal)
        }
    }
}

impl From<Duration> for Seconds {
    /// The whole seconds of a duration.
    fn from(d: Duration) -> (secs: Seconds)
        ensures
            secs@ == duration_nanos(d) / (SECOND_NANOS as nat),
    {
        Seconds(d.as_secs())
    }
}

impl FromSpecImpl<Duration> for Seconds {
    open spec fn obeys_from_spec() -> bool {
        true
    }

    open spec fn from_spec(d: Duration) -> Seconds {
        Seconds::of(duration_nanos(d) / (SECOND_NANOS as nat))
    }
}

impl From<Seconds> for Duration {
    /// The duration of that many seconds.
    fn from(secs: Seconds) -> (d: Duration)
        ensures
            duration_nanos(d) == secs@ * SECOND_NANOS,
    {
        Duration::from_secs(secs.0)
    }
}

/// A `Duration` is opaque here, so no one of them can be named as the result:
/// what `from` returns is said in its own contract.
impl FromSpecImpl<Seconds> for Duration {
    open spec fn obeys_from_spec() -> bool {
        false
    }

    open spec fn from_spec(secs: Seconds) -> Duration {
        choose|d: Duration| duration_nanos(d) == secs@ * SECOND_NANOS
    }
}

impl<'a> From<&'a Seconds> for HeaderValue {
    /// The raw header value of a duration.
    fn from(secs: &'a Seconds) -> (value: HeaderValue)
        ensures
            value_bytes(value) == format_seconds(secs@),
    {
        secs.to_value()
    }
}

/// A `HeaderValue` is opaque here, so no one of them can be named as the
/// result: what `from` returns is said in its own contract.
impl<'a> FromSpecImpl<&'a Seconds> for HeaderValue {
    open spec fn obeys_from_spec() -> bool {
        false
    }

    open spec fn from_spec(secs: &'a Seconds) -> HeaderValue {
        choose|value: HeaderValue| value_bytes(value) == format_seconds(secs@)
    }
}

/// A duration is its number of seconds, which fits 64 bits: two durations of
/// the same number are the same duration.
pub proof fn lemma_seconds_by_count(a: Seconds, b: Seconds, n: nat)
    ensures
        a@ <= u64::MAX,
        a@ == b@ <==> a == b,
        Seconds::of(a@) == a,
        n <= u64::MAX ==> Seconds::of(n)@ == n,
{
}

/// Reading the text of a duration gives its number of seconds back.
pub proof fn lemma_parse_format(secs: Seconds)
    ensures
        parse_seconds(format_seconds(secs@)) == Some(secs@),
{
    lemma_decimal_denotes(secs@);
}

/// A text that reads as a duration is the text of that duration: no two texts
/// read as the same duration.
pub proof fn lemma_format_parse(text: Seq<u8>)
    requires
        parse_seconds(text) is Some,
    ensures
        format_seconds(parse_seconds(text).unwrap()) == text,
{
    lemma_decimal_unique(text);
}

} // verus!
