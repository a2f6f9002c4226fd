//! What every typed header does: it is decoded from the raw values of a
//! cursor, and encoded as raw values appended to a sink.

use crate::value::{values_bytes, Values};
use http::header::HeaderValue;
use vstd::prelude::*;

verus! {

/// A value that is decoded from the raw values of one header name.
pub trait TryFromValues: Sized + View {
    /// What a run of raw values, each given by its bytes, is decoded as:
    /// `None` where too few values are there, or where they are refused.
    spec fn decoded(values: Seq<Seq<u8>>) -> Option<Self::V>;

    /// Decodes a value from the values that the cursor still holds. The
    /// cursor only moves forward, and nothing comes of a cursor that holds
    /// nothing.
    fn try_from_values(values: &mut Values) -> (r: Option<Self>)
        ensures
            old(values).remaining().len() == 0 ==> r is None,
            r is Some <==> Self::decoded(values_bytes(old(values).remaining())) is Some,
            r matches Some(x) ==> Self::decoded(values_bytes(old(values).remaining()))
                == Some(x@),
            final(values).remaining().is_suffix_of(old(values).remaining()),
    ;
}

/// A typed header: a value with a field name, decoded from raw values and
/// encoded as raw values, such that what was encoded decodes to the same
/// header.
pub trait Header: Sized + View {
    /// What a run of raw values, each given by its bytes, is decoded as:
    /// `None` where too few values are there, or where they are refused.
    spec fn decoded(values: Seq<Seq<u8>>) -> Option<Self::V>;

    /// The raw values, each given by its bytes, that a header is encoded as.
    spec fn encoded(header: Self::V) -> Seq<Seq<u8>>;

    /// The field name of the header, in lower case.
    fn name() -> (name: &'static str);

    /// Decodes a header from the values that the cursor still holds. The
    /// cursor only moves forward, and nothing comes of a cursor that holds
    /// nothing.
    fn decode(values: &mut Values) -> (r: Option<Self>)
        ensures
            old(values).remaining().len() == 0 ==> r is None,
            r is Some <==> Self::decoded(values_bytes(old(values).remaining())) is Some,
            r matches Some(x) ==> Self::decoded(values_bytes(old(values).remaining()))
                == Some(x@),
            final(values).remaining().is_suffix_of(old(values).remaining()),
    ;

    /// Appends the raw values of this header to `sink`: at least one, always
    /// the same ones, and such that they decode to this header.
    fn encode(&self, sink: &mut Vec<HeaderValue>)
        ensures
            final(sink)@.len() > old(sink)@.len(),
            final(sink)@.subrange(0, old(sink)@.len() as int) == old(sink)@,
            values_bytes(final(sink)@.subrange(old(sink)@.len() as int, final(sink)@.len() as int))
                == Self::encoded(self@),
            Self::decoded(Self::encoded(self@)) == Some(self@),
    ;
}

} // verus!
