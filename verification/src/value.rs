//! Raw header field values, as the `http` crate holds them, and the cursor
//! that hands them to a decoder.

use http::header::HeaderValue;
use http::header::InvalidHeaderValue;
use vstd::prelude::*;

verus! {

/// `http::header::HeaderValue`, carried through as an opaque value.
#[verifier::external_type_specification]
#[verifier::external_body]
pub struct ExHeaderValue(HeaderValue);

/// `http::header::InvalidHeaderValue`, the error of building a header value
/// from bytes that it does not admit.
#[verifier::external_type_specification]
#[verifier::external_body]
pub struct ExInvalidHeaderValue(InvalidHeaderValue);

/// The bytes that a header value holds, in wire order: what
/// `HeaderValue::as_bytes` hands out.
pub uninterp spec fn value_bytes(value: HeaderValue) -> Seq<u8>;

/// Whether `http` admits the byte in a header value: anything from the space
/// up, but for DEL, and the horizontal tab.
pub open spec fn is_value_byte(b: u8) -> bool {
    (b >= 32 && b != 127) || b == 9
}

/// Whether `http` admits every byte of `bytes` in a header value.
pub open spec fn is_value_text(bytes: Seq<u8>) -> bool {
    forall|i: int| 0 <= i < bytes.len() ==> is_value_byte(#[trigger] bytes[i])
}

/// The bytes of each value of a sequence, in the same order.
pub open spec fn values_bytes(values: Seq<HeaderValue>) -> Seq<Seq<u8>> {
    values.map_values(|v: HeaderValue| value_bytes(v))
}

/// `HeaderValue::as_bytes`: the bytes of the value, borrowed from it.
#[verifier::external_body]
pub(crate) fn as_bytes(value: &HeaderValue) -> (bytes: &[u8])
    ensures
        bytes@ == value_bytes(*value),
{
    value.as_bytes()
}

/// `HeaderValue::from_bytes`: a value that holds a copy of `bytes` if `http`
/// admits each of them, and its error otherwise.
#[verifier::external_body]
pub(crate) fn from_bytes(bytes: &[u8]) -> (r: Result<HeaderValue, InvalidHeaderValue>)
    ensures
        r is Ok <==> is_value_text(bytes@),
        r matches Ok(value) ==> value_bytes(value) == bytes@,
{
    HeaderValue::from_bytes(bytes)
}

/// A forward-only cursor over the values of one header name, in wire order.
///
/// A value that was handed out is gone from the cursor: a second pass takes a
/// new cursor.
pub struct Values<'a> {
    items: &'a [HeaderValue],
    position: usize,
}

impl<'a> Values<'a> {
    #[verifier::type_invariant]
    spec fn within_items(self) -> bool {
        self.position <= self.items@.len()
    }

    /// The values not yet handed out, in wire order.
    pub closed spec fn remaining(self) -> Seq<HeaderValue> {
        self.items@.skip(self.position as int)
    }

    /// The values that are left once the next one, if there is one, has been
    /// handed out.
    pub open spec fn after_next(self) -> Seq<HeaderValue> {
        if self.remaining().len() == 0 {
            self.remaining()
        } else {
            self.remaining().skip(1)
        }
    }

    /// A cursor that will hand out each of `items`, first to last.
    pub fn new(items: &'a [HeaderValue]) -> (values: Values<'a>)
        ensures
            values.remaining() == items@,
    {
        Values { items, position: 0 }
    }

    /// How many values are left.
    pub fn len(&self) -> (n: usize)
        ensures
            n == self.remaining().len(),
    {
        proof {
            use_type_invariant(self);
        }
        self.items.len() - self.position
    }

    /// Whether no value is left.
    pub fn is_empty(&self) -> (b: bool)
        ensures
            b == (self.remaining().len() == 0),
    {
        self.len() == 0
    }

    /// Hands out the next value, if one is left.
    pub fn next(&mut self) -> (r: Option<&'a HeaderValue>)
        ensures
            old(self).remaining().len() == 0 ==> r is None,
            old(self).remaining().len() > 0 ==> r == Some(&old(self).remaining()[0]),
            final(self).remaining() == old(self).after_next(),
    {
        proof {
            use_type_invariant(&*self);
        }
        if self.position < self.items.len() {
            let value = &self.items[self.position];
            self.position = self.position + 1;
            Some(value)
        } else {
            None
        }
    }
}

} // verus!
