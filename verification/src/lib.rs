//! Typed HTTP header values: decoding raw header field values into validated
//! values, and encoding them back in one canonical wire form.
//!
//! A header is decoded from the raw values that a [`Values`] cursor hands out
//! and encoded as raw values appended to a sink; [`Header`] is what every
//! typed header offers. [`HttpDate`] and [`Seconds`] are the two value types
//! that headers are built from, and [`IfModifiedSince`] is a header built on
//! the first.

pub mod clock;
pub mod common;
pub mod header;
pub mod util;
pub mod value;

pub use crate::clock::EpochOffset;
pub use crate::common::if_modified_since::IfModifiedSince;
pub use crate::header::{Header, TryFromValues};
pub use crate::util::civil::DateTime;
pub use crate::util::http_date::HttpDate;
pub use crate::util::seconds::Seconds;
pub use crate::value::Values;
