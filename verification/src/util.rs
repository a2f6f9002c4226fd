//! Value types that several headers share, and what they are built from.

pub mod calendar;
pub mod civil;
pub mod date_text;
pub mod digits;
pub mod http_date;
pub mod seconds;
pub mod strings;
