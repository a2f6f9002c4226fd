//! The headers themselves.

pub mod if_modified_since;
