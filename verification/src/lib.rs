//! Hand-written field codecs for wire formats that carry structured values
//! inside a single scalar: a composite name as one space-delimited string,
//! and a timezone-naive timestamp as a signed count of epoch milliseconds.
//!
//! Both codecs are pure value transformations: every decoder returns a typed
//! error on malformed input and never panics.

pub mod error;
pub mod name;
pub mod timestamp;
