//! Small helpers: a byte cursor, bit fields, text, and unique names.

pub mod bits;
pub mod cur;
pub mod strings;
pub mod fmt;
pub mod namers;
