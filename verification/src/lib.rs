//! Provides iteration by `char` over `&[u16]` containing potentially-invalid
//! UTF-16 such that errors are replaced with the REPLACEMENT CHARACTER.
//!
//! The trait `Utf16CharsEx` provides the convenience method `chars()` on
//! `u16` slices themselves instead of having to use the more verbose
//! `Utf16Chars::new(slice)`.
//!
//! `model` states what decoding means; `laws` proves what holds of it.

mod basic;
mod handler;
pub mod helpers;
mod indices;
pub mod laws;
pub mod model;
mod report;

pub use crate::basic::Utf16CharIndices;
pub use crate::basic::Utf16Chars;
pub use crate::basic::Utf16CharsEx;
pub use crate::handler::is_unit_output;
pub use crate::handler::Utf16CharsWithHandler;
pub use crate::handler::Utf16Handler;
pub use crate::indices::Utf16CharIndicesWithHandler;
pub use crate::report::unit_result;
pub use crate::report::ErrorReportingUtf16CharIndices;
pub use crate::report::ErrorReportingUtf16Chars;
pub use crate::report::Utf16CharsError;
