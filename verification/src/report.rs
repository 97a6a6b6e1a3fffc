//! Decoding to `Result<char, Utf16CharsError>`, with each unpaired
//! surrogate reported as an error.

use vstd::prelude::*;
use crate::handler::{is_unit_output, Utf16CharsWithHandler, Utf16Handler};
use crate::helpers::{bmp_to_char, pair_scalar, surrogate_pair_to_char};
use crate::indices::Utf16CharIndicesWithHandler;
use crate::model::{
    decode, first_unit, last_unit, rest_after_first, rest_before_last, unit_char, unit_len,
    DecodedUnit,
};

verus! {

/// A type for signaling UTF-16 errors.
///
/// The value of the unpaired surrogate is not exposed in order to keep the
/// `Result` type (and `Option`-wrapping thereof) the same size as `char`.
#[derive(Debug, PartialEq)]
#[non_exhaustive]
pub struct Utf16CharsError;

impl Utf16CharsError {
    /// The message that describes the error.
    pub fn to_string(&self) -> (r: String)
        ensures
            r@ == "unpaired surrogate"@,
    {
        "unpaired surrogate".to_owned()
    }
}

/// What a decoded piece is reported as: its `char`, or an error for an
/// unpaired surrogate.
pub open spec fn unit_result(u: DecodedUnit) -> Result<char, Utf16CharsError> {
    match u {
        DecodedUnit::Unpaired(_) => Err(Utf16CharsError),
        _ => Ok(unit_char(u)),
    }
}

/// The `Output = Result<char, Utf16CharsError>` case.
#[derive(Debug, Clone)]
pub(crate) struct ErrorReportingHandler;

impl ErrorReportingHandler {
    pub(crate) fn new() -> Self {
        ErrorReportingHandler {  }
    }
}

impl Utf16Handler for ErrorReportingHandler {
    type Output = Result<char, Utf16CharsError>;

    open spec fn bmp_output(&self, bmp: u16) -> Result<char, Utf16CharsError> {
        Ok((bmp as u32) as char)
    }

    open spec fn surrogate_pair_output(&self, high_surrogate: u16, low_surrogate: u16) -> Result<
        char,
        Utf16CharsError,
    > {
        Ok((pair_scalar(high_surrogate, low_surrogate) as u32) as char)
    }

    fn bmp(&self, bmp: u16) -> (r: Result<char, Utf16CharsError>) {
        Ok(bmp_to_char(bmp))
    }

    fn surrogate_pair(&self, high_surrogate: u16, low_surrogate: u16) -> (r: Result<
        char,
        Utf16CharsError,
    >) {
        Ok(surrogate_pair_to_char(high_surrogate, low_surrogate))
    }

    fn error(&self) -> (r: Result<char, Utf16CharsError>)
        ensures
            r == Err::<char, Utf16CharsError>(Utf16CharsError),
    {
        Err(Utf16CharsError)
    }
}

/// The error-reporting handler maps each decoded piece to its result.
proof fn lemma_error_reporting_output(h: ErrorReportingHandler, u: DecodedUnit, o: Result<char, Utf16CharsError>)
    requires
        is_unit_output(&h, u, o),
    ensures
        o == unit_result(u),
{
}

/// Iterator by `Result<char, Utf16CharsError>` over `&[u16]` that contains
/// potentially-invalid UTF-16. There is exactly one `Utf16CharsError` per
/// each unpaired surrogate.
#[derive(Debug, Clone)]
pub struct ErrorReportingUtf16Chars<'a>(Utf16CharsWithHandler<'a, ErrorReportingHandler>);

impl<'a> View for ErrorReportingUtf16Chars<'a> {
    type V = Seq<u16>;

    /// The code units not yet consumed from either end.
    closed spec fn view(&self) -> Seq<u16> {
        self.0@
    }
}

impl<'a> ErrorReportingUtf16Chars<'a> {
    /// Creates the iterator from a `u16` slice.
    pub fn new(code_units: &'a [u16]) -> (r: Self)
        ensures
            r@ == code_units@,
    {
        ErrorReportingUtf16Chars(Utf16CharsWithHandler::new(code_units, ErrorReportingHandler::new()))
    }

    /// Views the current remaining data in the iterator as a subslice of
    /// the original slice.
    pub fn as_slice(&self) -> (r: &'a [u16])
        ensures
            r@ == self@,
    {
        self.0.as_slice()
    }

    /// The next result from the front, or `None`, with nothing changed,
    /// once nothing remains.
    pub fn next(&mut self) -> (r: Option<Result<char, Utf16CharsError>>)
        ensures
            old(self)@.len() == 0 ==> r is None && final(self)@ == old(self)@,
            old(self)@.len() > 0 ==> {
                &&& r == Some(unit_result(first_unit(old(self)@)))
                &&& final(self)@ == rest_after_first(old(self)@)
                &&& decode(old(self)@) == seq![first_unit(old(self)@)] + decode(final(self)@)
            },
    {
        let r = self.0.next();
        proof {
            if old(self)@.len() > 0 {
                lemma_error_reporting_output(old(self).0.handler_spec(), first_unit(old(self)@), r->0);
            }
        }
        r
    }

    /// The next result from the back, or `None`, with nothing changed,
    /// once nothing remains.
    pub fn next_back(&mut self) -> (r: Option<Result<char, Utf16CharsError>>)
        ensures
            old(self)@.len() == 0 ==> r is None && final(self)@ == old(self)@,
            old(self)@.len() > 0 ==> {
                &&& r == Some(unit_result(last_unit(old(self)@)))
                &&& final(self)@ == rest_before_last(old(self)@)
                &&& decode(old(self)@) == decode(final(self)@).push(last_unit(old(self)@))
            },
    {
        let r = self.0.next_back();
        proof {
            if old(self)@.len() > 0 {
                lemma_error_reporting_output(old(self).0.handler_spec(), last_unit(old(self)@), r->0);
            }
        }
        r
    }
}

/// Iterator by `Result<char, Utf16CharsError>` and their indices over
/// `&[u16]` that contains potentially-invalid UTF-16. There is exactly one
/// `Utf16CharsError` per each unpaired surrogate.
#[derive(Debug, Clone)]
pub struct ErrorReportingUtf16CharIndices<'a>(Utf16CharIndicesWithHandler<'a, ErrorReportingHandler>);

impl<'a> View for ErrorReportingUtf16CharIndices<'a> {
    type V = Seq<u16>;

    /// The code units not yet consumed from either end.
    closed spec fn view(&self) -> Seq<u16> {
        self.0@
    }
}

impl<'a> ErrorReportingUtf16CharIndices<'a> {
    /// The front index plus what remains fits in a `usize`.
    pub closed spec fn wf(&self) -> bool {
        self.0.wf()
    }

    /// The index in the original slice of the first code unit not yet
    /// consumed from the front.
    pub closed spec fn front(&self) -> nat {
        self.0.front()
    }

    /// Creates the iterator from a `u16` slice.
    pub fn new(code_units: &'a [u16]) -> (r: Self)
        ensures
            r.wf(),
            r@ == code_units@,
            r.front() == 0,
    {
        ErrorReportingUtf16CharIndices(Utf16CharIndicesWithHandler::new(code_units, ErrorReportingHandler::new()))
    }

    /// Views the current remaining data in the iterator as a subslice of
    /// the original slice.
    pub fn as_slice(&self) -> (r: &'a [u16])
        ensures
            r@ == self@,
    {
        self.0.as_slice()
    }

    /// The index in the original slice of the next code unit from the front.
    pub fn offset(&self) -> (r: usize)
        ensures
            r == self.front(),
    {
        self.0.offset()
    }

    /// The next result from the front with the index at which it starts, or
    /// `None`, with nothing changed, once nothing remains.
    pub fn next(&mut self) -> (r: Option<(usize, Result<char, Utf16CharsError>)>)
        requires
            old(self).wf(),
        ensures
            final(self).wf(),
            old(self)@.len() == 0 ==> {
                &&& r is None
                &&& final(self)@ == old(self)@
                &&& final(self).front() == old(self).front()
            },
            old(self)@.len() > 0 ==> {
                &&& r == Some((old(self).front() as usize, unit_result(first_unit(old(self)@))))
                &&& final(self)@ == rest_after_first(old(self)@)
                &&& final(self).front() == old(self).front() + unit_len(first_unit(old(self)@))
                &&& decode(old(self)@) == seq![first_unit(old(self)@)] + decode(final(self)@)
            },
    {
        let r = self.0.next();
        proof {
            if old(self)@.len() > 0 {
                lemma_error_reporting_output(old(self).0.handler_spec(), first_unit(old(self)@), (r->0).1);
            }
        }
        r
    }

    /// The next result from the back with the index at which it starts, or
    /// `None`, with nothing changed, once nothing remains.
    pub fn next_back(&mut self) -> (r: Option<(usize, Result<char, Utf16CharsError>)>)
        requires
            old(self).wf(),
        ensures
            final(self).wf(),
            final(self).front() == old(self).front(),
            old(self)@.len() == 0 ==> r is None && final(self)@ == old(self)@,
            old(self)@.len() > 0 ==> {
                &&& r == Some(
                    ((old(self).front() + final(self)@.len()) as usize, unit_result(last_unit(old(self)@))),
                )
                &&& final(self)@ == rest_before_last(old(self)@)
                &&& decode(old(self)@) == decode(final(self)@).push(last_unit(old(self)@))
            },
    {
        let r = self.0.next_back();
        proof {
            if old(self)@.len() > 0 {
                lemma_error_reporting_output(old(self).0.handler_spec(), last_unit(old(self)@), (r->0).1);
            }
        }
        r
    }
}

} // verus!
