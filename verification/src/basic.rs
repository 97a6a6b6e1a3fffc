//! Decoding to `char`, with each unpaired surrogate replaced by the
//! REPLACEMENT CHARACTER.

use vstd::prelude::*;
use crate::handler::{is_unit_output, Utf16CharsWithHandler, Utf16Handler};
use crate::helpers::{bmp_to_char, pair_scalar, surrogate_pair_to_char};
use crate::indices::Utf16CharIndicesWithHandler;
use crate::model::{
    decode, first_unit, last_unit, rest_after_first, rest_before_last, unit_char, unit_len,
    DecodedUnit,
};

verus! {

/// The basic `Output = char` case.
#[derive(Debug, Clone)]
pub(crate) struct DefaultHandler;

impl DefaultHandler {
    pub(crate) fn new() -> Self {
        DefaultHandler {  }
    }
}

impl Utf16Handler for DefaultHandler {
    type Output = char;

    open spec fn bmp_output(&self, bmp: u16) -> char {
        (bmp as u32) as char
    }

    open spec fn surrogate_pair_output(&self, high_surrogate: u16, low_surrogate: u16) -> char {
        (pair_scalar(high_surrogate, low_surrogate) as u32) as char
    }

    fn bmp(&self, bmp: u16) -> (r: char) {
        bmp_to_char(bmp)
    }

    fn surrogate_pair(&self, high_surrogate: u16, low_surrogate: u16) -> (r: char) {
        surrogate_pair_to_char(high_surrogate, low_surrogate)
    }
}

/// The default handler maps each decoded piece to its `char`.
proof fn lemma_default_output(h: DefaultHandler, u: DecodedUnit, o: char)
    requires
        is_unit_output(&h, u, o),
    ensures
        o == unit_char(u),
{
}

/// Iterator by `char` over `&[u16]` that contains potentially-invalid
/// UTF-16. See the crate documentation.
#[derive(Debug, Clone)]
pub struct Utf16Chars<'a>(Utf16CharsWithHandler<'a, DefaultHandler>);

impl<'a> View for Utf16Chars<'a> {
    type V = Seq<u16>;

    /// The code units not yet consumed from either end.
    closed spec fn view(&self) -> Seq<u16> {
        self.0@
    }
}

impl<'a> Utf16Chars<'a> {
    /// Creates the iterator from a `u16` slice.
    pub fn new(code_units: &'a [u16]) -> (r: Self)
        ensures
            r@ == code_units@,
    {
        Utf16Chars(Utf16CharsWithHandler::new(code_units, DefaultHandler::new()))
    }

    /// Views the current remaining data in the iterator as a subslice of
    /// the original slice.
    pub fn as_slice(&self) -> (r: &'a [u16])
        ensures
            r@ == self@,
    {
        self.0.as_slice()
    }

    /// The next `char` from the front, or `None`, with nothing changed,
    /// once nothing remains.
    pub fn next(&mut self) -> (r: Option<char>)
        ensures
            old(self)@.len() == 0 ==> r is None && final(self)@ == old(self)@,
            old(self)@.len() > 0 ==> {
                &&& r == Some(unit_char(first_unit(old(self)@)))
                &&& final(self)@ == rest_after_first(old(self)@)
                &&& decode(old(self)@) == seq![first_unit(old(self)@)] + decode(final(self)@)
            },
    {
        let r = self.0.next();
        proof {
            if old(self)@.len() > 0 {
                lemma_default_output(old(self).0.handler_spec(), first_unit(old(self)@), r->0);
            }
        }
        r
    }

    /// The next `char` from the back, or `None`, with nothing changed,
    /// once nothing remains.
    pub fn next_back(&mut self) -> (r: Option<char>)
        ensures
            old(self)@.len() == 0 ==> r is None && final(self)@ == old(self)@,
            old(self)@.len() > 0 ==> {
                &&& r == Some(unit_char(last_unit(old(self)@)))
                &&& final(self)@ == rest_before_last(old(self)@)
                &&& decode(old(self)@) == decode(final(self)@).push(last_unit(old(self)@))
            },
    {
        let r = self.0.next_back();
        proof {
            if old(self)@.len() > 0 {
                lemma_default_output(old(self).0.handler_spec(), last_unit(old(self)@), r->0);
            }
        }
        r
    }
}

/// Iterator by `char` and their indices over `&[u16]` that contains
/// potentially-invalid UTF-16. See the crate documentation.
#[derive(Debug, Clone)]
pub struct Utf16CharIndices<'a>(Utf16CharIndicesWithHandler<'a, DefaultHandler>);

impl<'a> View for Utf16CharIndices<'a> {
    type V = Seq<u16>;

    /// The code units not yet consumed from either end.
    closed spec fn view(&self) -> Seq<u16> {
        self.0@
    }
}

impl<'a> Utf16CharIndices<'a> {
    /// The front index plus what remains fits in a `usize`.
    pub closed spec fn wf(&self) -> bool {
        self.0.wf()
    }

    /// The index in the original slice of the first code unit not yet
    /// consumed from the front.
    pub closed spec fn front(&self) -> nat {
        self.0.front()
    }

    /// Creates the iterator from a `u16` slice.
    pub fn new(code_units: &'a [u16]) -> (r: Self)
        ensures
            r.wf(),
            r@ == code_units@,
            r.front() == 0,
    {
        Utf16CharIndices(Utf16CharIndicesWithHandler::new(code_units, DefaultHandler::new()))
    }

    /// Views the current remaining data in the iterator as a subslice of
    /// the original slice.
    pub fn as_slice(&self) -> (r: &'a [u16])
        ensures
            r@ == self@,
    {
        self.0.as_slice()
    }

    /// The index in the original slice of the next code unit from the front.
    pub fn offset(&self) -> (r: usize)
        ensures
            r == self.front(),
    {
        self.0.offset()
    }

    /// The next `char` from the front with the index at which it starts, or
    /// `None`, with nothing changed, once nothing remains.
    pub fn next(&mut self) -> (r: Option<(usize, char)>)
        requires
            old(self).wf(),
        ensures
            final(self).wf(),
            old(self)@.len() == 0 ==> {
                &&& r is None
                &&& final(self)@ == old(self)@
                &&& final(self).front() == old(self).front()
            },
            old(self)@.len() > 0 ==> {
                &&& r == Some((old(self).front() as usize, unit_char(first_unit(old(self)@))))
                &&& final(self)@ == rest_after_first(old(self)@)
                &&& final(self).front() == old(self).front() + unit_len(first_unit(old(self)@))
                &&& decode(old(self)@) == seq![first_unit(old(self)@)] + decode(final(self)@)
            },
    {
        let r = self.0.next();
        proof {
            if old(self)@.len() > 0 {
                lemma_default_output(old(self).0.handler_spec(), first_unit(old(self)@), (r->0).1);
            }
        }
        r
    }

    /// The next `char` from the back with the index at which it starts, or
    /// `None`, with nothing changed, once nothing remains.
    pub fn next_back(&mut self) -> (r: Option<(usize, char)>)
        requires
            old(self).wf(),
        ensures
            final(self).wf(),
            final(self).front() == old(self).front(),
            old(self)@.len() == 0 ==> r is None && final(self)@ == old(self)@,
            old(self)@.len() > 0 ==> {
                &&& r == Some(
                    ((old(self).front() + final(self)@.len()) as usize, unit_char(last_unit(old(self)@))),
                )
                &&& final(self)@ == rest_before_last(old(self)@)
                &&& decode(old(self)@) == decode(final(self)@).push(last_unit(old(self)@))
            },
    {
        let r = self.0.next_back();
        proof {
            if old(self)@.len() > 0 {
                lemma_default_output(old(self).0.handler_spec(), last_unit(old(self)@), (r->0).1);
            }
        }
        r
    }
}

/// Convenience trait that adds `chars()` and `char_indices()` methods
/// similar to the ones on string slices to `u16` slices.
pub trait Utf16CharsEx {
    fn chars(&self) -> Utf16Chars<'_>;

    fn char_indices(&self) -> Utf16CharIndices<'_>;
}

impl Utf16CharsEx for [u16] {
    /// Convenience method for creating an UTF-16 iterator for the slice.
    fn chars(&self) -> (r: Utf16Chars<'_>)
        ensures
            r@ == self@,
    {
        Utf16Chars::new(self)
    }

    /// Convenience method for creating a code unit index and UTF-16
    /// iterator for the slice.
    fn char_indices(&self) -> (r: Utf16CharIndices<'_>)
        ensures
            r.wf(),
            r@ == self@,
            r.front() == 0,
    {
        Utf16CharIndices::new(self)
    }
}

} // verus!
