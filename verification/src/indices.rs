//! The decoding iterator that also yields the code unit index at which each
//! decoded piece starts.

use vstd::prelude::*;
use crate::handler::{is_unit_output, Utf16CharsWithHandler, Utf16Handler};
use crate::model::{
    decode, first_unit, last_unit, rest_after_first, rest_before_last, unit_len,
};

verus! {

/// Iterator by `(index, output)` over `&[u16]` that contains
/// potentially-invalid UTF-16; `index` is the position, in the original
/// slice, of the first code unit of the decoded piece.
#[derive(Debug, Clone)]
pub struct Utf16CharIndicesWithHandler<'a, H> where H: Utf16Handler {
    front_offset: usize,
    iter: Utf16CharsWithHandler<'a, H>,
}

impl<'a, H> View for Utf16CharIndicesWithHandler<'a, H> where H: Utf16Handler {
    type V = Seq<u16>;

    /// The code units not yet consumed from either end.
    closed spec fn view(&self) -> Seq<u16> {
        self.iter@
    }
}

impl<'a, H> Utf16CharIndicesWithHandler<'a, H> where H: Utf16Handler {
    /// The front index plus what remains fits in a `usize`: both count code
    /// units of one slice.
    pub closed spec fn wf(&self) -> bool {
        self.front_offset + self.iter@.len() <= usize::MAX
    }

    /// The index in the original slice of the first code unit not yet
    /// consumed from the front.
    pub closed spec fn front(&self) -> nat {
        self.front_offset as nat
    }

    /// The handler that maps decoded pieces to output.
    pub closed spec fn handler_spec(&self) -> H {
        self.iter.handler_spec()
    }

    /// Creates the iterator from a `u16` slice.
    pub fn new(code_units: &'a [u16], handler: H) -> (r: Self)
        ensures
            r.wf(),
            r@ == code_units@,
            r.front() == 0,
            r.handler_spec() == handler,
    {
        assert(code_units@.len() == code_units.len());
        Utf16CharIndicesWithHandler { front_offset: 0, iter: Utf16CharsWithHandler::new(code_units, handler) }
    }

    /// Views the current remaining data in the iterator as a subslice of
    /// the original slice.
    pub fn as_slice(&self) -> (r: &'a [u16])
        ensures
            r@ == self@,
    {
        self.iter.as_slice()
    }

    /// The index in the original slice of the next code unit from the front.
    pub fn offset(&self) -> (r: usize)
        ensures
            r == self.front(),
    {
        self.front_offset
    }

    /// Takes the next piece off the front; yields its starting index and
    /// the handler's output for it, or `None`, with nothing changed, once
    /// nothing remains.
    pub fn next(&mut self) -> (r: Option<(usize, H::Output)>)
        requires
            old(self).wf(),
        ensures
            final(self).wf(),
            final(self).handler_spec() == old(self).handler_spec(),
            old(self)@.len() == 0 ==> {
                &&& r is None
                &&& final(self)@ == old(self)@
                &&& final(self).front() == old(self).front()
            },
            old(self)@.len() > 0 ==> {
                &&& r matches Some((i, o)) && i == old(self).front() && is_unit_output(
                    &old(self).handler_spec(),
                    first_unit(old(self)@),
                    o,
                )
                &&& final(self)@ == rest_after_first(old(self)@)
                &&& final(self).front() == old(self).front() + unit_len(first_unit(old(self)@))
                &&& decode(old(self)@) == seq![first_unit(old(self)@)] + decode(final(self)@)
            },
    {
        let pre_len = self.iter.as_slice().len();
        match self.iter.next() {
            None => None,
            Some(ch) => {
                let index = self.front_offset;
                let len = self.iter.as_slice().len();
                self.front_offset = self.front_offset + (pre_len - len);
                Some((index, ch))
            },
        }
    }

    /// Takes the next piece off the back; yields its starting index and
    /// the handler's output for it, or `None`, with nothing changed, once
    /// nothing remains.
    pub fn next_back(&mut self) -> (r: Option<(usize, H::Output)>)
        requires
            old(self).wf(),
        ensures
            final(self).wf(),
            final(self).handler_spec() == old(self).handler_spec(),
            final(self).front() == old(self).front(),
            old(self)@.len() == 0 ==> r is None && final(self)@ == old(self)@,
            old(self)@.len() > 0 ==> {
                &&& r matches Some((i, o)) && i == old(self).front() + final(self)@.len()
                    && is_unit_output(&old(self).handler_spec(), last_unit(old(self)@), o)
                &&& final(self)@ == rest_before_last(old(self)@)
                &&& decode(old(self)@) == decode(final(self)@).push(last_unit(old(self)@))
            },
    {
        match self.iter.next_back() {
            None => None,
            Some(ch) => {
                let index = self.front_offset + self.iter.as_slice().len();
                Some((index, ch))
            },
        }
    }
}

} // verus!
