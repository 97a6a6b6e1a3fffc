//! The decoding iterator, generic over how each decoded piece is mapped to
//! output.

use vstd::prelude::*;
use crate::helpers::{
    is_high_surrogate, is_low_surrogate, is_surrogate, spec_is_high_surrogate,
    spec_is_low_surrogate, spec_is_surrogate,
};
use crate::model::{
    decode, first_unit, last_unit, lemma_decode_back, lemma_decode_front, rest_after_first,
    rest_before_last, DecodedUnit,
};

verus! {

/// Mapping from the two kinds of code unit sequences or error to output.
pub trait Utf16Handler {
    /// The per-scalar-value output type. (In the common case, this is `char`.)
    type Output;

    /// What `bmp` returns for a non-surrogate code unit. The default is one
    /// fixed value of `Output` for every code unit, which a verified handler
    /// can meet only if its `bmp` always returns that value; a handler whose
    /// output depends on the code unit states its own.
    open spec fn bmp_output(&self, bmp: u16) -> Self::Output {
        vstd::pervasive::arbitrary()
    }

    /// What `surrogate_pair` returns for a surrogate pair. The default is one
    /// fixed value of `Output` for every pair, which a verified handler can
    /// meet only if its `surrogate_pair` always returns that value; a handler
    /// whose output depends on the pair states its own.
    open spec fn surrogate_pair_output(&self, high_surrogate: u16, low_surrogate: u16) -> Self::Output {
        vstd::pervasive::arbitrary()
    }

    /// Map a single-code-unit UTF-16 sequence to `Output`.
    fn bmp(&self, bmp: u16) -> (r: Self::Output)
        requires
            !spec_is_surrogate(bmp),
        ensures
            r == self.bmp_output(bmp),
    ;

    /// Map a two-code-unit UTF-16 sequence to `Output`.
    fn surrogate_pair(&self, high_surrogate: u16, low_surrogate: u16) -> (r: Self::Output)
        requires
            spec_is_high_surrogate(high_surrogate),
            spec_is_low_surrogate(low_surrogate),
        ensures
            r == self.surrogate_pair_output(high_surrogate, low_surrogate),
    ;

    /// Map a single UTF-16 error (one unpaired surrogate) to `Output`.
    ///
    /// When `Output` is `char`, `char::REPLACEMENT_CHARACTER` is the
    /// appropriate result. The provided implementation delegates to `bmp`
    /// with `0xFFFD`, the REPLACEMENT CHARACTER's code unit. A handler that
    /// writes its own states what it returns in its own `ensures`.
    fn error(&self) -> (r: Self::Output)
        default_ensures
            r == self.bmp_output(0xFFFDu16),
    {
        self.bmp(0xFFFDu16)
    }
}

/// `o` is what the handler maps a decoded piece to: what `bmp` or
/// `surrogate_pair` returns for it, or, for an unpaired surrogate, a result
/// that the handler's `error` may return.
pub open spec fn is_unit_output<H: Utf16Handler>(handler: &H, u: DecodedUnit, o: H::Output) -> bool {
    match u {
        DecodedUnit::Bmp(b) => o == handler.bmp_output(b),
        DecodedUnit::Pair(h, l) => o == handler.surrogate_pair_output(h, l),
        DecodedUnit::Unpaired(_) => call_ensures(H::error, (handler,), o),
    }
}

/// Iterator by `char` over `&[u16]` that contains potentially-invalid
/// UTF-16, mapping each decoded piece through a handler.
#[derive(Debug, Clone)]
pub struct Utf16CharsWithHandler<'a, H> where H: Utf16Handler {
    rest: &'a [u16],
    handler: H,
}

impl<'a, H> View for Utf16CharsWithHandler<'a, H> where H: Utf16Handler {
    type V = Seq<u16>;

    /// The code units not yet consumed from either end.
    closed spec fn view(&self) -> Seq<u16> {
        self.rest@
    }
}

impl<'a, H> Utf16CharsWithHandler<'a, H> where H: Utf16Handler {
    /// The handler that maps decoded pieces to output.
    pub closed spec fn handler_spec(&self) -> H {
        self.handler
    }

    /// Creates the iterator from a `u16` slice.
    pub fn new(code_units: &'a [u16], handler: H) -> (r: Self)
        ensures
            r@ == code_units@,
            r.handler_spec() == handler,
    {
        Utf16CharsWithHandler { rest: code_units, handler }
    }

    /// Views the current remaining data in the iterator as a subslice of
    /// the original slice.
    pub fn as_slice(&self) -> (r: &'a [u16])
        ensures
            r@ == self@,
    {
        self.rest
    }

    /// Obtains a reference to the handler.
    pub fn handler(&self) -> (r: &H)
        ensures
            *r == self.handler_spec(),
    {
        &self.handler
    }

    fn error(&self) -> (r: H::Output)
        ensures
            call_ensures(H::error, (&self.handler_spec(),), r),
    {
        self.handler.error()
    }

    /// Decodes what follows a code unit that was taken off the front: the
    /// pair, consuming one more unit, where `surrogate` is a high surrogate
    /// and a low one comes next; otherwise the handler's error, consuming
    /// nothing.
    fn surrogate_next(&mut self, surrogate: u16) -> (r: H::Output)
        ensures
            final(self).handler_spec() == old(self).handler_spec(),
            spec_is_high_surrogate(surrogate) && old(self)@.len() > 0 && spec_is_low_surrogate(
                old(self)@[0],
            ) ==> {
                &&& r == old(self).handler_spec().surrogate_pair_output(surrogate, old(self)@[0])
                &&& final(self)@ == old(self)@.drop_first()
            },
            !(spec_is_high_surrogate(surrogate) && old(self)@.len() > 0 && spec_is_low_surrogate(
                old(self)@[0],
            )) ==> {
                &&& call_ensures(H::error, (&old(self).handler_spec(),), r)
                &&& final(self)@ == old(self)@
            },
    {
        if is_high_surrogate(surrogate) {
            let rest = self.rest;
            if rest.len() > 0 {
                let low = rest[0];
                if is_low_surrogate(low) {
                    self.rest = vstd::slice::slice_subrange(rest, 1, rest.len());
                    assert(self@ =~= old(self)@.drop_first());
                    return self.handler.surrogate_pair(surrogate, low);
                }
            }
        }
        self.error()
    }

    /// Decodes what precedes a code unit that was taken off the back: the
    /// pair, consuming one more unit, where `surrogate` is a low surrogate
    /// and a high one comes before it; otherwise the handler's error,
    /// consuming nothing.
    fn surrogate_next_back(&mut self, surrogate: u16) -> (r: H::Output)
        ensures
            final(self).handler_spec() == old(self).handler_spec(),
            spec_is_low_surrogate(surrogate) && old(self)@.len() > 0 && spec_is_high_surrogate(
                old(self)@.last(),
            ) ==> {
                &&& r == old(self).handler_spec().surrogate_pair_output(old(self)@.last(), surrogate)
                &&& final(self)@ == old(self)@.drop_last()
            },
            !(spec_is_low_surrogate(surrogate) && old(self)@.len() > 0 && spec_is_high_surrogate(
                old(self)@.last(),
            )) ==> {
                &&& call_ensures(H::error, (&old(self).handler_spec(),), r)
                &&& final(self)@ == old(self)@
            },
    {
        if is_low_surrogate(surrogate) {
            let rest = self.rest;
            if rest.len() > 0 {
                let high = rest[rest.len() - 1];
                if is_high_surrogate(high) {
                    self.rest = vstd::slice::slice_subrange(rest, 0, rest.len() - 1);
                    assert(self@ =~= old(self)@.drop_last());
                    return self.handler.surrogate_pair(high, surrogate);
                }
            }
        }
        self.error()
    }

    /// Takes the next piece off the front and maps it through the handler;
    /// `None`, with nothing changed, once nothing remains.
    pub fn next(&mut self) -> (r: Option<H::Output>)
        ensures
            final(self).handler_spec() == old(self).handler_spec(),
            old(self)@.len() == 0 ==> r is None && final(self)@ == old(self)@,
            old(self)@.len() > 0 ==> {
                &&& r matches Some(o) && is_unit_output(
                    &old(self).handler_spec(),
                    first_unit(old(self)@),
                    o,
                )
                &&& final(self)@ == rest_after_first(old(self)@)
                &&& decode(old(self)@) == seq![first_unit(old(self)@)] + decode(final(self)@)
            },
    {
        proof {
            if self@.len() > 0 {
                lemma_decode_front(self@);
            }
        }
        let rest = self.rest;
        if rest.len() == 0 {
            return None;
        }
        let first = rest[0];
        self.rest = vstd::slice::slice_subrange(rest, 1, rest.len());
        assert(self@ =~= old(self)@.drop_first());
        assert(old(self)@ =~= seq![first] + self@);
        if !is_surrogate(first) {
            return Some(self.handler.bmp(first));
        }
        let r = self.surrogate_next(first);
        assert(self@ =~= rest_after_first(old(self)@));
        Some(r)
    }

    /// Takes the next piece off the back and maps it through the handler;
    /// `None`, with nothing changed, once nothing remains.
    pub fn next_back(&mut self) -> (r: Option<H::Output>)
        ensures
            final(self).handler_spec() == old(self).handler_spec(),
            old(self)@.len() == 0 ==> r is None && final(self)@ == old(self)@,
            old(self)@.len() > 0 ==> {
                &&& r matches Some(o) && is_unit_output(
                    &old(self).handler_spec(),
                    last_unit(old(self)@),
                    o,
                )
                &&& final(self)@ == rest_before_last(old(self)@)
                &&& decode(old(self)@) == decode(final(self)@).push(last_unit(old(self)@))
            },
    {
        proof {
            if self@.len() > 0 {
                lemma_decode_back(self@);
            }
        }
        let rest = self.rest;
        if rest.len() == 0 {
            return None;
        }
        let last = rest[rest.len() - 1];
        self.rest = vstd::slice::slice_subrange(rest, 0, rest.len() - 1);
        assert(self@ =~= old(self)@.drop_last());
        assert(old(self)@ =~= self@.push(last));
        if !is_surrogate(last) {
            return Some(self.handler.bmp(last));
        }
        let r = self.surrogate_next_back(last);
        assert(self@ =~= rest_before_last(old(self)@));
        Some(r)
    }
}

} // verus!
