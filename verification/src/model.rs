//! The mathematical model of UTF-16 decoding: a sequence of code units is
//! split, from the front, into single-unit scalars, surrogate pairs and
//! unpaired surrogates.

use vstd::prelude::*;
use crate::helpers::{pair_scalar, spec_is_high_surrogate, spec_is_low_surrogate, spec_is_surrogate};

verus! {

/// One decoded piece of a UTF-16 code unit sequence.
#[derive(Debug, Clone, Copy, PartialEq, Eq)]
pub enum DecodedUnit {
    /// A code unit that is not a surrogate.
    Bmp(u16),
    /// A high surrogate immediately followed by a low surrogate.
    Pair(u16, u16),
    /// A surrogate that is not part of a pair.
    Unpaired(u16),
}

/// The number of code units that a decoded piece spans.
pub open spec fn unit_len(u: DecodedUnit) -> nat {
    match u {
        DecodedUnit::Pair(_, _) => 2,
        _ => 1,
    }
}

/// The piece at the front of a non-empty code unit sequence.
pub open spec fn first_unit(s: Seq<u16>) -> DecodedUnit
    recommends
        s.len() > 0,
{
    if !spec_is_surrogate(s[0]) {
        DecodedUnit::Bmp(s[0])
    } else if spec_is_high_surrogate(s[0]) && s.len() >= 2 && spec_is_low_surrogate(s[1]) {
        DecodedUnit::Pair(s[0], s[1])
    } else {
        DecodedUnit::Unpaired(s[0])
    }
}

/// The piece at the back of a non-empty code unit sequence.
pub open spec fn last_unit(s: Seq<u16>) -> DecodedUnit
    recommends
        s.len() > 0,
{
    let n = s.len() - 1;
    if !spec_is_surrogate(s[n]) {
        DecodedUnit::Bmp(s[n])
    } else if spec_is_low_surrogate(s[n]) && s.len() >= 2 && spec_is_high_surrogate(s[n - 1]) {
        DecodedUnit::Pair(s[n - 1], s[n])
    } else {
        DecodedUnit::Unpaired(s[n])
    }
}

/// What remains after the front piece is taken off.
pub open spec fn rest_after_first(s: Seq<u16>) -> Seq<u16> {
    s.skip(unit_len(first_unit(s)) as int)
}

/// What remains after the back piece is taken off.
pub open spec fn rest_before_last(s: Seq<u16>) -> Seq<u16> {
    s.take(s.len() - unit_len(last_unit(s)))
}

/// The decoding of a code unit sequence, front to back.
pub open spec fn decode(s: Seq<u16>) -> Seq<DecodedUnit>
    decreases s.len(),
{
    if s.len() == 0 {
        Seq::empty()
    } else {
        seq![first_unit(s)] + decode(rest_after_first(s))
    }
}

/// The pieces in the order in which taking them off the back yields them.
pub open spec fn decode_from_back(s: Seq<u16>) -> Seq<DecodedUnit>
    decreases s.len(),
{
    if s.len() == 0 {
        Seq::empty()
    } else {
        seq![last_unit(s)] + decode_from_back(rest_before_last(s))
    }
}

/// The `char` that a piece stands for, an unpaired surrogate giving the
/// REPLACEMENT CHARACTER.
pub open spec fn unit_char(u: DecodedUnit) -> char {
    match u {
        DecodedUnit::Bmp(b) => (b as u32) as char,
        DecodedUnit::Pair(h, l) => (pair_scalar(h, l) as u32) as char,
        DecodedUnit::Unpaired(_) => '\u{FFFD}',
    }
}

/// The decoding of a code unit sequence as `char`s.
pub open spec fn decode_chars(s: Seq<u16>) -> Seq<char> {
    decode(s).map_values(|u: DecodedUnit| unit_char(u))
}

/// Taking one piece off the front of a non-empty sequence leaves the
/// decoding of the rest.
pub proof fn lemma_decode_front(s: Seq<u16>)
    requires
        s.len() > 0,
    ensures
        unit_len(first_unit(s)) <= s.len(),
        decode(s) == seq![first_unit(s)] + decode(rest_after_first(s)),
{
}

/// Taking one piece off the back of a non-empty sequence leaves the
/// decoding of the rest: the pairing of surrogates found from the back is
/// the one found from the front.
pub proof fn lemma_decode_back(s: Seq<u16>)
    requires
        s.len() > 0,
    ensures
        unit_len(last_unit(s)) <= s.len(),
        decode(s) == decode(rest_before_last(s)).push(last_unit(s)),
    decreases s.len(),
{
    let f = first_unit(s);
    let n = unit_len(f);
    let t = rest_after_first(s);
    assert(n <= s.len());
    if t.len() == 0 {
        assert(s.len() == n);
        assert(rest_before_last(s) =~= Seq::<u16>::empty());
        assert(decode(t) =~= Seq::<DecodedUnit>::empty());
        assert(decode(s) =~= seq![f]);
    } else {
        lemma_decode_back(t);
        let tl = t.len();
        assert(t[tl - 1] == s[s.len() - 1]);
        if tl >= 2 {
            assert(t[tl - 2] == s[s.len() - 2]);
        }
        assert(last_unit(t) == last_unit(s));
        let bl = unit_len(last_unit(s));
        let p = rest_before_last(s);
        assert(p.len() == n + tl - bl);
        assert(p[0] == s[0]);
        if p.len() >= 2 {
            assert(p[1] == s[1]);
        }
        assert(first_unit(p) == f);
        assert(rest_after_first(p) =~= rest_before_last(t));
        assert(decode(p) == seq![f] + decode(rest_before_last(t)));
        assert(decode(s) =~= decode(p).push(last_unit(s)));
    }
}

} // verus!
