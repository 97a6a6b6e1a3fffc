//! Properties of the decoding that hold for every input.

use vstd::prelude::*;
use crate::helpers::{
    pair_scalar, spec_is_high_surrogate, spec_is_low_surrogate, spec_is_surrogate,
};
use crate::model::{
    decode, decode_chars, decode_from_back, first_unit, last_unit, lemma_decode_back,
    rest_after_first, rest_before_last, unit_char, unit_len, DecodedUnit,
};
use crate::report::{unit_result, Utf16CharsError};

verus! {

/// Taking pieces off the back one by one yields exactly the pieces that
/// taking them off the front yields, in reverse order.
pub proof fn law_back_is_reverse_of_front(s: Seq<u16>)
    ensures
        decode_from_back(s) == decode(s).reverse(),
    decreases s.len(),
{
    if s.len() > 0 {
        lemma_decode_back(s);
        law_back_is_reverse_of_front(rest_before_last(s));
        let p = decode(rest_before_last(s));
        assert(p.push(last_unit(s)).reverse() =~= seq![last_unit(s)] + p.reverse());
    } else {
        assert(decode(s).reverse() =~= Seq::<DecodedUnit>::empty());
    }
}

/// Taking pieces from the two ends in the order `from_front` gives (`true`
/// for the front): the pieces yielded from the front in order, what then
/// remains, and the pieces yielded from the back in order. Taking stops once
/// nothing remains.
pub open spec fn take_from_ends(s: Seq<u16>, from_front: Seq<bool>) -> (
    Seq<DecodedUnit>,
    Seq<u16>,
    Seq<DecodedUnit>,
)
    decreases from_front.len(),
{
    if from_front.len() == 0 || s.len() == 0 {
        (Seq::empty(), s, Seq::empty())
    } else if from_front[0] {
        let (f, r, b) = take_from_ends(rest_after_first(s), from_front.drop_first());
        (seq![first_unit(s)] + f, r, b)
    } else {
        let (f, r, b) = take_from_ends(rest_before_last(s), from_front.drop_first());
        (f, r, seq![last_unit(s)] + b)
    }
}

/// However the front and the back are interleaved, what was yielded from
/// the front, then the decoding of what remains, then what was yielded from
/// the back in reverse, is the decoding of the whole.
pub proof fn law_interleaved_ends_decode_whole(s: Seq<u16>, from_front: Seq<bool>)
    ensures
        ({
            let (f, r, b) = take_from_ends(s, from_front);
            decode(s) == f + decode(r) + b.reverse()
        }),
    decreases from_front.len(),
{
    if from_front.len() == 0 || s.len() == 0 {
        assert(decode(s) =~= Seq::<DecodedUnit>::empty() + decode(s) + Seq::<DecodedUnit>::empty().reverse());
    } else if from_front[0] {
        let t = rest_after_first(s);
        law_interleaved_ends_decode_whole(t, from_front.drop_first());
        let (f, r, b) = take_from_ends(t, from_front.drop_first());
        assert(decode(s) == seq![first_unit(s)] + decode(t));
        assert(decode(s) =~= (seq![first_unit(s)] + f) + decode(r) + b.reverse());
    } else {
        let t = rest_before_last(s);
        lemma_decode_back(s);
        law_interleaved_ends_decode_whole(t, from_front.drop_first());
        let (f, r, b) = take_from_ends(t, from_front.drop_first());
        assert((seq![last_unit(s)] + b).reverse() =~= b.reverse().push(last_unit(s)));
        assert(decode(s) =~= f + decode(r) + (seq![last_unit(s)] + b).reverse());
    }
}

/// The code units of a decoded piece are what its kind says: a
/// non-surrogate, a high then a low surrogate, or a surrogate.
pub open spec fn unit_is_well_formed(u: DecodedUnit) -> bool {
    match u {
        DecodedUnit::Bmp(b) => !(0xD800 <= b <= 0xDFFF),
        DecodedUnit::Pair(h, l) => 0xD800 <= h <= 0xDBFF && 0xDC00 <= l <= 0xDFFF,
        DecodedUnit::Unpaired(u) => 0xD800 <= u <= 0xDFFF,
    }
}

/// What a piece decodes to, in terms of its code units: `c` is the `char`
/// and `r` the reported result.
pub open spec fn unit_value_is(u: DecodedUnit, c: char, r: Result<char, Utf16CharsError>) -> bool {
    match u {
        DecodedUnit::Bmp(b) => c as u32 == b as u32 && r == Ok::<char, Utf16CharsError>(c),
        DecodedUnit::Pair(h, l) => {
            &&& c as u32 == 0x10000 + (h - 0xD800) * 0x400 + (l - 0xDC00)
            &&& r == Ok::<char, Utf16CharsError>(c)
        },
        DecodedUnit::Unpaired(_) => c == '\u{FFFD}' && r is Err,
    }
}

proof fn lemma_unit_value(u: DecodedUnit)
    requires
        unit_is_well_formed(u),
    ensures
        unit_value_is(u, unit_char(u), unit_result(u)),
{
    match u {
        DecodedUnit::Bmp(b) => {
            assert(vstd::utf8::is_scalar(b as u32));
        },
        DecodedUnit::Pair(h, l) => {
            assert(vstd::utf8::is_scalar(pair_scalar(h, l) as u32));
        },
        DecodedUnit::Unpaired(_) => {},
    }
}

/// Every piece that decoding yields is well formed.
pub proof fn law_decoded_units_well_formed(s: Seq<u16>)
    ensures
        forall|i: int| 0 <= i < decode(s).len() ==> unit_is_well_formed(#[trigger] decode(s)[i]),
    decreases s.len(),
{
    if s.len() > 0 {
        let t = rest_after_first(s);
        law_decoded_units_well_formed(t);
        assert(decode(s) == seq![first_unit(s)] + decode(t));
        assert forall|i: int| 0 <= i < decode(s).len() implies unit_is_well_formed(
            #[trigger] decode(s)[i],
        ) by {
            if i > 0 {
                assert(decode(s)[i] == decode(t)[i - 1]);
            }
        }
    }
}

/// Every decoded `char` has the value its code units encode: a code unit
/// `b` that is not a surrogate decodes to the `char` of value `b`; a high
/// surrogate `h` followed by a low surrogate `l` decodes to the `char` of
/// value `0x10000 + (h - 0xD800) * 0x400 + (l - 0xDC00)`; an unpaired
/// surrogate decodes to U+FFFD. Reported results are `Ok` of the same
/// `char`, and `Err` for an unpaired surrogate only.
pub proof fn law_decoded_char_values(s: Seq<u16>)
    ensures
        decode_chars(s).len() == decode(s).len(),
        forall|i: int|
            0 <= i < decode(s).len() ==> {
                &&& unit_is_well_formed(decode(s)[i])
                &&& unit_value_is(decode(s)[i], #[trigger] decode_chars(s)[i], unit_result(decode(s)[i]))
            },
{
    law_decoded_units_well_formed(s);
    assert forall|i: int| 0 <= i < decode(s).len() implies unit_value_is(
        decode(s)[i],
        #[trigger] decode_chars(s)[i],
        unit_result(decode(s)[i]),
    ) by {
        lemma_unit_value(decode(s)[i]);
    }
}

/// A single code unit `b` that is not a surrogate decodes, from either end,
/// to exactly one `char`, whose value is `b`; reported, it is `Ok` of it.
pub proof fn law_single_unit_decodes_to_its_value(b: u16)
    requires
        !(0xD800 <= b <= 0xDFFF),
    ensures
        decode_chars(seq![b]).len() == 1,
        decode_chars(seq![b])[0] as u32 == b as u32,
        decode_from_back(seq![b]) == decode(seq![b]),
        unit_result(decode(seq![b])[0]) == Ok::<char, Utf16CharsError>(decode_chars(seq![b])[0]),
{
    let s = seq![b];
    let e = Seq::<u16>::empty();
    assert(decode(e) =~= Seq::<DecodedUnit>::empty());
    assert(decode_from_back(e) =~= Seq::<DecodedUnit>::empty());
    assert(rest_after_first(s) =~= e);
    assert(rest_before_last(s) =~= e);
    assert(decode(s) =~= seq![first_unit(s)]);
    assert(decode_from_back(s) =~= seq![last_unit(s)]);
    law_decoded_char_values(s);
}

/// A high surrogate `h` followed by a low surrogate `l` decodes, from either
/// end, to exactly one `char`, whose value is
/// `0x10000 + (h - 0xD800) * 0x400 + (l - 0xDC00)`; reported, it is `Ok` of it.
pub proof fn law_pair_decodes_to_its_scalar(h: u16, l: u16)
    requires
        0xD800 <= h <= 0xDBFF,
        0xDC00 <= l <= 0xDFFF,
    ensures
        decode_chars(seq![h, l]).len() == 1,
        decode_chars(seq![h, l])[0] as u32 == 0x10000 + (h - 0xD800) * 0x400 + (l - 0xDC00),
        decode_from_back(seq![h, l]) == decode(seq![h, l]),
        unit_result(decode(seq![h, l])[0]) == Ok::<char, Utf16CharsError>(
            decode_chars(seq![h, l])[0],
        ),
{
    let s = seq![h, l];
    let e = Seq::<u16>::empty();
    assert(decode(e) =~= Seq::<DecodedUnit>::empty());
    assert(decode_from_back(e) =~= Seq::<DecodedUnit>::empty());
    assert(first_unit(s) == DecodedUnit::Pair(h, l));
    assert(last_unit(s) == DecodedUnit::Pair(h, l));
    assert(rest_after_first(s) =~= e);
    assert(rest_before_last(s) =~= e);
    assert(decode(s) =~= seq![first_unit(s)]);
    assert(decode_from_back(s) =~= seq![last_unit(s)]);
    law_decoded_char_values(s);
}

/// Reporting errors and replacing them agree: a piece is reported as an
/// error exactly when it is an unpaired surrogate, and otherwise as the
/// `char` that replacement decoding gives; an error, replaced by U+FFFD,
/// gives what replacement decoding gives too.
pub proof fn law_reported_matches_replaced(u: DecodedUnit)
    ensures
        unit_result(u) is Err <==> u is Unpaired,
        (match unit_result(u) {
            Ok(c) => c,
            Err(_) => '\u{FFFD}',
        }) == unit_char(u),
{
}

/// The code unit at `i` is a surrogate that belongs to no surrogate pair:
/// not a high surrogate followed by a low one, nor a low surrogate preceded
/// by a high one.
pub open spec fn is_unpaired_at(s: Seq<u16>, i: int) -> bool {
    &&& 0 <= i < s.len()
    &&& spec_is_surrogate(s[i])
    &&& !(spec_is_high_surrogate(s[i]) && i + 1 < s.len() && spec_is_low_surrogate(s[i + 1]))
    &&& !(spec_is_low_surrogate(s[i]) && i >= 1 && spec_is_high_surrogate(s[i - 1]))
}

/// The number of positions at or after `i` that hold an unpaired surrogate.
pub open spec fn unpaired_positions_from(s: Seq<u16>, i: int) -> nat
    decreases s.len() - i,
{
    if i < 0 || i >= s.len() {
        0
    } else {
        (if is_unpaired_at(s, i) { 1nat } else { 0nat }) + unpaired_positions_from(s, i + 1)
    }
}

/// The number of unpaired-surrogate pieces in a decoding.
pub open spec fn unpaired_units(units: Seq<DecodedUnit>) -> nat
    decreases units.len(),
{
    if units.len() == 0 {
        0
    } else {
        (if units[0] is Unpaired { 1nat } else { 0nat }) + unpaired_units(units.drop_first())
    }
}

/// Counting from `k` on in `s` equals counting from `k - n` on in `t`,
/// when `t` is `s` without its first `n` code units and the two agree on
/// which positions are unpaired.
proof fn lemma_count_shift(s: Seq<u16>, t: Seq<u16>, n: int, k: int)
    requires
        0 <= n <= k <= s.len(),
        t == s.skip(n),
        forall|j: int| k <= j < s.len() ==> is_unpaired_at(s, j) == is_unpaired_at(t, j - n),
    ensures
        unpaired_positions_from(s, k) == unpaired_positions_from(t, k - n),
    decreases s.len() - k,
{
    if k < s.len() {
        lemma_count_shift(s, t, n, k + 1);
    }
}

/// Decoding yields exactly one unpaired-surrogate piece (one error, when
/// errors are reported) per unpaired surrogate in the input.
pub proof fn law_one_error_per_unpaired_surrogate(s: Seq<u16>)
    ensures
        unpaired_units(decode(s)) == unpaired_positions_from(s, 0),
    decreases s.len(),
{
    if s.len() > 0 {
        let f = first_unit(s);
        let n = unit_len(f) as int;
        let t = rest_after_first(s);
        law_one_error_per_unpaired_surrogate(t);
        assert(decode(s) == seq![f] + decode(t));
        assert((seq![f] + decode(t)).drop_first() =~= decode(t));
        assert forall|j: int| n <= j < s.len() implies is_unpaired_at(s, j) == is_unpaired_at(
            t,
            j - n,
        ) by {
            assert(t[j - n] == s[j]);
            if j + 1 < s.len() {
                assert(t[j - n + 1] == s[j + 1]);
            }
            if j > n {
                assert(t[j - n - 1] == s[j - 1]);
            }
        }
        lemma_count_shift(s, t, n, n);
        if n == 2 {
            assert(!is_unpaired_at(s, 0));
            assert(!is_unpaired_at(s, 1));
            assert(unpaired_positions_from(s, 1) == unpaired_positions_from(s, 2));
            assert(unpaired_positions_from(s, 0) == unpaired_positions_from(s, 1));
        } else {
            assert(unpaired_positions_from(s, 0) == (if is_unpaired_at(s, 0) { 1nat } else { 0nat })
                + unpaired_positions_from(s, 1));
        }
    }
}

/// The UTF-16 encoding of one `char`: its value as one code unit below
/// `0x10000`, else a high and a low surrogate.
pub open spec fn encode_char(c: char) -> Seq<u16> {
    let v = c as u32;
    if v < 0x10000 {
        seq![v as u16]
    } else {
        seq![
            (0xD800 + (v - 0x10000) / 0x400) as u16,
            (0xDC00 + (v - 0x10000) % 0x400) as u16,
        ]
    }
}

/// The UTF-16 encoding of a sequence of `char`s.
pub open spec fn encode_utf16(cs: Seq<char>) -> Seq<u16>
    decreases cs.len(),
{
    if cs.len() == 0 {
        Seq::empty()
    } else {
        encode_char(cs[0]) + encode_utf16(cs.drop_first())
    }
}

/// The encoding of one `char`, followed by anything, decodes first to that
/// `char`.
proof fn lemma_first_of_encoding(c: char, rest: Seq<u16>)
    ensures
        first_unit(encode_char(c) + rest) is Bmp || first_unit(encode_char(c) + rest) is Pair,
        unit_len(first_unit(encode_char(c) + rest)) == encode_char(c).len(),
        unit_char(first_unit(encode_char(c) + rest)) == c,
{
    let v = c as u32;
    let s = encode_char(c) + rest;
    assert(vstd::utf8::is_scalar(v));
    vstd::utf8::char_u32_cast(c, v);
    if v >= 0x10000 {
        let w = v - 0x10000;
        assert(0 <= w < 0x100000);
        let h = (0xD800 + w / 0x400) as u16;
        let l = (0xDC00 + w % 0x400) as u16;
        assert(w == (w / 0x400) * 0x400 + w % 0x400) by (nonlinear_arith)
            requires
                0 <= w,
        ;
        assert(0 <= w / 0x400 < 0x400) by (nonlinear_arith)
            requires
                0 <= w < 0x100000,
        ;
        assert(s[0] == h && s[1] == l);
        assert(pair_scalar(h, l) == v);
    } else {
        assert(s[0] == v as u16);
    }
}

/// Decoding a valid UTF-16 encoding gives back the `char`s encoded.
pub proof fn law_decode_of_encoding(cs: Seq<char>)
    ensures
        decode_chars(encode_utf16(cs)) == cs,
        unpaired_units(decode(encode_utf16(cs))) == 0,
    decreases cs.len(),
{
    if cs.len() > 0 {
        let e = encode_utf16(cs.drop_first());
        let s = encode_utf16(cs);
        assert(s == encode_char(cs[0]) + e);
        lemma_first_of_encoding(cs[0], e);
        assert(rest_after_first(s) =~= e);
        law_decode_of_encoding(cs.drop_first());
        let d = decode(s);
        assert(d == seq![first_unit(s)] + decode(e));
        assert(d.drop_first() =~= decode(e));
        assert(decode_chars(s).len() == cs.len());
        assert forall|i: int| 0 <= i < cs.len() implies decode_chars(s)[i] == cs[i] by {
            if i > 0 {
                assert(d[i] == decode(e)[i - 1]);
                assert(decode_chars(e)[i - 1] == cs.drop_first()[i - 1]);
            }
        }
        assert(decode_chars(s) =~= cs);
    } else {
        assert(decode_chars(encode_utf16(cs)) =~= cs);
    }
}

/// A decoded piece that is not an unpaired surrogate encodes back to the
/// code units it was decoded from.
proof fn lemma_encode_of_unit(s: Seq<u16>)
    requires
        s.len() > 0,
        !(first_unit(s) is Unpaired),
    ensures
        encode_char(unit_char(first_unit(s))) == s.take(unit_len(first_unit(s)) as int),
{
    let f = first_unit(s);
    let c = unit_char(f);
    match f {
        DecodedUnit::Bmp(b) => {
            assert((c as u32) == b as u32);
            assert(encode_char(c) =~= s.take(1));
        },
        DecodedUnit::Pair(h, l) => {
            let v = pair_scalar(h, l);
            assert(0x10000 <= v <= 0x10FFFF);
            assert((c as u32) == v);
            let w = v - 0x10000;
            let q = h - 0xD800;
            let r = l - 0xDC00;
            assert(w / 0x400 == q && w % 0x400 == r) by (nonlinear_arith)
                requires
                    w == q * 0x400 + r,
                    0 <= q < 0x400,
                    0 <= r < 0x400,
            ;
            assert(encode_char(c) =~= s.take(2));
        },
        DecodedUnit::Unpaired(_) => {},
    }
}

/// Where no surrogate is unpaired, encoding the decoded `char`s gives back
/// the code units decoded.
pub proof fn law_encoding_of_decode(s: Seq<u16>)
    requires
        unpaired_positions_from(s, 0) == 0,
    ensures
        encode_utf16(decode_chars(s)) == s,
    decreases s.len(),
{
    law_one_error_per_unpaired_surrogate(s);
    if s.len() > 0 {
        let f = first_unit(s);
        let t = rest_after_first(s);
        let d = decode(s);
        assert(d == seq![f] + decode(t));
        assert(d.drop_first() =~= decode(t));
        assert(!(f is Unpaired));
        law_one_error_per_unpaired_surrogate(t);
        law_encoding_of_decode(t);
        lemma_encode_of_unit(s);
        let cs = decode_chars(s);
        assert(cs[0] == unit_char(f));
        assert(cs.drop_first() =~= decode_chars(t));
        assert(encode_utf16(cs) == encode_char(cs[0]) + encode_utf16(cs.drop_first()));
        assert(s =~= s.take(unit_len(f) as int) + t);
    } else {
        assert(decode_chars(s) =~= Seq::<char>::empty());
    }
}

} // verus!
