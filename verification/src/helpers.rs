//! Classification of UTF-16 code units and their conversion to `char`.

use vstd::prelude::*;

verus! {

/// A code unit in `0xD800..=0xDFFF`.
pub open spec fn spec_is_surrogate(u: u16) -> bool {
    0xD800 <= u && u <= 0xDFFF
}

/// A code unit in `0xD800..=0xDBFF`.
pub open spec fn spec_is_high_surrogate(u: u16) -> bool {
    0xD800 <= u && u <= 0xDBFF
}

/// A code unit in `0xDC00..=0xDFFF`.
pub open spec fn spec_is_low_surrogate(u: u16) -> bool {
    0xDC00 <= u && u <= 0xDFFF
}

/// The scalar value that a high and a low surrogate encode together.
pub open spec fn pair_scalar(high: u16, low: u16) -> int {
    0x10000 + (high - 0xD800) * 0x400 + (low - 0xDC00)
}

/// `true` iff `u` is a surrogate (high or low).
pub fn is_surrogate(u: u16) -> (r: bool)
    ensures
        r == spec_is_surrogate(u),
{
    let r = (u & 0b111_110_00000_00000u16) == 0b110_110_00000_00000u16;
    assert(r == (0xD800 <= u && u <= 0xDFFF)) by (bit_vector)
        requires
            r == ((u & 0b111_110_00000_00000u16) == 0b110_110_00000_00000u16),
    ;
    r
}

/// `true` iff `u` is a high surrogate.
pub fn is_high_surrogate(u: u16) -> (r: bool)
    ensures
        r == spec_is_high_surrogate(u),
{
    let r = (u & 0b111_111_00000_00000u16) == 0b110_110_00000_00000u16;
    assert(r == (0xD800 <= u && u <= 0xDBFF)) by (bit_vector)
        requires
            r == ((u & 0b111_111_00000_00000u16) == 0b110_110_00000_00000u16),
    ;
    r
}

/// `true` iff `u` is a low surrogate.
pub fn is_low_surrogate(u: u16) -> (r: bool)
    ensures
        r == spec_is_low_surrogate(u),
{
    let r = (u & 0b111_111_00000_00000u16) == 0b110_111_00000_00000u16;
    assert(r == (0xDC00 <= u && u <= 0xDFFF)) by (bit_vector)
        requires
            r == ((u & 0b111_111_00000_00000u16) == 0b110_111_00000_00000u16),
    ;
    r
}

/// `char::from_u32` of std: its documentation says that the result is
/// `None` exactly when the value is not a Unicode scalar value (a
/// surrogate, or above `0x10FFFF`), and otherwise the `char` whose value it
/// is. This contract is believed, not proved.
pub assume_specification[ char::from_u32 ](i: u32) -> (r: Option<char>)
    ensures
        r is Some <==> (i < 0xD800 || (0xE000 <= i && i <= 0x10FFFF)),
        r matches Some(c) ==> c as u32 == i,
;

/// The `char` whose value is `v`, where `v` is a Unicode scalar value.
fn char_from_u32(v: u32) -> (r: Option<char>)
    ensures
        r is Some <==> (v < 0xD800 || (0xE000 <= v && v <= 0x10FFFF)),
        r matches Some(c) ==> c as u32 == v,
{
    char::from_u32(v)
}

/// Converts a non-surrogate to `char`.
pub fn bmp_to_char(bmp: u16) -> (c: char)
    requires
        !spec_is_surrogate(bmp),
    ensures
        c as u32 == bmp as u32,
        c == (bmp as u32) as char,
{
    match char_from_u32(bmp as u32) {
        Some(c) => {
            proof {
                vstd::utf8::char_u32_cast(c, bmp as u32);
            }
            c
        },
        None => '\u{FFFD}',
    }
}

/// Converts a surrogate pair to `char`.
pub fn surrogate_pair_to_char(high_surrogate: u16, low_surrogate: u16) -> (c: char)
    requires
        spec_is_high_surrogate(high_surrogate),
        spec_is_low_surrogate(low_surrogate),
    ensures
        c as int == pair_scalar(high_surrogate, low_surrogate),
        c == (pair_scalar(high_surrogate, low_surrogate) as u32) as char,
        0x10000 <= c as int <= 0x10FFFF,
{
    let h = high_surrogate as u32;
    let l = low_surrogate as u32;
    assert((h << 10u32) == h * 1024) by (bit_vector)
        requires
            h < 0x10000,
    ;
    assert((0xD800u32 << 10u32) == 0x360_0000u32) by (bit_vector);
    let v = (h << 10u32) + l - (((0xD800u32 << 10u32) - 0x10000u32) + 0xDC00u32);
    assert(v as int == pair_scalar(high_surrogate, low_surrogate));
    match char_from_u32(v) {
        Some(c) => {
            proof {
                vstd::utf8::char_u32_cast(c, v);
            }
            c
        },
        None => '\u{FFFD}',
    }
}

} // verus!
