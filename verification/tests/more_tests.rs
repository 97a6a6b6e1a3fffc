use utf16_iter::helpers::{
    bmp_to_char, is_high_surrogate, is_low_surrogate, is_surrogate, surrogate_pair_to_char,
};
use utf16_iter::{
    ErrorReportingUtf16CharIndices, ErrorReportingUtf16Chars, Utf16CharIndices, Utf16CharIndicesWithHandler,
    Utf16Chars, Utf16CharsError, Utf16CharsEx, Utf16CharsWithHandler, Utf16Handler,
};

fn collect(mut it: Utf16Chars<'_>) -> Vec<char> {
    let mut out = Vec::new();
    while let Some(c) = it.next() {
        out.push(c);
    }
    out
}

fn collect_rev(mut it: Utf16Chars<'_>) -> Vec<char> {
    let mut out = Vec::new();
    while let Some(c) = it.next_back() {
        out.push(c);
    }
    out
}

fn std_decode(units: &[u16]) -> Vec<char> {
    core::char::decode_utf16(units.iter().copied())
        .map(|r| r.unwrap_or(core::char::REPLACEMENT_CHARACTER))
        .collect()
}

fn samples() -> Vec<Vec<u16>> {
    vec![
        vec![],
        vec![0x0061],
        vec![0xD800],
        vec![0xDC00],
        vec![0xD800, 0xD800, 0xDC00],
        vec![0xD800, 0xDC00, 0xDC00],
        vec![0xDBFF, 0xDFFF, 0x0041, 0xDC00, 0xD800],
        vec![0xD83D, 0xDE00, 0xD83D, 0x0020, 0xDE00, 0x00E9],
        vec![0xFFFF, 0x0000, 0xD7FF, 0xE000, 0xDBFF],
        vec![0xDC00, 0xD800, 0xDC00, 0xD800],
    ]
}

#[test]
fn decoding_matches_std_decode_utf16() {
    for s in samples() {
        assert_eq!(collect(s.as_slice().chars()), std_decode(&s), "input {:?}", s);
    }
}

#[test]
fn back_iteration_is_reverse_of_front() {
    for s in samples() {
        let mut fwd = collect(s.as_slice().chars());
        fwd.reverse();
        assert_eq!(collect_rev(s.as_slice().chars()), fwd, "input {:?}", s);
    }
}

#[test]
fn interleaved_front_and_back_agree_with_front() {
    for s in samples() {
        let expected = collect(s.as_slice().chars());
        let mut it = s.as_slice().chars();
        let mut front = Vec::new();
        let mut back = Vec::new();
        let mut turn = 0;
        loop {
            let next = if turn % 2 == 0 { it.next() } else { it.next_back() };
            match next {
                Some(c) => {
                    if turn % 2 == 0 {
                        front.push(c)
                    } else {
                        back.push(c)
                    }
                }
                None => break,
            }
            turn += 1;
        }
        back.reverse();
        front.extend(back);
        assert_eq!(front, expected, "input {:?}", s);
    }
}

#[test]
fn exhausted_iterator_stays_exhausted() {
    let mut it = [0x0061u16].as_slice().chars();
    assert_eq!(it.next(), Some('a'));
    assert_eq!(it.next(), None);
    assert_eq!(it.next(), None);
    assert_eq!(it.next_back(), None);
    assert_eq!(it.as_slice().len(), 0);
}

#[test]
fn as_slice_after_pair_and_back() {
    let units = [0x0061u16, 0xD83Du16, 0xDE00u16, 0xDC00u16];
    let mut it = units.as_slice().chars();
    assert_eq!(it.next(), Some('a'));
    assert_eq!(it.as_slice(), &units[1..]);
    assert_eq!(it.next(), Some('\u{1F600}'));
    assert_eq!(it.as_slice(), &units[3..]);
    assert_eq!(it.next_back(), Some('\u{FFFD}'));
    assert_eq!(it.as_slice().len(), 0);
}

#[test]
fn one_error_per_unpaired_surrogate() {
    // D800 D800 DC00 DC00 DBFF: positions 0, 3 and 4 are unpaired.
    let units = [0xD800u16, 0xD800, 0xDC00, 0xDC00, 0xDBFF];
    let mut it = ErrorReportingUtf16Chars::new(&units);
    let mut got = Vec::new();
    while let Some(r) = it.next() {
        got.push(r);
    }
    assert_eq!(got.len(), 4);
    assert!(got[0].is_err());
    assert_eq!(got[1], Ok('\u{10000}'));
    assert!(got[2].is_err());
    assert!(got[3].is_err());
    assert_eq!(got.iter().filter(|r| r.is_err()).count(), 3);
}

#[test]
fn encoding_then_decoding_gives_the_chars_back() {
    let text = "aé€😀\u{10FFFF}\u{FFFF}\u{E000}z";
    let units: Vec<u16> = text.encode_utf16().collect();
    let chars: Vec<char> = text.chars().collect();
    assert_eq!(collect(units.as_slice().chars()), chars);
}

#[test]
fn char_indices_yield_start_positions() {
    let units = [0x0061u16, 0xD83D, 0xDE00, 0xD800, 0x0062];
    let mut it = units.as_slice().char_indices();
    assert_eq!(it.offset(), 0);
    assert_eq!(it.next(), Some((0, 'a')));
    assert_eq!(it.offset(), 1);
    assert_eq!(it.next(), Some((1, '\u{1F600}')));
    assert_eq!(it.offset(), 3);
    assert_eq!(it.next_back(), Some((4, 'b')));
    assert_eq!(it.next_back(), Some((3, '\u{FFFD}')));
    assert_eq!(it.next(), None);
    assert_eq!(it.offset(), 3);
    assert_eq!(it.as_slice().len(), 0);
}

#[test]
fn char_indices_new_matches_trait() {
    let units = [0xDFFFu16, 0x0041];
    let mut a = Utf16CharIndices::new(&units);
    let mut b = units.as_slice().char_indices();
    assert_eq!(a.next(), Some((0, '\u{FFFD}')));
    assert_eq!(b.next(), Some((0, '\u{FFFD}')));
    assert_eq!(a.next(), Some((1, 'A')));
    assert_eq!(b.next(), Some((1, 'A')));
    assert_eq!(a.next(), None);
}

#[test]
fn error_reporting_char_indices() {
    let units = [0xDC00u16, 0xD83E, 0xDD73];
    let mut it = ErrorReportingUtf16CharIndices::new(&units);
    assert_eq!(it.next_back(), Some((1, Ok('🥳'))));
    let first = it.next();
    assert!(matches!(first, Some((0, Err(_)))));
    assert_eq!(it.next(), None);
    assert_eq!(it.offset(), 1);
    assert_eq!(it.as_slice().len(), 0);
}

#[test]
fn error_message() {
    let err: Utf16CharsError = ErrorReportingUtf16Chars::new(&[0xD800u16]).next().unwrap().unwrap_err();
    assert_eq!(err.to_string(), "unpaired surrogate");
}

/// Maps each decoded piece to its scalar value, and an error to `u32::MAX`.
#[derive(Debug, Clone, PartialEq)]
struct ScalarHandler {
    tag: u8,
}

impl Utf16Handler for ScalarHandler {
    type Output = u32;

    fn bmp(&self, bmp: u16) -> u32 {
        u32::from(bmp)
    }

    fn surrogate_pair(&self, high_surrogate: u16, low_surrogate: u16) -> u32 {
        u32::from(surrogate_pair_to_char(high_surrogate, low_surrogate))
    }

    fn error(&self) -> u32 {
        u32::MAX
    }
}

#[test]
fn custom_handler() {
    let units = [0x0041u16, 0xDBFF, 0xDFFF, 0xDBFF];
    let mut it = Utf16CharsWithHandler::new(&units, ScalarHandler { tag: 7 });
    assert_eq!(it.handler(), &ScalarHandler { tag: 7 });
    assert_eq!(it.next(), Some(0x41));
    assert_eq!(it.next_back(), Some(u32::MAX));
    assert_eq!(it.as_slice(), &units[1..3]);
    assert_eq!(it.next(), Some(0x10FFFF));
    assert_eq!(it.next(), None);

    let mut idx = Utf16CharIndicesWithHandler::new(&units, ScalarHandler { tag: 1 });
    assert_eq!(idx.next(), Some((0, 0x41)));
    assert_eq!(idx.next(), Some((1, 0x10FFFF)));
    assert_eq!(idx.next(), Some((3, u32::MAX)));
    assert_eq!(idx.next(), None);
}

#[test]
fn surrogate_classification() {
    assert!(!is_surrogate(0xD7FF));
    assert!(is_surrogate(0xD800));
    assert!(is_surrogate(0xDFFF));
    assert!(!is_surrogate(0xE000));
    assert!(is_high_surrogate(0xD800));
    assert!(is_high_surrogate(0xDBFF));
    assert!(!is_high_surrogate(0xDC00));
    assert!(!is_low_surrogate(0xDBFF));
    assert!(is_low_surrogate(0xDC00));
    assert!(is_low_surrogate(0xDFFF));
    assert!(!is_low_surrogate(0x0061));
}

#[test]
fn conversions_to_char() {
    assert_eq!(bmp_to_char(0x0061), 'a');
    assert_eq!(bmp_to_char(0xFFFD), '\u{FFFD}');
    assert_eq!(bmp_to_char(0xE000), '\u{E000}');
    assert_eq!(surrogate_pair_to_char(0xD800, 0xDC00), '\u{10000}');
    assert_eq!(surrogate_pair_to_char(0xDBFF, 0xDFFF), '\u{10FFFF}');
    assert_eq!(surrogate_pair_to_char(0xD83D, 0xDE00), '\u{1F600}');
}

#[test]
fn new_matches_chars() {
    let units = [0xD83Eu16, 0xDD73, 0x0021];
    assert_eq!(collect(Utf16Chars::new(&units)), collect(units.as_slice().chars()));
    assert_eq!(collect(Utf16Chars::new(&units)), vec!['🥳', '!']);
}

#[test]
fn decoding_then_encoding_gives_the_units_back() {
    let units = [0x0041u16, 0xD83D, 0xDE00, 0xFFFF, 0xDBFF, 0xDFFF, 0x0000];
    let chars = collect(units.as_slice().chars());
    let s: String = chars.into_iter().collect();
    let again: Vec<u16> = s.encode_utf16().collect();
    assert_eq!(again, units.to_vec());
}

/// Maps each piece to its scalar value and keeps the provided `error`.
struct ProvidedErrorHandler;

impl Utf16Handler for ProvidedErrorHandler {
    type Output = u32;

    fn bmp(&self, bmp: u16) -> u32 {
        u32::from(bmp)
    }

    fn surrogate_pair(&self, high_surrogate: u16, low_surrogate: u16) -> u32 {
        u32::from(surrogate_pair_to_char(high_surrogate, low_surrogate))
    }
}

#[test]
fn provided_error_delegates_to_bmp_with_replacement() {
    assert_eq!(ProvidedErrorHandler.error(), 0xFFFD);
    let units = [0xDC00u16, 0x0041];
    let mut it = Utf16CharsWithHandler::new(&units, ProvidedErrorHandler);
    assert_eq!(it.next(), Some(0xFFFD));
    assert_eq!(it.next(), Some(0x41));
    assert_eq!(it.next(), None);
}
