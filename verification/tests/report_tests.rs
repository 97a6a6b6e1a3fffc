use utf16_iter::{ErrorReportingUtf16Chars, Utf16Chars, Utf16CharsError, Utf16CharsEx};

fn collect_replaced(mut it: ErrorReportingUtf16Chars<'_>) -> Vec<char> {
    let mut out = Vec::new();
    while let Some(r) = it.next() {
        out.push(r.unwrap_or('\u{FFFD}'));
    }
    out
}

fn collect_replaced_rev(mut it: ErrorReportingUtf16Chars<'_>) -> Vec<char> {
    let mut out = Vec::new();
    while let Some(r) = it.next_back() {
        out.push(r.unwrap_or('\u{FFFD}'));
    }
    out
}

fn collect(mut it: Utf16Chars<'_>) -> Vec<char> {
    let mut out = Vec::new();
    while let Some(c) = it.next() {
        out.push(c);
    }
    out
}

fn collect_rev(mut it: Utf16Chars<'_>) -> Vec<char> {
    let mut out = Vec::new();
    while let Some(c) = it.next_back() {
        out.push(c);
    }
    out
}

#[test]
fn report_test_boundaries() {
    assert_eq!(collect_replaced(ErrorReportingUtf16Chars::new([0xD7FFu16].as_slice())), vec!['\u{D7FF}']);
    assert_eq!(collect_replaced(ErrorReportingUtf16Chars::new([0xE000u16].as_slice())), vec!['\u{E000}']);
    assert_eq!(collect_replaced(ErrorReportingUtf16Chars::new([0xD800u16].as_slice())), vec!['\u{FFFD}']);
    assert_eq!(collect_replaced(ErrorReportingUtf16Chars::new([0xDFFFu16].as_slice())), vec!['\u{FFFD}']);
}

#[test]
fn report_test_unpaired() {
    assert_eq!(
        collect_replaced(ErrorReportingUtf16Chars::new([0xD800u16, 0x0061u16].as_slice())),
        collect([0xFFFDu16, 0x0061u16].as_slice().chars())
    );
    assert_eq!(
        collect_replaced(ErrorReportingUtf16Chars::new([0xDFFFu16, 0x0061u16].as_slice())),
        collect([0xFFFDu16, 0x0061u16].as_slice().chars())
    );
}

#[test]
fn report_test_unpaired_rev() {
    assert_eq!(
        collect_replaced_rev(ErrorReportingUtf16Chars::new([0xD800u16, 0x0061u16].as_slice())),
        collect_rev([0xFFFDu16, 0x0061u16].as_slice().chars())
    );
    assert_eq!(
        collect_replaced_rev(ErrorReportingUtf16Chars::new([0xDFFFu16, 0x0061u16].as_slice())),
        collect_rev([0xFFFDu16, 0x0061u16].as_slice().chars())
    );
}

#[test]
fn report_test_paired() {
    assert_eq!(
        collect_replaced(ErrorReportingUtf16Chars::new([0xD83Eu16, 0xDD73u16].as_slice())),
        vec!['🥳']
    );
}

#[test]
fn report_test_paired_rev() {
    assert_eq!(
        collect_replaced_rev(ErrorReportingUtf16Chars::new([0xD83Eu16, 0xDD73u16].as_slice())),
        vec!['🥳']
    );
}

#[test]
fn report_test_as_slice() {
    let mut iter = ErrorReportingUtf16Chars::new([0x0061u16, 0x0062u16].as_slice());
    let at_start = iter.as_slice();
    assert_eq!(iter.next(), Some(Ok('a')));
    let in_middle = iter.as_slice();
    assert_eq!(iter.next(), Some(Ok('b')));
    let at_end = iter.as_slice();
    assert_eq!(at_start.len(), 2);
    assert_eq!(in_middle.len(), 1);
    assert_eq!(at_end.len(), 0);
    assert_eq!(at_start[0], 0x0061u16);
    assert_eq!(at_start[1], 0x0062u16);
    assert_eq!(in_middle[0], 0x0062u16);
}

#[test]
fn test_size() {
    assert_eq!(
        core::mem::size_of::<Option<Result<char, Utf16CharsError>>>(),
        core::mem::size_of::<Option<char>>()
    );
}
