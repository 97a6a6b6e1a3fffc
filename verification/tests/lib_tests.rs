use utf16_iter::{Utf16Chars, Utf16CharsEx};

fn collect(mut it: Utf16Chars<'_>) -> Vec<char> {
    let mut out = Vec::new();
    while let Some(c) = it.next() {
        out.push(c);
    }
    out
}

fn collect_rev(mut it: Utf16Chars<'_>) -> Vec<char> {
    let mut out = Vec::new();
    while let Some(c) = it.next_back() {
        out.push(c);
    }
    out
}

#[test]
fn lib_test_boundaries() {
    assert_eq!(collect([0xD7FFu16].as_slice().chars()), vec!['\u{D7FF}']);
    assert_eq!(collect([0xE000u16].as_slice().chars()), vec!['\u{E000}']);
    assert_eq!(collect([0xD800u16].as_slice().chars()), vec!['\u{FFFD}']);
    assert_eq!(collect([0xDFFFu16].as_slice().chars()), vec!['\u{FFFD}']);
}

#[test]
fn lib_test_unpaired() {
    assert_eq!(
        collect([0xD800u16, 0x0061u16].as_slice().chars()),
        collect([0xFFFDu16, 0x0061u16].as_slice().chars())
    );
    assert_eq!(
        collect([0xDFFFu16, 0x0061u16].as_slice().chars()),
        collect([0xFFFDu16, 0x0061u16].as_slice().chars())
    );
}

#[test]
fn lib_test_unpaired_rev() {
    assert_eq!(
        collect_rev([0xD800u16, 0x0061u16].as_slice().chars()),
        collect_rev([0xFFFDu16, 0x0061u16].as_slice().chars())
    );
    assert_eq!(
        collect_rev([0xDFFFu16, 0x0061u16].as_slice().chars()),
        collect_rev([0xFFFDu16, 0x0061u16].as_slice().chars())
    );
}

#[test]
fn lib_test_paired() {
    assert_eq!(collect([0xD83Eu16, 0xDD73u16].as_slice().chars()), vec!['🥳']);
}

#[test]
fn lib_test_paired_rev() {
    assert_eq!(collect_rev([0xD83Eu16, 0xDD73u16].as_slice().chars()), vec!['🥳']);
}

#[test]
fn lib_test_as_slice() {
    let mut iter = [0x0061u16, 0x0062u16].as_slice().chars();
    let at_start = iter.as_slice();
    assert_eq!(iter.next(), Some('a'));
    let in_middle = iter.as_slice();
    assert_eq!(iter.next(), Some('b'));
    let at_end = iter.as_slice();
    assert_eq!(at_start.len(), 2);
    assert_eq!(in_middle.len(), 1);
    assert_eq!(at_end.len(), 0);
    assert_eq!(at_start[0], 0x0061u16);
    assert_eq!(at_start[1], 0x0062u16);
    assert_eq!(in_middle[0], 0x0062u16);
}
