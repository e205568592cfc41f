use sce::classify::{classify_line, is_white_space_char, LineKind};

#[test]
fn empty_line_is_blank() {
    assert_eq!(classify_line(""), LineKind::Blank);
}

#[test]
fn white_space_only_line_is_blank() {
    assert_eq!(classify_line("   \t  "), LineKind::Blank);
    assert_eq!(classify_line("\u{3000}\u{a0}\u{2009}\r"), LineKind::Blank);
}

#[test]
fn slash_comment_is_comment() {
    assert_eq!(classify_line("// comment"), LineKind::Comment);
    assert_eq!(classify_line("    /* block */"), LineKind::Comment);
    assert_eq!(classify_line("\t*/"), LineKind::Comment);
}

#[test]
fn star_prefixed_code_counts_as_comment() {
    assert_eq!(classify_line("*ptr = 5;"), LineKind::Comment);
    assert_eq!(classify_line("    * continuation"), LineKind::Comment);
}

#[test]
fn other_lines_are_code() {
    assert_eq!(classify_line("int x = 1;"), LineKind::Code);
    assert_eq!(classify_line("  x / y"), LineKind::Code);
    assert_eq!(classify_line("#include <stdio.h>"), LineKind::Code);
}

#[test]
fn white_space_set() {
    for c in [' ', '\t', '\n', '\u{b}', '\u{c}', '\r', '\u{85}', '\u{a0}', '\u{1680}', '\u{2000}',
        '\u{200a}', '\u{2028}', '\u{2029}', '\u{202f}', '\u{205f}', '\u{3000}']
    {
        assert!(is_white_space_char(c));
        assert_eq!(is_white_space_char(c), c.is_whitespace());
    }
    for c in ['a', '/', '*', '\u{200b}', '\u{feff}', '\u{1f}', '\u{2030}'] {
        assert!(!is_white_space_char(c));
        assert_eq!(is_white_space_char(c), c.is_whitespace());
    }
}

#[test]
fn agrees_with_trim_on_samples() {
    let samples = ["", "  ", "a", " /x", "\u{2003}*y", "z // c", "\u{200b}/"];
    for s in samples {
        let t = s.trim();
        let expected = if t.is_empty() {
            LineKind::Blank
        } else if t.starts_with('/') || t.starts_with('*') {
            LineKind::Comment
        } else {
            LineKind::Code
        };
        assert_eq!(classify_line(s), expected);
    }
}
