use beet_smart_cutoff::text::{
    chars_of, line_is_blank, line_ranges, split_ranges, text_of_bytes, trimmed, word_ranges,
    Exactly, WhiteSpace,
};

#[test]
fn characters_in_order() {
    assert_eq!(chars_of("a\u{e9}z"), vec!['a', '\u{e9}', 'z']);
    assert!(chars_of("").is_empty());
}

#[test]
fn pieces_between_separators() {
    assert_eq!(split_ranges(b"a,bc,,d", &Exactly(b',')), vec![(0, 1), (2, 4), (5, 5), (6, 7)]);
    assert_eq!(split_ranges(b"", &Exactly(b',')), vec![(0, 0)]);
    assert_eq!(split_ranges(b",", &Exactly(b',')), vec![(0, 0), (1, 1)]);
    assert_eq!(split_ranges(b"abc", &Exactly(b',')), vec![(0, 3)]);
}

#[test]
fn lines_of_bytes() {
    let lf = Exactly(b'\n');
    let cr = Exactly(b'\r');
    assert_eq!(line_ranges(b"ab\ncd\r\nef", &lf, &cr), vec![(0, 2), (3, 5), (7, 9)]);
    assert_eq!(line_ranges(b"ab\n", &lf, &cr), vec![(0, 2)]);
    assert_eq!(line_ranges(b"", &lf, &cr), Vec::<(usize, usize)>::new());
    assert_eq!(line_ranges(b"\n", &lf, &cr), vec![(0, 0)]);
    assert_eq!(line_ranges(b"\n\n", &lf, &cr), vec![(0, 0), (1, 1)]);
    assert_eq!(line_ranges(b"ab\r", &lf, &cr), vec![(0, 3)]);
    assert_eq!(line_ranges(b"a\r\r\nb", &lf, &cr), vec![(0, 2), (4, 5)]);
    assert_eq!(line_ranges(b"\r\n", &lf, &cr), vec![(0, 0)]);
}

#[test]
fn lines_agree_with_the_standard_library() {
    for text in ["", "a", "a\n", "a\nb", "a\r\nb\r\n", "\n\na", "a\r", "\r", "\r\n\r\n", "a\n\r\nb\r"] {
        let chars: Vec<char> = text.chars().collect();
        let ranges = line_ranges(&chars, &Exactly('\n'), &Exactly('\r'));
        let lines: Vec<String> =
            ranges.iter().map(|&(from, to)| chars[from..to].iter().collect()).collect();
        let expected: Vec<String> = text.lines().map(|line| line.to_string()).collect();
        assert_eq!(lines, expected, "for {text:?}");
    }
}

#[test]
fn words_between_white_space() {
    let chars: Vec<char> = " 10\t 20\u{2003}30 ".chars().collect();
    assert_eq!(word_ranges(&chars, &WhiteSpace), vec![(1, 3), (5, 7), (8, 10)]);
    let chars: Vec<char> = "   ".chars().collect();
    assert!(word_ranges(&chars, &WhiteSpace).is_empty());
    assert!(word_ranges(&[], &WhiteSpace).is_empty());
}

#[test]
fn words_agree_with_the_standard_library() {
    for text in ["", " ", "a", " a", "a ", "a  b", "\ta\nb\r\nc\u{a0}d\u{3000}", "10 999999999"] {
        let chars: Vec<char> = text.chars().collect();
        let words: Vec<String> = word_ranges(&chars, &WhiteSpace)
            .iter()
            .map(|&(from, to)| chars[from..to].iter().collect())
            .collect();
        let expected: Vec<String> = text.split_whitespace().map(|word| word.to_string()).collect();
        assert_eq!(words, expected, "for {text:?}");
    }
}

#[test]
fn blank_lines() {
    assert!(line_is_blank(""));
    assert!(line_is_blank(" \t\u{a0}"));
    assert!(!line_is_blank(" x "));
    assert!(!line_is_blank("0"));
    for text in ["", " ", "\u{85}", "a", " \u{200b} ", "\u{feff}"] {
        assert_eq!(line_is_blank(text), text.trim().is_empty(), "for {text:?}");
    }
}

#[test]
fn bytes_as_text() {
    assert_eq!(text_of_bytes(b"abc"), Some("abc"));
    assert_eq!(text_of_bytes("bj\u{f6}rk".as_bytes()), Some("bj\u{f6}rk"));
    assert_eq!(text_of_bytes(b""), Some(""));
    assert_eq!(text_of_bytes(&[0xff]), None);
    assert_eq!(text_of_bytes(&[0xc3]), None);
    assert_eq!(text_of_bytes(&[0xed, 0xa0, 0x80]), None);
    assert_eq!(text_of_bytes(&[0xc0, 0x80]), None);
}

#[test]
fn white_space_around_a_line_is_left_out() {
    assert_eq!(trimmed("  quit \n"), "quit");
    assert_eq!(trimmed("10 20\r\n"), "10 20");
    assert_eq!(trimmed(""), "");
    assert_eq!(trimmed(" \t\n"), "");
    assert_eq!(trimmed("x"), "x");
    assert_eq!(trimmed("\u{a0}a b\u{3000}"), "a b");
}

#[test]
fn trimming_agrees_with_the_standard_library() {
    for text in ["", " ", "a", " a", "a ", " a b ", "\n\ta\u{2003}", "\u{200b} x", "\u{85}\u{85}"] {
        assert_eq!(trimmed(text), text.trim(), "for {text:?}");
    }
}
