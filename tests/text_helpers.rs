use tf2tts::text::{chars_of, is_white_space_char, line_ranges, range_starts_with, trim_bounds};

#[test]
fn chars_keep_order() {
    assert_eq!(chars_of("aé\u{3000}z"), vec!['a', 'é', '\u{3000}', 'z']);
    assert!(chars_of("").is_empty());
}

#[test]
fn white_space_matches_std() {
    for c in ['\t', '\n', '\u{0B}', '\u{0C}', '\r', ' ', '\u{85}', '\u{A0}', '\u{1680}', '\u{2000}', '\u{200A}', '\u{2028}', '\u{2029}', '\u{202F}', '\u{205F}', '\u{3000}', 'a', '\u{200B}', '\u{FEFF}', '0', '\u{180E}'] {
        assert_eq!(is_white_space_char(c), c.is_whitespace(), "{:?}", c);
    }
}

#[test]
fn trim_bounds_strip_both_ends() {
    let cs = chars_of("  hi there \t");
    assert_eq!(trim_bounds(&cs, 0, cs.len()), (2, 10));
    let blank = chars_of("   ");
    let (a, b) = trim_bounds(&blank, 0, 3);
    assert_eq!(a, b);
}

#[test]
fn lines_split_like_std() {
    let text = "a\r\nbb\n\nc\r";
    let cs = chars_of(text);
    let got: Vec<String> = line_ranges(&cs).iter().map(|&(a, b)| cs[a..b].iter().collect()).collect();
    let expected: Vec<String> = vec!["a".to_string(), "bb".to_string(), String::new(), "c\r".to_string()];
    assert_eq!(got, expected);
    let cs2 = chars_of("x\n");
    assert_eq!(line_ranges(&cs2), vec![(0, 1)]);
    assert!(line_ranges(&chars_of("")).is_empty());
}

#[test]
fn prefix_test_on_ranges() {
    let cs = chars_of("xxFoo :");
    assert!(range_starts_with(&cs, 2, 7, &chars_of("Foo :")));
    assert!(!range_starts_with(&cs, 2, 6, &chars_of("Foo :")));
    assert!(range_starts_with(&cs, 0, 0, &Vec::new()));
}
