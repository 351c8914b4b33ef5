use claudex::text::{
    dashes, decimal_text, join, pad_right, parse_usize, says_yes, split_commas, trim,
    trim_end_slashes, white_space,
};
use claudex::text_map::TextMap;

#[test]
fn decimal_numerals() {
    for n in [0, 1, 9, 10, 11, 99, 100, 12345, u128::MAX] {
        assert_eq!(decimal_text(n), n.to_string());
    }
}

#[test]
fn numerals_read_as_the_standard_library_does() {
    let samples = [
        "", "0", "1", "+1", "++1", "-1", "+", "007", "1a", " 1", "1 ", "18446744073709551615",
        "18446744073709551616", "99999999999999999999999999", "99999999999999999999999999x",
        "000000000000000000000000000000012", "\u{0661}",
    ];
    for sample in samples {
        assert_eq!(parse_usize(sample), sample.parse::<usize>().ok(), "{sample:?}");
    }
}

#[test]
fn written_numbers_read_back() {
    for n in 0..200usize {
        assert_eq!(parse_usize(&decimal_text(n as u128)), Some(n));
    }
}

#[test]
fn white_space_is_that_of_the_standard_library() {
    for code in 0..=0x10ffffu32 {
        if let Some(c) = char::from_u32(code) {
            assert_eq!(white_space(c), c.is_whitespace(), "{code:x}");
        }
    }
}

#[test]
fn trimming_cuts_both_ends() {
    for sample in ["", "  ", "a", " a", "a ", "\u{3000}a b\t\n", "\u{200b}a"] {
        assert_eq!(trim(sample), sample.trim());
    }
}

#[test]
fn trailing_slashes_are_cut() {
    for sample in ["", "/", "//", "a", "a/", "a//", "/a/b/", "a/ "] {
        assert_eq!(trim_end_slashes(sample), sample.trim_end_matches('/'));
    }
}

#[test]
fn comma_lists_are_split_trimmed_and_cleaned() {
    for sample in ["", ",", "a", "a,b", " a , b ,, c,", "a b", ", ,\t,", "\u{e9},\u{3000}x"] {
        let expected: Vec<String> = sample
            .split(',')
            .map(|piece| piece.trim().to_string())
            .filter(|piece| !piece.is_empty())
            .collect();
        assert_eq!(split_commas(sample), expected, "{sample:?}");
    }
}

#[test]
fn pieces_are_joined() {
    assert_eq!(join(&Vec::new(), ", "), "");
    assert_eq!(join(&vec!["a".to_string()], ", "), "a");
    assert_eq!(join(&vec!["a".to_string(), "b".to_string(), "c".to_string()], ", "), "a, b, c");
}

#[test]
fn columns_are_padded_by_characters() {
    assert_eq!(pad_right("ab", 4), "ab  ");
    assert_eq!(pad_right("abcd", 4), "abcd");
    assert_eq!(pad_right("abcde", 4), "abcde");
    assert_eq!(pad_right("\u{e9}", 3), format!("{:<3}", "\u{e9}"));
    assert_eq!(dashes(3), "---");
}

#[test]
fn only_the_letter_y_is_a_yes() {
    for sample in ["y", "Y", "", "n", "yes", " y", "\u{fd}"] {
        assert_eq!(says_yes(&sample.to_string()), sample.eq_ignore_ascii_case("y"));
    }
}

#[test]
fn maps_hold_each_key_once() {
    let mut map = TextMap::new();
    assert_eq!(map.len(), 0);
    map.insert("a".to_string(), "1".to_string());
    map.insert("b".to_string(), "2".to_string());
    map.insert("a".to_string(), "3".to_string());
    assert_eq!(map.len(), 2);
    assert_eq!(map.get("a").map(|value| value.as_str()), Some("3"));
    assert_eq!(map.get("b").map(|value| value.as_str()), Some("2"));
    assert!(map.get("c").is_none());
    assert_eq!(map.key(0), "a");
    assert_eq!(map.value(1), "2");
}
