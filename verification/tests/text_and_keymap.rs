use heddle::keymap::KeybindingMap;
use heddle::text::{
    chars_eq, chars_of, has_prefix_in, has_suffix_in, is_whitespace_char, join_with_spaces,
    split_whitespace, str_eq, trim_bounds,
};

#[test]
fn whitespace_is_unicode_white_space() {
    for c in [' ', '\t', '\n', '\r', '\u{b}', '\u{c}', '\u{85}', '\u{a0}', '\u{2003}', '\u{3000}'] {
        assert!(is_whitespace_char(c), "{c:?}");
        assert!(c.is_whitespace());
    }
    for c in ['a', '0', '-', '\u{200b}', '\u{feff}'] {
        assert!(!is_whitespace_char(c), "{c:?}");
        assert_eq!(c.is_whitespace(), false);
    }
}

#[test]
fn splitting_on_whitespace_agrees_with_std() {
    for s in ["", "   ", "a", " a  b\tc\n", "ctrl-x 8", "\u{3000}x\u{a0}y "] {
        let ours = split_whitespace(s);
        let std_words: Vec<&str> = s.split_whitespace().collect();
        assert_eq!(ours, std_words, "{s:?}");
    }
}

#[test]
fn joining_puts_one_space_between_parts() {
    assert_eq!(join_with_spaces(&vec![]), "");
    assert_eq!(join_with_spaces(&vec!["a".to_string()]), "a");
    assert_eq!(
        join_with_spaces(&vec!["ctrl-p".to_string(), "1".to_string(), "x".to_string()]),
        "ctrl-p 1 x"
    );
}

#[test]
fn trimming_agrees_with_std() {
    for s in ["", "  ", " a ", "a", "\n x y\t", "\u{a0}z\u{2028}"] {
        let chars = chars_of(s);
        let (lo, hi) = trim_bounds(&chars);
        let trimmed: String = chars[lo..hi].iter().collect();
        assert_eq!(trimmed, s.trim(), "{s:?}");
    }
}

#[test]
fn string_equality_compares_characters() {
    assert!(str_eq("abc", "abc"));
    assert!(!str_eq("abc", "abd"));
    assert!(!str_eq("abc", "ab"));
    assert!(chars_eq(&chars_of("é"), &vec!['é']));
    assert_eq!(chars_of("aé"), vec!['a', 'é']);
}

#[test]
fn prefixes_and_suffixes_are_checked_within_bounds() {
    let chars = chars_of("xxhello.gityy");
    assert!(has_prefix_in(&chars, 2, 11, "hello"));
    assert!(!has_prefix_in(&chars, 0, 11, "hello"));
    assert!(has_suffix_in(&chars, 2, 11, ".git"));
    assert!(!has_suffix_in(&chars, 2, 13, ".git"));
    assert!(!has_prefix_in(&chars, 2, 4, "hello"));
}

#[test]
fn the_map_keeps_one_value_per_name() {
    let mut map = KeybindingMap::new();
    assert_eq!(map.len(), 0);
    map.insert("a".to_string(), 1u8);
    map.insert("b".to_string(), 2u8);
    map.insert("a".to_string(), 3u8);
    assert_eq!(map.len(), 2);
    assert_eq!(map.get("a"), Some(&3u8));
    assert_eq!(map.get("b"), Some(&2u8));
    assert_eq!(map.get("c"), None);
    assert_eq!(map.remove("a"), Some(3u8));
    assert_eq!(map.remove("a"), None);
    assert!(!map.contains_key("a"));
    assert!(map.contains_key("b"));
    assert_eq!(map.into_entries(), vec![("b".to_string(), 2u8)]);
}
