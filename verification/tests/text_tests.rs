use dsa_learning::text::{
    byte_length, char_width, chars_of, find_char, is_space, normalize_chars, push_decimal, split_chars,
    split_lines, starts_with, string_of, trimmed, trimmed_start,
};

fn to_string(chars: &Vec<char>) -> String {
    chars.iter().collect()
}

const SAMPLES: &[&str] = &[
    "",
    " ",
    "a",
    "  a  ",
    "\t\n a b \r\n",
    "a\nb",
    "a\r\nb\r\n",
    "a\rb\r",
    "\n",
    "\n\n",
    "\r\n",
    "\r",
    "a\n\nb\n",
    "x\u{a0}y\u{2007}z\u{202f}w",
    "\u{3000}wide\u{3000}",
    "\u{85}next\u{1680}",
    "one,two, three ,,four,",
    ",",
    "caf\u{e9} \u{4e2d}\u{6587} \u{1f600}",
    "  - item one\n  - item two\n",
    "a \u{200b} b",
    "tab\there",
];

#[test]
fn whitespace_is_the_unicode_property() {
    for u in 0..=0x10ffffu32 {
        if let Some(c) = char::from_u32(u) {
            assert_eq!(is_space(c), c.is_whitespace(), "U+{:04X}", u);
        }
    }
}

#[test]
fn char_width_is_the_utf8_length() {
    for u in 0..=0x10ffffu32 {
        if let Some(c) = char::from_u32(u) {
            assert_eq!(char_width(c) as usize, c.len_utf8(), "U+{:04X}", u);
        }
    }
}

#[test]
fn characters_round_trip() {
    for s in SAMPLES {
        let chars = chars_of(s);
        assert_eq!(chars, s.chars().collect::<Vec<char>>());
        assert_eq!(string_of(&chars), *s);
        assert_eq!(byte_length(&chars), s.len() as u128);
    }
}

#[test]
fn trimming_agrees_with_std() {
    for s in SAMPLES {
        let chars = chars_of(s);
        assert_eq!(to_string(&trimmed(&chars)), s.trim(), "{:?}", s);
        assert_eq!(to_string(&trimmed_start(&chars)), s.trim_start(), "{:?}", s);
    }
}

#[test]
fn lines_agree_with_std() {
    for s in SAMPLES {
        let found: Vec<String> = split_lines(&chars_of(s)).iter().map(to_string).collect();
        let expected: Vec<String> = s.lines().map(|l| l.to_string()).collect();
        assert_eq!(found, expected, "{:?}", s);
    }
}

#[test]
fn lines_of_named_texts() {
    let found: Vec<String> = split_lines(&chars_of("a\r\nb\n\nc\r")).iter().map(to_string).collect();
    assert_eq!(found, vec!["a", "b", "", "c\r"]);
    assert!(split_lines(&chars_of("")).is_empty());
    let one: Vec<String> = split_lines(&chars_of("\n")).iter().map(to_string).collect();
    assert_eq!(one, vec![""]);
}

#[test]
fn splitting_agrees_with_std() {
    for s in SAMPLES {
        let found: Vec<String> = split_chars(&chars_of(s), ',').iter().map(to_string).collect();
        let expected: Vec<String> = s.split(',').map(|l| l.to_string()).collect();
        assert_eq!(found, expected, "{:?}", s);
    }
}

#[test]
fn normalizing_agrees_with_std() {
    for s in SAMPLES {
        let expected = s.split_whitespace().collect::<Vec<&str>>().join(" ");
        assert_eq!(to_string(&normalize_chars(&chars_of(s))), expected, "{:?}", s);
    }
    assert_eq!(to_string(&normalize_chars(&chars_of("  a \t b\u{a0}\u{a0}c  "))), "a b c");
}

#[test]
fn finding_agrees_with_std() {
    for s in SAMPLES {
        let chars = chars_of(s);
        for wanted in [',', '\n', 'a', ' ', '\u{4e2d}'] {
            let expected = s.chars().position(|c| c == wanted);
            assert_eq!(find_char(&chars, wanted), expected, "{:?} {:?}", s, wanted);
        }
    }
}

#[test]
fn prefixes_agree_with_std() {
    for s in SAMPLES {
        for p in ["", "a", "  ", "one,", "caf\u{e9}", "x\u{a0}"] {
            assert_eq!(starts_with(s, p), s.starts_with(p), "{:?} {:?}", s, p);
        }
    }
}

#[test]
fn decimal_notation() {
    for n in [0u64, 1, 9, 10, 11, 99, 100, 12345, u64::MAX] {
        let mut out = vec!['#'];
        push_decimal(n, &mut out);
        assert_eq!(to_string(&out), format!("#{}", n));
    }
}
