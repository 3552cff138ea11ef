use tubecast::text::{
    contains, decimal, eq_ignore_ascii_case, join, lines, remove_space, replace, starts_with,
    to_ascii_lowercase, trim, trim_end_matches, two_digit,
};

const SAMPLES: [&str; 14] = [
    "",
    " ",
    "a",
    " a b ",
    "\u{a0}x\u{3000}",
    "a\nb",
    "a\r\nb\r\n",
    "\n\n",
    "a\rb\r",
    "aaaa",
    "//a//",
    "www.www.x",
    "Ünïcode É",
    "ABC xyz 123",
];

#[test]
fn white_space_is_what_unicode_says() {
    let spaces: Vec<u32> = (0..=0x10ffffu32)
        .filter_map(char::from_u32)
        .filter(|c| trim(&c.to_string()).is_empty())
        .map(|c| c as u32)
        .collect();
    let mut expected: Vec<u32> = (0x9..=0xd).collect();
    expected.extend([0x20, 0x85, 0xa0, 0x1680]);
    expected.extend(0x2000..=0x200a);
    expected.extend([0x2028, 0x2029, 0x202f, 0x205f, 0x3000]);
    assert_eq!(spaces, expected);
}

#[test]
fn texts_are_treated_as_std_treats_them() {
    for s in SAMPLES {
        assert_eq!(trim(s), s.trim());
        assert_eq!(trim_end_matches(s, '/'), s.trim_end_matches('/'));
        assert_eq!(lines(s), s.lines().collect::<Vec<_>>());
        assert_eq!(to_ascii_lowercase(s), s.to_ascii_lowercase());
        assert_eq!(remove_space(s), s.split_whitespace().collect::<String>());
        for t in SAMPLES {
            assert_eq!(contains(s, t), s.contains(t));
            assert_eq!(starts_with(s, t), s.starts_with(t));
            assert_eq!(eq_ignore_ascii_case(s, t), s.eq_ignore_ascii_case(t));
            if !t.is_empty() {
                assert_eq!(replace(s, t, "<>"), s.replace(t, "<>"));
            }
        }
    }
    assert_eq!(replace("aaaa", "aa", "b"), "bb");
    assert!(eq_ignore_ascii_case("AbC", "aBc"));
}

#[test]
fn numbers_are_written_as_std_writes_them() {
    for n in [0i128, 7, 10, 99, 100, -1, -9, -10, i64::MAX as i128, i64::MIN as i128, i128::MAX] {
        assert_eq!(decimal(n), format!("{n}"));
        assert_eq!(two_digit(n), format!("{n:02}"));
    }
}

#[test]
fn parts_are_joined() {
    let parts: Vec<String> = vec!["a".into(), "".into(), "b".into()];
    assert_eq!(join(&parts, ", "), "a, , b");
    assert_eq!(join(&Vec::new(), ", "), "");
}
