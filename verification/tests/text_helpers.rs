use horizons::data::text::{
    characters, decimal_string, first_two_words, run_end, split_words, text_equal,
    text_precedes, whitespace,
};

#[test]
fn decimal_string_writes_integers() {
    assert_eq!(decimal_string(0), "0");
    assert_eq!(decimal_string(7), "7");
    assert_eq!(decimal_string(10), "10");
    assert_eq!(decimal_string(12345), "12345");
    assert_eq!(decimal_string(-1), "-1");
    assert_eq!(decimal_string(i32::MAX), "2147483647");
    assert_eq!(decimal_string(i32::MIN), "-2147483648");
}

#[test]
fn decimal_string_agrees_with_formatting() {
    for n in [-1000, -999, -10, -9, 9, 99, 100, 101, 65536, 1_000_000_007] {
        assert_eq!(decimal_string(n), format!("{}", n));
    }
}

#[test]
fn text_order_is_the_order_of_str() {
    let samples = ["", "a", "A", "ab", "abc", "abd", "b", "Zed", "zed", "é", "日本", "a b"];
    for a in samples {
        for b in samples {
            assert_eq!(text_precedes(a, b), a <= b);
            assert_eq!(text_equal(a, b), a == b);
        }
    }
}

#[test]
fn a_prefix_comes_first() {
    assert!(text_precedes("Quiz", "Quiz 1"));
    assert!(!text_precedes("Quiz 1", "Quiz"));
    assert!(text_precedes("", ""));
}

#[test]
fn whitespace_agrees_with_char() {
    for code in 0u32..0x3100 {
        if let Some(c) = char::from_u32(code) {
            assert_eq!(whitespace(c), c.is_whitespace());
        }
    }
    assert!(!whitespace('\u{FEFF}'));
    assert!(!whitespace('\u{200B}'));
}

#[test]
fn characters_are_copied_in_order() {
    assert_eq!(characters("aé日"), vec!['a', 'é', '日']);
    assert_eq!(characters(""), Vec::<char>::new());
}

#[test]
fn run_end_finds_the_end_of_a_run() {
    let chars = characters("  ab  c");
    assert_eq!(run_end(&chars, 0, true), 2);
    assert_eq!(run_end(&chars, 2, false), 4);
    assert_eq!(run_end(&chars, 4, true), 6);
    assert_eq!(run_end(&chars, 6, false), 7);
    assert_eq!(run_end(&chars, 7, false), 7);
    assert_eq!(run_end(&chars, 2, true), 2);
}

#[test]
fn split_words_agrees_with_split_whitespace() {
    let samples = [
        "",
        " ",
        "grades math",
        "  students\tbio   extra ",
        "one",
        "\u{2003}wide\u{3000}space\n",
        "é 日本 x",
    ];
    for s in samples {
        let expected: Vec<String> = s.split_whitespace().map(|w| w.to_string()).collect();
        assert_eq!(split_words(s), expected);
    }
}

#[test]
fn first_two_words_are_empty_where_missing() {
    assert_eq!(first_two_words("Fall 2024 x"), ("Fall".to_string(), "2024".to_string()));
    assert_eq!(first_two_words("Fall"), ("Fall".to_string(), String::new()));
    assert_eq!(first_two_words(" \n"), (String::new(), String::new()));
}
