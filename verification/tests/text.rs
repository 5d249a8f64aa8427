use hypr_workstyle::text::{chars_of, contains_text, decimal_string, join_strings};

#[test]
fn decimal_of_zero() {
    assert_eq!(decimal_string(0), "0");
}

#[test]
fn decimal_of_single_digits() {
    assert_eq!(decimal_string(5), "5");
    assert_eq!(decimal_string(9), "9");
}

#[test]
fn decimal_of_several_digits() {
    assert_eq!(decimal_string(10), "10");
    assert_eq!(decimal_string(1234567890), "1234567890");
    assert_eq!(decimal_string(100), "100");
}

#[test]
fn decimal_of_negative_numbers() {
    assert_eq!(decimal_string(-1), "-1");
    assert_eq!(decimal_string(-98), "-98");
    assert_eq!(decimal_string(-1337), "-1337");
}

#[test]
fn decimal_of_the_extremes() {
    assert_eq!(decimal_string(i32::MAX), "2147483647");
    assert_eq!(decimal_string(i32::MIN), "-2147483648");
}

#[test]
fn decimal_agrees_with_std_formatting() {
    let samples: Vec<i32> = vec![0, 1, -1, 7, 42, -42, 99, 100, 101, 65535, -65536, 999999999];
    for n in samples {
        assert_eq!(decimal_string(n), format!("{}", n));
    }
}

#[test]
fn join_of_nothing_is_empty() {
    let parts: Vec<String> = vec![];
    assert_eq!(join_strings(&parts, " "), "");
}

#[test]
fn join_of_one_part_is_the_part() {
    let parts = vec![String::from("a")];
    assert_eq!(join_strings(&parts, " "), "a");
}

#[test]
fn join_puts_the_separator_between_neighbours_only() {
    let parts = vec![String::from("a"), String::from("b"), String::from("c")];
    assert_eq!(join_strings(&parts, " "), "a b c");
    assert_eq!(join_strings(&parts, ", "), "a, b, c");
}

#[test]
fn join_keeps_empty_parts() {
    let parts = vec![String::from("a"), String::new(), String::from("b")];
    assert_eq!(join_strings(&parts, " "), "a  b");
}

#[test]
fn chars_of_keeps_every_character_in_order() {
    assert_eq!(chars_of("a🌐b"), vec!['a', '🌐', 'b']);
    assert_eq!(chars_of(""), Vec::<char>::new());
}

#[test]
fn contains_text_finds_a_piece_anywhere() {
    assert!(contains_text("Mozilla Firefox", "Mozilla"));
    assert!(contains_text("Mozilla Firefox", "Firefox"));
    assert!(contains_text("Mozilla Firefox", "la Fi"));
    assert!(contains_text("abc", "abc"));
}

#[test]
fn contains_text_rejects_what_is_not_there() {
    assert!(!contains_text("Mozilla Firefox", "firefox"));
    assert!(!contains_text("abc", "abcd"));
    assert!(!contains_text("abc", "ac"));
    assert!(!contains_text("", "a"));
}

#[test]
fn contains_text_finds_the_empty_piece_everywhere() {
    assert!(contains_text("abc", ""));
    assert!(contains_text("", ""));
}

#[test]
fn contains_text_counts_characters_not_bytes() {
    assert!(contains_text("日本語のタイトル", "タイトル"));
    assert!(contains_text("🌐 web", "web"));
    assert!(!contains_text("日本語", "本日"));
}

#[test]
fn contains_text_survives_repeated_prefixes() {
    assert!(contains_text("aaab", "aab"));
    assert!(!contains_text("aaaa", "aab"));
}
