use mochiclaw::text::{
    contains_str, count_str, decimal_string, escape_quotes_str, find_str, replace_str, signed_decimal_string, split_on,
    starts_with, trim, utf8_len_capped,
};

#[test]
fn test_text_helpers() {
    assert!(starts_with("mochiclaw.log", "mochi"));
    assert!(!starts_with("mo", "mochi"));
    assert!(contains_str("always = true", "always"));
    assert!(contains_str("x", ""));
    assert!(!contains_str("abc", "abd"));
    assert_eq!(replace_str("a\r\nb\r\n", "\r\n", "\n"), "a\nb\n");
    assert_eq!(replace_str("ab", "", "-"), "-a-b-");
    assert_eq!(replace_str("aaa", "aa", "b"), "ba");
    assert_eq!(count_str("aaaa", "aa"), 2);
    assert_eq!(count_str("ab", ""), 3);
    assert_eq!(find_str("hello", "ll"), Some(2));
    assert_eq!(find_str("hello", "z"), None);
    assert_eq!(split_on("a.b..c", '.'), vec!["a", "b", "", "c"]);
    assert_eq!(split_on("", '.'), vec![""]);
    assert_eq!(trim("\t  hi there \u{3000}"), "hi there");
    assert_eq!(trim("   "), "");
    assert_eq!(escape_quotes_str("a\"b\\c"), "a\\\"b\\\\c");
    assert_eq!(decimal_string(0), "0");
    assert_eq!(decimal_string(1234567890), "1234567890");
    assert_eq!(signed_decimal_string(i64::MIN), "-9223372036854775808");
    assert_eq!(utf8_len_capped("héllo", 100), 6);
    assert_eq!(utf8_len_capped("héllo", 3), 3);
}

#[test]
fn test_padded_decimal() {
    assert_eq!(mochiclaw::clock::padded_decimal(7, 2), "07");
    assert_eq!(mochiclaw::clock::padded_decimal(0, 2), "00");
    assert_eq!(mochiclaw::clock::padded_decimal(2026, 4), "2026");
    assert_eq!(mochiclaw::clock::padded_decimal(123, 2), "123");
}

#[test]
fn test_written_time() {
    let p = mochiclaw::clock::TimeParts { year: 2026, month: 3, day: 8, hour: 9, minute: 5, second: 7, nanosecond: 0 };
    assert_eq!(mochiclaw::clock::written_time(None, &p, " ", " UTC"), "2026-03-08 09:05:07 UTC");
    assert_eq!(mochiclaw::clock::written_time(None, &p, "T", "Z"), "2026-03-08T09:05:07Z");
    assert_eq!(mochiclaw::clock::written_time(Some("given".to_string()), &p, "T", "Z"), "given");
}

#[test]
fn test_clock_texts_have_their_shape() {
    let iso = mochiclaw::session::chrono_now();
    let b: Vec<char> = iso.chars().collect();
    assert_eq!(b.len(), 20);
    assert_eq!((b[4], b[7], b[10], b[13], b[16], b[19]), ('-', '-', 'T', ':', ':', 'Z'));
    let shown = mochiclaw::context::current_time_str();
    assert!(shown.ends_with(" UTC"));
    assert_eq!(shown.chars().nth(10), Some(' '));
}
