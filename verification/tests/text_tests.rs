use wait::text::{
    chars_of, decimal, index_of, is_whitespace, join_path, parse_i32, parse_i64, parse_u64,
    same_text, text_of,
};

#[test]
fn white_space_is_what_std_calls_white_space() {
    let mut c = 0u32;
    while c <= 0x10FFFF {
        if let Some(ch) = char::from_u32(c) {
            assert_eq!(is_whitespace(ch), ch.is_whitespace(), "U+{:04X}", c);
        }
        c += 1;
    }
}

#[test]
fn signed_numbers_are_read_as_std_reads_them() {
    let samples = [
        "0", "7", "-7", "+7", "007", "-0", "+0", "", "-", "+", "--1", "+-1", " 1", "1 ", "1a",
        "a1", "12345678901234567890", "9223372036854775807", "9223372036854775808",
        "-9223372036854775808", "-9223372036854775809", "2147483647", "2147483648",
        "-2147483648", "-2147483649", "76561198000000001", "１２", "1_000", "0x10", "1.0",
        "00000000000000000000000000000001", "+00000000000000000000000000000009",
    ];
    for s in samples {
        assert_eq!(parse_i64(s), s.parse::<i64>().ok(), "i64 {:?}", s);
        assert_eq!(parse_i32(s), s.parse::<i32>().ok(), "i32 {:?}", s);
    }
}

#[test]
fn unsigned_numbers_are_read_as_std_reads_them() {
    let samples = [
        "0", "7", "-7", "+7", "-0", "", "-", "+", "18446744073709551615",
        "18446744073709551616", "1700000000", "abc", "12 ", "0000018446744073709551615",
    ];
    for s in samples {
        assert_eq!(parse_u64(s), s.parse::<u64>().ok(), "u64 {:?}", s);
    }
}

#[test]
fn exact_values_of_numbers() {
    assert_eq!(parse_i64("76561198000000001"), Some(76561198000000001));
    assert_eq!(parse_i64("-9223372036854775808"), Some(i64::MIN));
    assert_eq!(parse_i32("440"), Some(440));
    assert_eq!(parse_i32("-2147483648"), Some(i32::MIN));
    assert_eq!(parse_u64("18446744073709551615"), Some(u64::MAX));
    assert_eq!(parse_i32("four"), None);
}

#[test]
fn numbers_are_written_in_decimal() {
    let samples = [0i64, 1, 9, 10, 11, 99, 100, 440, -1, -10, -440, i64::MAX, i64::MIN, 39734273];
    for n in samples {
        assert_eq!(decimal(n), n.to_string());
        assert_eq!(parse_i64(&decimal(n)), Some(n));
    }
    assert_eq!(decimal(-9223372036854775808), "-9223372036854775808");
}

#[test]
fn paths_are_joined_with_a_backslash() {
    assert_eq!(join_path("C:\\Steam", "config"), "C:\\Steam\\config");
    assert_eq!(join_path("", "x"), "\\x");
    assert_eq!(join_path("c:/program files (x86)/steam", "steam.exe"), "c:/program files (x86)/steam\\steam.exe");
}

#[test]
fn characters_and_strings() {
    let chars = chars_of("héllo \"x\"");
    assert_eq!(chars, "héllo \"x\"".chars().collect::<Vec<char>>());
    assert_eq!(text_of(&chars, 1, 5), "éllo");
    assert_eq!(text_of(&chars, 3, 3), "");
    assert_eq!(index_of(&chars, '"', 0), 6);
    assert_eq!(index_of(&chars, '"', 7), 8);
    assert_eq!(index_of(&chars, 'z', 0), chars.len());
    assert!(same_text("abc", "abc"));
    assert!(!same_text("abc", "abC"));
    assert!(!same_text("abc", "abcd"));
}
