use ksud::bytes::{read_u16_le, read_u32_le, read_u64_le, string_from_nul, to_hex};
use ksud::number::{format_i32, format_u64, parse_i32, parse_unsigned};
use ksud::text::{
    chars_eq, chars_of, find_chars, is_white_space, lower_chars, next_word, split_chars, str_eq,
    string_of, strip_prefix_chars, strip_suffix_chars, trim_str,
};

fn chars(s: &str) -> Vec<char> {
    s.chars().collect()
}

#[test]
fn white_space_is_that_of_char() {
    for n in 0..=0x10ffff {
        if let Some(c) = char::from_u32(n) {
            assert_eq!(is_white_space(c), c.is_whitespace());
        }
    }
}

#[test]
fn text_goes_to_characters_and_back() {
    for s in ["", "a", "häß\u{1f600}", "\0\r\n"] {
        assert_eq!(chars_of(s), chars(s));
        assert_eq!(string_of(&chars_of(s)), s);
    }
}

#[test]
fn pushed_characters_stand_at_the_end() {
    let pushed = string_of(&['x', 'ß', 'y']);
    assert_eq!(pushed, "xßy");
    assert_eq!(pushed.len(), 4);
}

#[test]
fn texts_are_compared() {
    assert!(str_eq("", ""));
    assert!(str_eq("häß", "häß"));
    assert!(!str_eq("ab", "a"));
    assert!(!str_eq("ab", "ac"));
    assert!(chars_eq(&chars("häß"), "häß"));
    assert!(!chars_eq(&chars("hä"), "häß"));
    assert!(!chars_eq(&chars("haß"), "häß"));
}

#[test]
fn trimming_is_that_of_str() {
    for s in ["", " ", "a", " a", "a ", "\u{a0} a b\t\r\n", "\u{200b}x", "\u{3000}\u{85}", "a\n"] {
        assert_eq!(trim_str(s), s.trim());
    }
}

#[test]
fn words_are_those_of_split_whitespace() {
    for s in ["", "  ", "a", " a  b\tc ", "GET / HTTP/1.1", "\u{2003}x\u{2029}y"] {
        let cs = chars(s);
        let mut rest = cs.as_slice();
        let mut found = Vec::new();
        while let Some((word, more)) = next_word(rest) {
            found.push(string_of(word));
            rest = more;
        }
        let expected: Vec<&str> = s.split_whitespace().collect();
        assert_eq!(found, expected);
    }
}

#[test]
fn splitting_is_that_of_str() {
    for (s, pat) in [
        ("", "?"),
        ("a", "?"),
        ("a?b", "?"),
        ("?", "?"),
        ("a??b?", "?"),
        ("a\r\nb\r\n\r\n", "\r\n"),
        ("\r\r\n\n", "\r\n"),
        ("aaa", "aa"),
    ] {
        let (cs, ps) = (chars(s), chars(pat));
        let found: Vec<String> = split_chars(&cs, &ps).iter().map(|x| string_of(x)).collect();
        let expected: Vec<&str> = s.split(pat).collect();
        assert_eq!(found, expected);
    }
}

#[test]
fn the_first_place_is_found() {
    assert_eq!(find_chars(&chars("abcabc"), &chars("ca")), Some(2));
    assert_eq!(find_chars(&chars("abcabc"), &chars("abc")), Some(0));
    assert_eq!(find_chars(&chars("abc"), &chars("abcd")), None);
    assert_eq!(find_chars(&chars(""), &chars("a")), None);
}

#[test]
fn small_letters_are_those_of_ascii() {
    for s in ["", "Content-Length", "ÄÖß[@Z{", "aZ09"] {
        assert_eq!(lower_chars(&chars(s)), s.to_ascii_lowercase());
    }
}

#[test]
fn prefixes_and_suffixes_are_taken_off() {
    let cs = chars("/api/x");
    assert_eq!(strip_prefix_chars(&cs, "/api/"), Some(&['x'][..]));
    assert_eq!(strip_prefix_chars(&cs, "/api/x"), Some(&[][..]));
    assert_eq!(strip_prefix_chars(&cs, "/api/xy"), None);
    assert_eq!(strip_prefix_chars(&cs, "api"), None);
    assert_eq!(strip_suffix_chars(&cs, "i/x").map(|c| string_of(c)), Some("/ap".to_string()));
    assert_eq!(strip_suffix_chars(&cs, ""), Some(&cs[..]));
    assert_eq!(strip_suffix_chars(&cs, "//api/x"), None);
    assert_eq!(strip_suffix_chars(&cs, "/y"), None);
}

#[test]
fn numbers_are_read_as_by_parse() {
    let texts = [
        "", "+", "-", "0", "7", "007", "+5", "-5", "--5", "++5", "+-5", " 5", "5 ", "1_0", "٣",
        "4294967295", "4294967296", "2147483647", "2147483648", "-2147483648", "-2147483649", "-0",
        "18446744073709551615", "18446744073709551616", "99999999999999999999999999", "1a", "0x1",
    ];
    for s in texts {
        let cs = chars(s);
        assert_eq!(parse_unsigned(&cs, u64::MAX), s.parse::<u64>().ok(), "{}", s);
        assert_eq!(
            parse_unsigned(&cs, u64::from(u32::MAX)),
            s.parse::<u32>().ok().map(u64::from),
            "{}",
            s
        );
        assert_eq!(parse_i32(&cs), s.parse::<i32>().ok(), "{}", s);
    }
}

#[test]
fn numbers_read_back_as_written() {
    for n in [0, 7, 10, 99, 100, 4294967296, u64::MAX] {
        assert_eq!(format_u64(n), n.to_string());
        assert_eq!(parse_unsigned(&chars(&format_u64(n)), u64::MAX), Some(n));
    }
    for n in [0, 5, -5, 10, -10, i32::MAX, i32::MIN] {
        assert_eq!(format_i32(n), n.to_string());
        assert_eq!(parse_i32(&chars(&format_i32(n))), Some(n));
    }
}

#[test]
fn bytes_are_read_least_significant_first() {
    let bytes = [1, 2, 3, 4, 5, 6, 7, 8, 0xff];
    assert_eq!(read_u16_le(&bytes, 0), Some(0x0201));
    assert_eq!(read_u16_le(&bytes, 7), Some(0xff08));
    assert_eq!(read_u16_le(&bytes, 8), None);
    assert_eq!(read_u32_le(&bytes, 1), Some(0x0504_0302));
    assert_eq!(read_u32_le(&bytes, 5), Some(0xff08_0706));
    assert_eq!(read_u32_le(&bytes, 6), None);
    assert_eq!(read_u64_le(&bytes, 0), Some(0x0807_0605_0403_0201));
    assert_eq!(read_u64_le(&bytes, 1), Some(0xff08_0706_0504_0302));
    assert_eq!(read_u64_le(&bytes, 2), None);
    assert_eq!(read_u64_le(&bytes, usize::MAX), None);
    assert_eq!(read_u16_le(&[], 0), None);
}

#[test]
fn bytes_have_two_hex_digits_each() {
    assert_eq!(to_hex(&[]), "");
    assert_eq!(to_hex(&[0x00, 0x0f, 0xa0, 0xff, 0x5c]), "000fa0ff5c");
    assert_ne!(to_hex(&[0x01, 0x10]), to_hex(&[0x10, 0x01]));
}

#[test]
fn text_ends_at_the_first_nul() {
    assert_eq!(string_from_nul(b"sh\0\0\0"), "sh");
    assert_eq!(string_from_nul(b"\0sh"), "");
    assert_eq!(string_from_nul(b"full"), "full");
    assert_eq!(string_from_nul("häß".as_bytes()), "häß");
}

#[test]
fn text_that_is_not_utf8_is_replaced() {
    assert_eq!(string_from_nul(b"a\xffb\0c"), "a\u{fffd}b");
    assert_eq!(string_from_nul(b"\xe2\x82"), "\u{fffd}");
}
