use aam_rs::number::{append_decimal, is_float, is_hex, is_u32, parse_i32};
use aam_rs::text::{
    char_is_space, chars_are, chars_are_ignoring_case, lower_char, same_text, split_at_each,
    split_lines, to_chars, trim,
};

#[test]
fn white_space_is_what_std_calls_white_space() {
    for code in 0u32..=0x10ffff {
        if let Some(c) = char::from_u32(code) {
            assert_eq!(char_is_space(c), c.is_whitespace(), "U+{:04X}", code);
        }
    }
}

#[test]
fn lower_char_is_ascii_lowercase() {
    for code in 0u32..=0x10ffff {
        if let Some(c) = char::from_u32(code) {
            assert_eq!(lower_char(c), c.to_ascii_lowercase(), "U+{:04X}", code);
        }
    }
}

#[test]
fn to_chars_gives_every_character() {
    assert_eq!(to_chars("aé😀"), vec!['a', 'é', '😀']);
    assert_eq!(to_chars(""), Vec::<char>::new());
}

#[test]
fn chars_are_compares_whole_texts() {
    let v = to_chars("type");
    assert!(chars_are(&v, "type"));
    assert!(!chars_are(&v, "typo"));
    assert!(!chars_are(&v, "typ"));
    assert!(!chars_are(&v, "types"));
    assert!(same_text("", ""));
    assert!(!same_text("a", "A"));
}

#[test]
fn ignoring_case_is_about_ascii_letters_only() {
    let v = to_chars("TrUe");
    assert!(chars_are_ignoring_case(&v, "true"));
    assert!(!chars_are_ignoring_case(&v, "tru"));
    let kelvin = to_chars("\u{212a}");
    assert!(!chars_are_ignoring_case(&kelvin, "k"));
}

#[test]
fn trim_is_std_trim() {
    let cases = [
        "",
        " ",
        "a",
        "  a  ",
        "\t a b \r\n",
        "\u{a0}x\u{3000}",
        "\u{2028}\u{2029}",
        " é ",
        "a \u{85}",
        "\u{200b}a\u{200b}",
        "\u{180e}a",
    ];
    for case in cases {
        assert_eq!(trim(case), case.trim(), "{:?}", case);
    }
}

#[test]
fn lines_are_std_lines() {
    let cases = [
        "",
        "a",
        "a\n",
        "a\nb",
        "a\r\nb\r\n",
        "\n",
        "\n\n",
        "a\r",
        "a\r\n\r",
        "\r\n",
        "a\n\rb",
        "foo\r\nbar\n\nbaz\r",
        "a\r\r\nb",
        "é\nü\n",
    ];
    for case in cases {
        let expected: Vec<&str> = case.lines().collect();
        assert_eq!(split_lines(case), expected, "{:?}", case);
    }
}

#[test]
fn lines_of_the_documented_example() {
    assert_eq!(split_lines("foo\r\nbar\n\nbaz\r"), vec!["foo", "bar", "", "baz\r"]);
}

#[test]
fn split_is_std_split() {
    let cases = ["", ",", "a", "a,b", "a,,b", ",a,", "1, 2 ,3", "é,ü"];
    for case in cases {
        let expected: Vec<&str> = case.split(',').collect();
        assert_eq!(split_at_each(case, ','), expected, "{:?}", case);
    }
}

const NUMBER_TEXTS: [&str; 64] = [
    "",
    "0",
    "1",
    "-1",
    "+1",
    "42",
    "007",
    "-0",
    "+0",
    "2147483647",
    "2147483648",
    "-2147483648",
    "-2147483649",
    "4294967295",
    "4294967296",
    "99999999999999999999999",
    "00000000000000000000001",
    "+",
    "-",
    "+-1",
    "--1",
    "1-",
    " 1",
    "1 ",
    "1.5",
    ".5",
    "5.",
    ".",
    "+.5",
    "-.5e3",
    "1e5",
    "1E5",
    "1e+5",
    "1e-5",
    "1e",
    "1e+",
    "e5",
    ".e5",
    "5.e3",
    "1.5.2",
    "1e5.0",
    "1e5e5",
    "inf",
    "INF",
    "-inf",
    "+Infinity",
    "infinity",
    "infinit",
    "infinityy",
    "nan",
    "NaN",
    "-nan",
    "na",
    "0x10",
    "1_000",
    "1,5",
    "١",
    "１",
    "FF00FF",
    "ff00ff80",
    "+ff",
    "-ff",
    "GG",
    "1e400",
];

#[test]
fn parse_i32_is_std_parse() {
    for text in NUMBER_TEXTS {
        assert_eq!(parse_i32(text), text.parse::<i32>().ok(), "{:?}", text);
    }
}

#[test]
fn parse_i32_gives_the_value() {
    assert_eq!(parse_i32("42"), Some(42));
    assert_eq!(parse_i32("-2147483648"), Some(i32::MIN));
    assert_eq!(parse_i32("+2147483647"), Some(i32::MAX));
    assert_eq!(parse_i32("2147483648"), None);
}

#[test]
fn is_u32_is_std_parse() {
    for text in NUMBER_TEXTS {
        assert_eq!(is_u32(text), text.parse::<u32>().is_ok(), "{:?}", text);
    }
}

#[test]
fn is_float_is_std_parse() {
    for text in NUMBER_TEXTS {
        assert_eq!(is_float(text), text.parse::<f64>().is_ok(), "{:?}", text);
    }
}

#[test]
fn is_hex_is_digits_only() {
    for text in NUMBER_TEXTS {
        let expected = !text.is_empty() && text.chars().all(|c| c.is_ascii_hexdigit());
        assert_eq!(is_hex(text), expected, "{:?}", text);
    }
    assert!(is_hex("ff00ff80"));
    assert!(is_hex("0"));
    assert!(!is_hex("+ff"));
    assert!(!is_hex("-ff"));
    assert!(!is_hex(""));
}

#[test]
fn is_hex_without_a_sign_is_std_from_str_radix() {
    for text in NUMBER_TEXTS {
        if text.chars().count() <= 16 && !text.starts_with('+') {
            assert_eq!(is_hex(text), u64::from_str_radix(text, 16).is_ok(), "{:?}", text);
        }
    }
}

#[test]
fn append_decimal_is_std_to_string() {
    for n in [0usize, 1, 9, 10, 11, 99, 100, 101, 12345, 4294967295, usize::MAX] {
        let mut out = String::from("n=");
        append_decimal(&mut out, n);
        assert_eq!(out, format!("n={}", n));
    }
}
