use lemurs::bytes::{u16_from_be, u16_to_be, u32_from_be, u32_to_be, u64_from_be, u64_to_be};
use lemurs::text::{
    characters, is_whitespace, parse_digits, parse_signed, parse_unsigned, same_word, scan,
    split_words, word_ends_with, word_is, Class,
};

fn chars(s: &str) -> Vec<char> {
    s.chars().collect()
}

#[test]
fn white_space_is_what_unicode_says() {
    for n in 0..=0x10FFFFu32 {
        if let Some(c) = char::from_u32(n) {
            assert_eq!(is_whitespace(c), c.is_whitespace(), "U+{:04X}", n);
        }
    }
}

#[test]
fn characters_of_a_string() {
    assert_eq!(characters(""), Vec::<char>::new());
    assert_eq!(characters("ab c"), vec!['a', 'b', ' ', 'c']);
    assert_eq!(characters("é\u{3000}𝄞"), vec!['é', '\u{3000}', '𝄞']);
}

#[test]
fn scanning_runs() {
    let text = chars("  ab;c\nd");
    assert_eq!(scan(&text, 0, Class::Space), 2);
    assert_eq!(scan(&text, 2, Class::Space), 2);
    assert_eq!(scan(&text, 2, Class::Word), 6);
    assert_eq!(scan(&text, 0, Class::Word), 0);
    assert_eq!(scan(&text, 0, Class::Except(';')), 4);
    assert_eq!(scan(&text, 5, Class::Except(';')), 8);
    assert_eq!(scan(&text, 0, Class::Except('\n')), 6);
    assert_eq!(scan(&text, 7, Class::Except('\n')), 8);
    assert_eq!(scan(&text, 8, Class::Except('\n')), 8);
    assert_eq!(scan(&[], 0, Class::Word), 0);
    assert!(Class::Space.contains('\t'));
    assert!(!Class::Word.contains('\t'));
    assert!(Class::Except('x').contains('\t'));
    assert!(!Class::Except('x').contains('x'));
}

#[test]
fn words_are_what_white_space_separates() {
    for text in [
        "",
        " ",
        "a",
        " a",
        "a ",
        "  one two\tthree\r\nfour  ",
        "x\u{00A0}y\u{2003}z\u{85}w",
        "tab\tseparated\u{000B}and\u{000C}more",
        "\u{200B}zero-width is no space\u{FEFF}",
    ] {
        let text_chars = chars(text);
        let found: Vec<String> = split_words(&text_chars)
            .into_iter()
            .map(|w| w.iter().collect())
            .collect();
        let expected: Vec<String> = text.split_whitespace().map(|w| w.to_string()).collect();
        assert_eq!(found, expected, "{:?}", text);
    }
}

#[test]
fn comparing_words() {
    assert!(word_is(&chars("output"), "output"));
    assert!(!word_is(&chars("outpu"), "output"));
    assert!(!word_is(&chars("outputw"), "output"));
    assert!(!word_is(&chars("Output"), "output"));
    assert!(word_is(&chars(""), ""));
    assert!(!word_is(&chars(""), "a"));
    assert!(!word_is(&chars("a"), ""));
    assert!(same_word(&chars("abc"), &chars("abc")));
    assert!(!same_word(&chars("abc"), &chars("abd")));
    assert!(!same_word(&chars("abc"), &chars("ab")));
    assert!(same_word(&[], &[]));
    assert!(word_ends_with(&chars("addcimm"), &chars("imm")));
    assert!(word_ends_with(&chars("imm"), &chars("imm")));
    assert!(!word_ends_with(&chars("mm"), &chars("imm")));
    assert!(!word_ends_with(&chars("immw"), &chars("imm")));
    assert!(word_ends_with(&chars("abc"), &[]));
}

#[test]
fn unsigned_literals_are_read_as_by_the_integer_types() {
    for text in [
        "", "+", "-", "0", "7", "007", "+7", "-7", "-0", "+0", "255", "256", "0255", "99999",
        "1x", "x1", " 1", "1 ", "++1", "+-1", "١", "4294967295", "4294967296",
        "18446744073709551615", "18446744073709551616", "184467440737095516150",
        "000000000000000000000000000001",
    ] {
        let text_chars = chars(text);
        assert_eq!(
            parse_unsigned(&text_chars, 255),
            text.parse::<u8>().ok().map(|v| v as u64),
            "{:?}",
            text
        );
        assert_eq!(
            parse_unsigned(&text_chars, u32::MAX as u64),
            text.parse::<u32>().ok().map(|v| v as u64),
            "{:?}",
            text
        );
        assert_eq!(parse_unsigned(&text_chars, u64::MAX), text.parse::<u64>().ok(), "{:?}", text);
    }
    assert_eq!(parse_digits(&chars("12"), 12), Some(12));
    assert_eq!(parse_digits(&chars("13"), 12), None);
    assert_eq!(parse_digits(&chars("+1"), 12), None);
    assert_eq!(parse_digits(&chars("0"), 0), Some(0));
    assert_eq!(parse_digits(&chars("1"), 0), None);
}

#[test]
fn signed_literals_are_read_as_by_the_integer_types() {
    for text in [
        "", "+", "-", "0", "-0", "+0", "7", "-7", "+7", "32767", "32768", "-32768", "-32769",
        "--1", "-+1", "+-1", "1-", "-1x", "-00032768", "65535", "-65536",
    ] {
        let found = parse_signed(&chars(text), 0x7fff).map(|(negative, magnitude)| {
            if negative {
                -(magnitude as i64)
            } else {
                magnitude as i64
            }
        });
        assert_eq!(found, text.parse::<i16>().ok().map(|v| v as i64), "{:?}", text);
    }
    assert_eq!(parse_signed(&chars("-0"), 0x7fff), Some((false, 0)));
    assert_eq!(parse_signed(&chars("-5"), 0x7fff), Some((true, 5)));
}

#[test]
fn big_endian_bytes() {
    for v in [0u16, 1, 0x00FF, 0x0100, 0x1234, 0xFFFF] {
        assert_eq!(u16_to_be(v), v.to_be_bytes());
        let [hi, lo] = v.to_be_bytes();
        assert_eq!(u16_from_be(hi, lo), v);
    }
    for v in [0u32, 1, 0xFF, 0x100, 0x1234_5678, 0x8000_0000, 0xFFFF_FFFF] {
        assert_eq!(u32_to_be(v), v.to_be_bytes());
        assert_eq!(u32_from_be(&v.to_be_bytes()), v);
    }
    for v in [0u64, 1, 0x1234_5678_9ABC_DEF0, 0x8000_0000_0000_0000, u64::MAX] {
        assert_eq!(u64_to_be(v), v.to_be_bytes());
        assert_eq!(u64_from_be(&v.to_be_bytes()), v);
    }
}
