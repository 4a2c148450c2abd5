use neta::text::{
    bytes_spell, characters, find, push_decimal, push_signed, read_digits, read_signed,
    read_unsigned, same_text, text_of, trim, white_space, words,
};

fn chars(text: &str) -> Vec<char> {
    text.chars().collect()
}

#[test]
fn white_space_is_that_of_unicode() {
    for code in 0..=0x10_ffff_u32 {
        if let Some(character) = char::from_u32(code) {
            assert_eq!(
                white_space(character),
                character.is_whitespace(),
                "{code:x}"
            );
        }
    }
}

#[test]
fn texts_are_trimmed_and_split_at_white_space() {
    for text in ["", "  ", "a", " a b ", "\ta\u{a0}b\n\nc", "one\u{3000}two "] {
        let letters = chars(text);
        assert_eq!(text_of(trim(&letters)), text.trim());
        let split: Vec<String> = words(&letters).iter().map(|word| text_of(word)).collect();
        let expected: Vec<&str> = text.split_whitespace().collect();
        assert_eq!(split, expected);
        assert_eq!(characters(text), letters);
    }
    assert_eq!(find(&chars("a=b=c"), '=', 2), 3);
    assert_eq!(find(&chars("abc"), '=', 1), 3);
}

#[test]
fn numbers_are_written_and_read_back() {
    for number in [0_u64, 7, 10, 4_096, 99_999, u64::MAX] {
        let mut text = String::from("n");
        push_decimal(&mut text, number);
        assert_eq!(text, format!("n{number}"));
        let digits = chars(&number.to_string());
        assert_eq!(read_digits(&digits, u64::MAX), Some(number));
        assert_eq!(read_unsigned(&digits, u64::MAX), Some(number));
    }
    for number in [0_i32, 5, -5, i32::MAX, i32::MIN] {
        let mut text = String::new();
        push_signed(&mut text, number);
        assert_eq!(text, number.to_string());
        let limit = i32::MAX as u64;
        assert_eq!(
            read_signed(&chars(&text), limit),
            Some(i128::from(number))
        );
    }
    assert_eq!(read_digits(&chars("256"), 255), None);
    assert_eq!(read_digits(&chars(""), 255), None);
    assert_eq!(read_digits(&chars("1x"), 255), None);
    assert_eq!(read_digits(&chars("+1"), 255), None);
    assert_eq!(read_unsigned(&chars("+12"), 255), Some(12));
    assert_eq!(read_unsigned(&chars("+"), 255), None);
    assert_eq!(read_unsigned(&chars("-1"), 255), None);
    assert_eq!(read_signed(&chars("-128"), 127), Some(-128));
    assert_eq!(read_signed(&chars("-129"), 127), None);
    assert_eq!(read_signed(&chars("128"), 127), None);
    assert_eq!(read_signed(&chars("--1"), 127), None);
    assert_eq!(
        read_digits(&chars("99999999999999999999999999999999999999999"), u64::MAX),
        None
    );
}

#[test]
fn texts_are_compared_letter_by_letter() {
    assert!(same_text("l\u{ed}nea", "l\u{ed}nea"));
    assert!(!same_text("linea", "l\u{ed}nea"));
    assert!(!same_text("lin", "linea"));
    assert!(bytes_spell("\u{2028}".as_bytes(), "\u{2028}"));
    assert!(!bytes_spell(b"a", "b"));
}
