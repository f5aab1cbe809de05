use regbar::text::{char_is_whitespace, chars_of, decimal_string, parse_i32, trim, NumberError};

#[test]
fn the_characters_of_a_text_come_in_order() {
    assert_eq!(chars_of("aß→z"), vec!['a', 'ß', '→', 'z']);
    assert_eq!(chars_of(""), Vec::<char>::new());
}

#[test]
fn parsing_agrees_with_the_standard_library() {
    let texts = [
        "0", "-0", "+0", "1", "-1", "+1", "42", "0042", "-0042", "2147483647", "2147483648",
        "-2147483648", "-2147483649", "4294967296", "00000000000000000000000000000000000012",
        "", "+", "-", "+-1", "-+1", "1-", "12a", "a12", " 12", "12 ", "1 2", "1,2", "1.0", "٣",
        "１２", "9999999999", "-9999999999", "99999999999999999999", "18446744073709551617",
    ];
    for text in texts {
        assert_eq!(parse_i32(text).ok(), text.parse::<i32>().ok(), "{text:?}");
    }
}

#[test]
fn parsing_tells_a_malformed_text_from_a_number_that_is_too_large() {
    assert_eq!(parse_i32("12"), Ok(12));
    assert_eq!(parse_i32("-2147483648"), Ok(-2147483648));
    assert_eq!(parse_i32(""), Err(NumberError::NotANumber));
    assert_eq!(parse_i32("-"), Err(NumberError::NotANumber));
    assert_eq!(parse_i32("12x"), Err(NumberError::NotANumber));
    assert_eq!(parse_i32("99999999999x"), Err(NumberError::NotANumber));
    assert_eq!(parse_i32("2147483648"), Err(NumberError::OutOfRange));
    assert_eq!(parse_i32("-2147483649"), Err(NumberError::OutOfRange));
}

#[test]
fn decimal_text_agrees_with_the_standard_library() {
    let numbers = [
        0, 1, -1, 9, 10, 11, 99, 100, 101, -9, -10, -100, 12345, -12345, 1000000, i32::MAX,
        i32::MIN, i32::MAX - 1, i32::MIN + 1,
    ];
    for number in numbers {
        assert_eq!(decimal_string(number), number.to_string());
    }
    assert_eq!(decimal_string(-2147483648), "-2147483648");
    assert_eq!(decimal_string(7), "7");
}

#[test]
fn reading_a_decimal_text_gives_the_number_back() {
    for number in [0, 5, -5, 10, -10, 4096, i32::MAX, i32::MIN] {
        assert_eq!(parse_i32(&decimal_string(number)), Ok(number));
    }
}

#[test]
fn blanks_are_the_characters_that_the_standard_library_calls_whitespace() {
    let mut code: u32 = 0;
    while code <= 0x10ffff {
        if let Some(c) = char::from_u32(code) {
            assert_eq!(char_is_whitespace(c), c.is_whitespace(), "U+{code:04X}");
        }
        code += 1;
    }
}

#[test]
fn trimming_agrees_with_the_standard_library() {
    let texts = [
        "", " ", "   ", "a", " a", "a ", " a ", "  a b  ", "\t\n a \r\n", "\u{a0}x\u{3000}",
        "\u{2003}title\u{2009}", "x\u{200b}", "\u{200b} x", "no blanks", " inner  blanks kept ",
        "\u{85}\u{1680}\u{2028}\u{2029}\u{202f}\u{205f}", "ünï cödé ",
    ];
    for text in texts {
        assert_eq!(trim(text), text.trim(), "{text:?}");
    }
    assert_eq!(trim("  Firefox — Start  "), "Firefox — Start");
    assert_eq!(trim(" \t "), "");
}
