use shmon::text::{
    decimal_i32, decimal_u64, is_white_space, parse_number, split_words, NumberError,
};

#[test]
fn decimal_numbers_read_as_usual() {
    for n in [0u64, 1, 9, 10, 99, 100, 12345, u32::MAX as u64, u64::MAX] {
        assert_eq!(decimal_u64(n), n.to_string());
    }
    for n in [0i32, 7, -1, -10, 42, i32::MAX, i32::MIN] {
        assert_eq!(decimal_i32(n), n.to_string());
    }
}

#[test]
fn white_space_is_the_unicode_property() {
    for n in 0u32..=0x10FFFF {
        if let Some(c) = char::from_u32(n) {
            assert_eq!(is_white_space(c), c.is_whitespace());
        }
    }
}

#[test]
fn words_stand_between_white_space() {
    let samples = [
        "",
        "   ",
        "vim",
        "/bin/bash -l",
        "  a\tb \n c  ",
        "gr\u{fc}\u{df}e\u{2003}welt\u{a0}",
        "\u{3000}x",
    ];
    for text in samples {
        let expected: Vec<String> = text.split_whitespace().map(String::from).collect();
        assert_eq!(split_words(text), expected);
    }
}

#[test]
fn numbers_are_read_or_refused() {
    assert_eq!(parse_number("123\n"), Ok(123));
    assert_eq!(parse_number(" \t-45 "), Ok(-45));
    assert_eq!(parse_number("+7"), Ok(7));
    assert_eq!(parse_number("0007"), Ok(7));
    assert_eq!(parse_number("2147483647"), Ok(i32::MAX));
    assert_eq!(parse_number("-2147483648"), Ok(i32::MIN));
    assert_eq!(parse_number(" \n "), Err(NumberError::Empty));
    assert_eq!(parse_number("-"), Err(NumberError::InvalidDigit));
    assert_eq!(parse_number("+"), Err(NumberError::InvalidDigit));
    assert_eq!(parse_number("12 3"), Err(NumberError::InvalidDigit));
    assert_eq!(parse_number("+-3"), Err(NumberError::InvalidDigit));
    assert_eq!(parse_number("2147483648"), Err(NumberError::TooLarge));
    assert_eq!(parse_number("-2147483649"), Err(NumberError::TooSmall));
    assert_eq!(parse_number("99999999999x"), Err(NumberError::TooLarge));
    assert_eq!(parse_number("x99999999999"), Err(NumberError::InvalidDigit));
}

#[test]
fn numbers_are_refused_with_the_usual_words() {
    let samples = [
        "", "-", "+", "1", "-1", "+5", "--1", "1-", "a", "1a", "\u{663}", "2147483647",
        "2147483648", "-2147483648", "-2147483649", "99999999999x", "21474836470", "-99999999999-",
    ];
    for text in samples {
        match (parse_number(text), text.trim().parse::<i32>()) {
            (Ok(a), Ok(b)) => assert_eq!(a, b),
            (Err(a), Err(b)) => assert_eq!(a.message(), b.to_string()),
            (a, b) => panic!("{:?} is read as {:?} and as {:?}", text, a, b),
        }
    }
}

#[test]
fn written_numbers_read_back() {
    for n in [0, 1, -1, 10, -99, 4096, i32::MAX, i32::MIN] {
        assert_eq!(parse_number(&decimal_i32(n)), Ok(n));
    }
    assert_eq!(
        parse_number(&decimal_u64(4294967295)),
        Err(NumberError::TooLarge)
    );
}
