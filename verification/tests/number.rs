use statusline::number::{int_text, parse_i32, parse_i64, ParseError};

const SAMPLES: [&str; 34] = ["", "0", "7", "73", "+73", "-73", "007", "-0", "+0", "+", "-", "++1",
    "+-1", "--1", "1-", "1 ", " 1", "1_000", "12a", "a12", "2147483647", "2147483648",
    "-2147483648", "-2147483649", "99999999999x", "x99999999999", "9223372036854775807",
    "9223372036854775808", "-9223372036854775808", "-9223372036854775809",
    "000000000000000000000000000000000000005", "1.5", "\u{663}", "１"];

fn kind_text(kind: ParseError) -> &'static str {
    kind.message()
}

#[test]
fn parse_i32_agrees_with_the_standard_library() {
    for text in SAMPLES {
        let expected = text.parse::<i32>().map_err(|error| error.to_string());
        let got = parse_i32(text).map_err(|kind| kind_text(kind).to_string());
        assert_eq!(got, expected, "{:?}", text);
    }
}

#[test]
fn parse_i64_agrees_with_the_standard_library() {
    for text in SAMPLES {
        let expected = text.parse::<i64>().map_err(|error| error.to_string());
        let got = parse_i64(text).map_err(|kind| kind_text(kind).to_string());
        assert_eq!(got, expected, "{:?}", text);
    }
}

#[test]
fn parse_gives_each_error() {
    assert_eq!(parse_i32(""), Err(ParseError::Empty));
    assert_eq!(parse_i32("12a"), Err(ParseError::InvalidDigit));
    assert_eq!(parse_i32("-"), Err(ParseError::InvalidDigit));
    assert_eq!(parse_i32("2147483648"), Err(ParseError::PosOverflow));
    assert_eq!(parse_i32("-2147483649"), Err(ParseError::NegOverflow));
    assert_eq!(parse_i32("99999999999x"), Err(ParseError::PosOverflow));
    assert_eq!(parse_i64("9223372036854775808"), Err(ParseError::PosOverflow));
    assert_eq!(parse_i64("-9223372036854775809"), Err(ParseError::NegOverflow));
}

#[test]
fn parse_gives_the_number() {
    assert_eq!(parse_i32("73"), Ok(73));
    assert_eq!(parse_i32("-2147483648"), Ok(i32::MIN));
    assert_eq!(parse_i32("2147483647"), Ok(i32::MAX));
    assert_eq!(parse_i32("+007"), Ok(7));
    assert_eq!(parse_i64("-9223372036854775808"), Ok(i64::MIN));
    assert_eq!(parse_i64("9223372036854775807"), Ok(i64::MAX));
    assert_eq!(parse_i64("2147483648"), Ok(2147483648));
}

#[test]
fn error_messages_are_those_of_the_standard_library() {
    assert_eq!(ParseError::Empty.message(), "cannot parse integer from empty string");
    assert_eq!(ParseError::InvalidDigit.message(), "invalid digit found in string");
    assert_eq!(ParseError::PosOverflow.message(), "number too large to fit in target type");
    assert_eq!(ParseError::NegOverflow.message(), "number too small to fit in target type");
}

#[test]
fn int_text_writes_decimal() {
    for n in [0, 1, 9, 10, 73, 100, 101, -1, -10, -73, i32::MAX, i32::MIN, 1000000, -999] {
        assert_eq!(int_text(n), n.to_string());
    }
    assert_eq!(int_text(-2147483648), "-2147483648");
    assert_eq!(int_text(73), "73");
}

#[test]
fn written_numbers_parse_back() {
    for n in [0, 5, -5, 1234567, i32::MAX, i32::MIN] {
        assert_eq!(parse_i32(&int_text(n)), Ok(n));
    }
}
