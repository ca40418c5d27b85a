use shared::input::{parse_number, ParseNumberError};

#[test]
fn parses_like_trim_then_parse() {
    let cases = [
        "42", " 42 ", "\t7\n", "+5", "-5", "-", "+", "", "   ", "4294967295", "4294967296",
        "99999999999", "12a", "a12", "0", "007", "\u{3000}13\u{a0}", "1 2", "+-1", "99999999999x",
        "1x99999999999", "\u{2028}", "٣",
    ];
    for case in cases {
        let expected = match case.trim().parse::<u32>() {
            Ok(v) => Ok(v),
            Err(e) => Err(match e.kind() {
                std::num::IntErrorKind::Empty => ParseNumberError::Empty,
                std::num::IntErrorKind::InvalidDigit => ParseNumberError::InvalidDigit,
                std::num::IntErrorKind::PosOverflow => ParseNumberError::PosOverflow,
                _ => unreachable!(),
            }),
        };
        assert_eq!(parse_number(case), expected, "input {:?}", case);
    }
}

#[test]
fn parse_error_kinds() {
    assert_eq!(parse_number(""), Err(ParseNumberError::Empty));
    assert_eq!(parse_number(" \n"), Err(ParseNumberError::Empty));
    assert_eq!(parse_number("+"), Err(ParseNumberError::InvalidDigit));
    assert_eq!(parse_number("-3"), Err(ParseNumberError::InvalidDigit));
    assert_eq!(parse_number("12x"), Err(ParseNumberError::InvalidDigit));
    assert_eq!(parse_number("4294967296"), Err(ParseNumberError::PosOverflow));
    assert_eq!(parse_number("99999999999x"), Err(ParseNumberError::PosOverflow));
    assert_eq!(parse_number("4294967295"), Ok(u32::MAX));
    assert_eq!(parse_number(" +17\r\n"), Ok(17));
}
