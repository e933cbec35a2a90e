use justrun::text::{
    chars_of, decimal_text, occurs, parse_u32, split_whitespace, trim, IntParseError,
};

fn parse(s: &str) -> Result<u32, IntParseError> {
    parse_u32(&chars_of(s))
}

#[test]
fn trim_removes_surrounding_white_space() {
    assert_eq!(trim("  hello world \n\t"), "hello world");
    assert_eq!(trim(""), "");
    assert_eq!(trim(" \u{3000}\u{a0} "), "");
    assert_eq!(trim("x"), "x");
    assert_eq!(trim("\u{2003}a b\u{85}"), "a b");
}

#[test]
fn trim_agrees_with_std() {
    for s in ["", " a ", "\t\nab c\r\n", "\u{1680}z\u{205f}", "no-space", "   "] {
        assert_eq!(trim(s), s.trim());
    }
}

#[test]
fn split_whitespace_agrees_with_std() {
    for s in ["", "   ", "a", " sudo  echo   hi ", "a\tb\nc", "x\u{2028}y", "echo \"Hello, world!\""] {
        let expected: Vec<String> = s.split_whitespace().map(|w| w.to_string()).collect();
        assert_eq!(split_whitespace(s), expected);
    }
}

#[test]
fn decimal_text_formats_like_display() {
    assert_eq!(decimal_text(0), "0");
    assert_eq!(decimal_text(7), "7");
    assert_eq!(decimal_text(10), "10");
    assert_eq!(decimal_text(1725029869), "1725029869");
    assert_eq!(decimal_text(u64::MAX), u64::MAX.to_string());
}

#[test]
fn parse_u32_reads_numerals() {
    assert_eq!(parse("0"), Ok(0));
    assert_eq!(parse("+42"), Ok(42));
    assert_eq!(parse("4294967295"), Ok(u32::MAX));
    assert_eq!(parse("007"), Ok(7));
}

#[test]
fn parse_u32_errors_match_std() {
    assert_eq!(parse(""), Err(IntParseError::Empty));
    assert_eq!(parse("+"), Err(IntParseError::InvalidDigit));
    assert_eq!(parse("-"), Err(IntParseError::InvalidDigit));
    assert_eq!(parse("-1"), Err(IntParseError::InvalidDigit));
    assert_eq!(parse("12a"), Err(IntParseError::InvalidDigit));
    assert_eq!(parse("4294967296"), Err(IntParseError::PosOverflow));
    assert_eq!(parse("99999999999x"), Err(IntParseError::PosOverflow));
    for s in ["", "+", "-", "-1", "12a", "4294967296", " 1", "1 ", "+0", "99999999999x"] {
        assert_eq!(parse(s).is_ok(), s.parse::<u32>().is_ok());
    }
}

#[test]
fn int_error_messages_match_std() {
    assert_eq!(IntParseError::Empty.message(), "".parse::<u32>().unwrap_err().to_string());
    assert_eq!(IntParseError::InvalidDigit.message(), "x".parse::<u32>().unwrap_err().to_string());
    assert_eq!(
        IntParseError::PosOverflow.message(),
        "4294967296".parse::<u32>().unwrap_err().to_string()
    );
}

#[test]
fn occurs_finds_runs() {
    assert!(occurs(&chars_of("123"), &chars_of("  PID TTY\n 123 pts/0")));
    assert!(!occurs(&chars_of("124"), &chars_of("  PID TTY\n 123 pts/0")));
    assert!(occurs(&chars_of(""), &chars_of("")));
    assert!(!occurs(&chars_of("ab"), &chars_of("a")));
}
