use tinyinput::chars::digit_of;
use tinyinput::chars::is_space_char;
use tinyinput::finish_read;
use tinyinput::numbers::parse_digit_run;
use tinyinput::numbers::parse_int_text;
use tinyinput::parse_line;
use tinyinput::prompt_to_write;
use tinyinput::target::TextParsable;
use tinyinput::trim::trim_line;
use tinyinput::ReadError;

#[test]
fn trim_removes_surrounding_space() {
    assert_eq!(trim_line("  42  "), "42");
    assert_eq!(trim_line("\t hello \r\n"), "hello");
    assert_eq!(trim_line("42"), "42");
    assert_eq!(trim_line(""), "");
    assert_eq!(trim_line(" \t\n "), "");
}

#[test]
fn trim_knows_unicode_space() {
    assert_eq!(trim_line("\u{3000}x\u{3000}"), "x");
    assert_eq!(trim_line("\u{A0}\u{2003}ab\u{2028}"), "ab");
    assert!(is_space_char('\u{205F}'));
    assert!(!is_space_char('x'));
}

#[test]
fn trim_keeps_inner_space() {
    assert_eq!(trim_line("  a b  "), "a b");
}

#[test]
fn digits_classified() {
    assert_eq!(digit_of('7'), Some(7));
    assert_eq!(digit_of('0'), Some(0));
    assert_eq!(digit_of('9'), Some(9));
    assert_eq!(digit_of('a'), None);
    assert_eq!(digit_of(' '), None);
}

#[test]
fn digit_run_reads_the_number() {
    assert_eq!(parse_digit_run("42", 0), Some(42));
    assert_eq!(parse_digit_run("-42", 1), Some(42));
    assert_eq!(parse_digit_run("18446744073709551615", 0), Some(u64::MAX));
    assert_eq!(parse_digit_run("18446744073709551616", 0), None);
    assert_eq!(parse_digit_run("4x2", 0), None);
    assert_eq!(parse_digit_run("42", 2), None);
}

#[test]
fn int_text_splits_sign() {
    assert_eq!(parse_int_text("-987"), Some((true, 987)));
    assert_eq!(parse_int_text("+987"), Some((false, 987)));
    assert_eq!(parse_int_text("987"), Some((false, 987)));
    assert_eq!(parse_int_text("-"), None);
    assert_eq!(parse_int_text("+"), None);
    assert_eq!(parse_int_text(""), None);
}

#[test]
fn integer_line_parses_to_its_value() {
    let r: Result<i32, ReadError> = parse_line("42\n");
    assert_eq!(r.unwrap(), 42);
    let r: Result<i64, ReadError> = parse_line("-42\n");
    assert_eq!(r.unwrap(), -42);
    let r: Result<u64, ReadError> = parse_line("+42\n");
    assert_eq!(r.unwrap(), 42);
}

#[test]
fn non_integer_line_is_a_parse_error() {
    let r: Result<i32, ReadError> = parse_line("abc\n");
    assert!(matches!(r, Err(ReadError::Parse)));
    let r: Result<i32, ReadError> = parse_line("4 2\n");
    assert!(matches!(r, Err(ReadError::Parse)));
    let r: Result<i32, ReadError> = parse_line("");
    assert!(matches!(r, Err(ReadError::Parse)));
    let r: Result<i32, ReadError> = parse_line("42a\n");
    assert!(matches!(r, Err(ReadError::Parse)));
}

#[test]
fn surrounding_space_is_insignificant() {
    let padded: Result<i32, ReadError> = parse_line("  42  \n");
    let plain: Result<i32, ReadError> = parse_line("42\n");
    assert_eq!(padded.unwrap(), plain.unwrap());
    let r: Result<bool, ReadError> = parse_line(" true \n");
    assert_eq!(r.unwrap(), true);
}

#[test]
fn integer_range_edges() {
    let r: Result<u64, ReadError> = parse_line("18446744073709551615\n");
    assert_eq!(r.unwrap(), u64::MAX);
    let r: Result<u64, ReadError> = parse_line("18446744073709551616\n");
    assert!(matches!(r, Err(ReadError::Parse)));
    let r: Result<i64, ReadError> = parse_line("-9223372036854775808\n");
    assert_eq!(r.unwrap(), i64::MIN);
    let r: Result<i64, ReadError> = parse_line("-9223372036854775809\n");
    assert!(matches!(r, Err(ReadError::Parse)));
    let r: Result<i64, ReadError> = parse_line("9223372036854775807\n");
    assert_eq!(r.unwrap(), i64::MAX);
    let r: Result<i64, ReadError> = parse_line("9223372036854775808\n");
    assert!(matches!(r, Err(ReadError::Parse)));
    let r: Result<i32, ReadError> = parse_line("2147483647\n");
    assert_eq!(r.unwrap(), i32::MAX);
    let r: Result<i32, ReadError> = parse_line("-2147483648\n");
    assert_eq!(r.unwrap(), i32::MIN);
    let r: Result<i32, ReadError> = parse_line("2147483648\n");
    assert!(matches!(r, Err(ReadError::Parse)));
    let r: Result<u32, ReadError> = parse_line("4294967295\n");
    assert_eq!(r.unwrap(), u32::MAX);
    let r: Result<u32, ReadError> = parse_line("4294967296\n");
    assert!(matches!(r, Err(ReadError::Parse)));
}

#[test]
fn unsigned_rejects_minus() {
    let r: Result<u32, ReadError> = parse_line("-42\n");
    assert!(matches!(r, Err(ReadError::Parse)));
    let r: Result<u64, ReadError> = parse_line("-0\n");
    assert!(matches!(r, Err(ReadError::Parse)));
}

#[test]
fn bool_accepts_true_and_false_only() {
    let r: Result<bool, ReadError> = parse_line("true\n");
    assert_eq!(r.unwrap(), true);
    let r: Result<bool, ReadError> = parse_line("false\n");
    assert_eq!(r.unwrap(), false);
    let r: Result<bool, ReadError> = parse_line("True\n");
    assert!(matches!(r, Err(ReadError::Parse)));
    let r: Result<bool, ReadError> = parse_line("truex\n");
    assert!(matches!(r, Err(ReadError::Parse)));
    let r: Result<bool, ReadError> = parse_line("1\n");
    assert!(matches!(r, Err(ReadError::Parse)));
}

#[test]
fn text_target_always_succeeds() {
    let r: Result<String, ReadError> = parse_line("  hi there  \n");
    assert_eq!(r.unwrap(), "hi there");
    let r: Result<String, ReadError> = parse_line(" \t \n");
    assert_eq!(r.unwrap(), "");
    let r: Result<String, ReadError> = parse_line("");
    assert_eq!(r.unwrap(), "");
}

#[test]
fn failed_read_is_an_io_error() {
    let broken = std::io::Error::from(std::io::ErrorKind::UnexpectedEof);
    let r: Result<i32, ReadError> = finish_read(Err(broken));
    assert!(matches!(r, Err(ReadError::Io(_))));
    let broken = std::io::Error::from(std::io::ErrorKind::BrokenPipe);
    let r: Result<String, ReadError> = finish_read(Err(broken));
    assert!(matches!(r, Err(ReadError::Io(_))));
}

#[test]
fn successful_read_is_trimmed_and_parsed() {
    let r: Result<i32, ReadError> = finish_read(Ok(String::from(" 7 \n")));
    assert_eq!(r.unwrap(), 7);
    let r: Result<i32, ReadError> = finish_read(Ok(String::new()));
    assert!(matches!(r, Err(ReadError::Parse)));
}

#[test]
fn prompt_written_only_when_non_empty() {
    assert_eq!(prompt_to_write("Enter count: "), Some("Enter count: "));
    assert_eq!(prompt_to_write(""), None);
}

#[test]
fn parse_text_decides_the_grammar() {
    assert_eq!(<i32 as TextParsable>::parse_text("42"), Some(42));
    assert_eq!(<i32 as TextParsable>::parse_text(" 42"), None);
    assert_eq!(<bool as TextParsable>::parse_text("true"), Some(true));
    assert_eq!(<String as TextParsable>::parse_text(""), Some(String::new()));
}
