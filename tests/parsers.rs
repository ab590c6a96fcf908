use cmd_wrk_parser::duration::{Duration, DurationParser};
use cmd_wrk_parser::network::{IpAddress, IpParser};
use cmd_wrk_parser::primitives::{
    I16Parser, I32Parser, I64Parser, I8Parser, U16Parser, U32Parser, U64Parser, U8Parser,
};
use cmd_wrk_parser::registry::{ParserKind, ParserStorage, Parser, TypeParserKey};
use cmd_wrk_parser::text::StringParser;
use cmd_wrk_parser::utils::{take_until_close_quote, take_until_whitespace};
use cmd_wrk_parser::{Error, TypeParser};

fn invalid(msg: &str) -> Error {
    Error::InvalidFormat(msg.to_string())
}

#[test]
fn separator_token_cases() {
    assert_eq!(take_until_whitespace(""), None);
    assert_eq!(take_until_whitespace(" abc"), None);
    assert_eq!(take_until_whitespace("abc def"), Some("abc"));
    assert_eq!(take_until_whitespace("abc"), Some("abc"));
}

#[test]
fn separator_token_wide_spaces() {
    assert_eq!(take_until_whitespace("ab\u{3000}cd"), Some("ab"));
    assert_eq!(take_until_whitespace("\u{00A0}ab"), None);
    assert_eq!(take_until_whitespace("é\u{2009}x"), Some("é"));
    assert_eq!(take_until_whitespace("a\tb"), Some("a\tb"));
}

#[test]
fn close_quote_cases() {
    assert_eq!(take_until_close_quote("\"hello world\" rest"), Some("hello world"));
    assert_eq!(take_until_close_quote("'a b'"), Some("a b"));
    assert_eq!(take_until_close_quote("''"), Some(""));
    assert_eq!(take_until_close_quote("'it\"s'"), Some("it\"s"));
    assert_eq!(take_until_close_quote("abc"), None);
    assert_eq!(take_until_close_quote(""), None);
    assert_eq!(take_until_close_quote("\"open"), None);
    assert_eq!(take_until_close_quote("\"mixed'"), None);
}

#[test]
fn u8_overflow_is_invalid_format() {
    assert_eq!(
        U8Parser.parse(&(), "300"),
        Err(invalid("number too large to fit in target type"))
    );
}

#[test]
fn u32_reads_leading_token() {
    assert_eq!(U32Parser.parse(&(), "42 rest"), Ok((42u32, 2)));
}

#[test]
fn integer_without_token() {
    assert_eq!(U16Parser.parse(&(), ""), Err(Error::UnexpectedToken(0)));
    assert_eq!(I32Parser.parse(&(), " 5"), Err(Error::UnexpectedToken(0)));
}

#[test]
fn integer_invalid_digits() {
    assert_eq!(U8Parser.parse(&(), "12a"), Err(invalid("invalid digit found in string")));
    assert_eq!(U8Parser.parse(&(), "-1"), Err(invalid("invalid digit found in string")));
    assert_eq!(I8Parser.parse(&(), "+"), Err(invalid("invalid digit found in string")));
    assert_eq!(I8Parser.parse(&(), "-"), Err(invalid("invalid digit found in string")));
}

#[test]
fn integer_signs_and_limits() {
    assert_eq!(I8Parser.parse(&(), "-128"), Ok((-128i8, 4)));
    assert_eq!(I8Parser.parse(&(), "127"), Ok((127i8, 3)));
    assert_eq!(
        I8Parser.parse(&(), "-129"),
        Err(invalid("number too small to fit in target type"))
    );
    assert_eq!(U16Parser.parse(&(), "+7 x"), Ok((7u16, 2)));
    assert_eq!(U16Parser.parse(&(), "65536"), Err(invalid("number too large to fit in target type")));
    assert_eq!(
        U64Parser.parse(&(), "18446744073709551615"),
        Ok((u64::MAX, 20))
    );
    assert_eq!(
        U64Parser.parse(&(), "18446744073709551616"),
        Err(invalid("number too large to fit in target type"))
    );
    assert_eq!(
        I64Parser.parse(&(), "-9223372036854775808"),
        Ok((i64::MIN, 20))
    );
    assert_eq!(I16Parser.parse(&(), "007"), Ok((7i16, 3)));
}

#[test]
fn duration_clock_form() {
    let (d, n) = DurationParser.parse(&(), "01:02:03.456").unwrap();
    let expected: u128 = ((3600 + 2 * 60 + 3) * 1_000 + 456) * 1_000_000;
    assert_eq!(d.as_nanos(), expected);
    assert_eq!(d, Duration { secs: 3723, nanos: 456_000_000 });
    assert_eq!(n, 12);
}

#[test]
fn duration_clock_form_variants() {
    let (d, n) = DurationParser.parse(&(), "2:05 next").unwrap();
    assert_eq!(d.as_nanos(), 125_000_000_000);
    assert_eq!(n, 4);
    let (d, n) = DurationParser.parse(&(), "1:02:03.4").unwrap();
    assert_eq!(d.as_nanos(), 3_723_004_000_000);
    assert_eq!(n, 9);
    // The match need not start the text; its own length is what is consumed.
    let (d, n) = DurationParser.parse(&(), "at 10:30").unwrap();
    assert_eq!(d.as_nanos(), 630_000_000_000);
    assert_eq!(n, 5);
}

#[test]
fn duration_unit_form_skips_first_term() {
    let (d, n) = DurationParser.parse(&(), "5m10s").unwrap();
    assert_eq!(d, Duration { secs: 10, nanos: 0 });
    assert_eq!(n, 3);
}

#[test]
fn duration_unit_form_units() {
    let (d, n) = DurationParser.parse(&(), "1h 2ms 3ns").unwrap();
    assert_eq!(d.as_nanos(), 2_000_003);
    assert_eq!(n, 3);
    let (d, n) = DurationParser.parse(&(), "0s1y2M3w4d").unwrap();
    let day: u128 = 86_400 * 1_000_000_000;
    assert_eq!(d.as_nanos(), 360 * day + 2 * 30 * day + 3 * 7 * day + 4 * day);
    assert_eq!(n, 2);
    let (d, _) = DurationParser.parse(&(), "1s9999y").unwrap();
    assert_eq!(d.as_nanos(), 9999 * 360 * day);
}

#[test]
fn duration_refused() {
    let msg = invalid("unable to process duration");
    assert_eq!(DurationParser.parse(&(), "5m"), Err(msg.clone()));
    assert_eq!(DurationParser.parse(&(), ""), Err(msg.clone()));
    assert_eq!(DurationParser.parse(&(), "soon"), Err(msg.clone()));
    assert_eq!(DurationParser.parse(&(), "12345s"), Err(msg));
}

#[test]
fn string_parser_quoted() {
    assert_eq!(
        StringParser.parse(&(), "\"hello world\""),
        Ok((String::from("hello world"), 11))
    );
}

#[test]
fn string_parser_bare_and_missing() {
    assert_eq!(StringParser.parse(&(), "plain rest"), Ok((String::from("plain"), 5)));
    assert_eq!(StringParser.parse(&(), "\"unclosed text"), Ok((String::from("\"unclosed"), 9)));
    assert_eq!(StringParser.parse(&(), ""), Err(Error::UnexpectedToken(0)));
    assert_eq!(StringParser.parse(&(), " x"), Err(Error::UnexpectedToken(0)));
}

#[test]
fn ip_parser_reads_leading_address() {
    let addr = IpAddress::V4([192, 168, 1, 1]);
    assert_eq!(
        IpParser.parse_resolved("192.168.1.1 --flag", Some(addr)),
        Ok((addr, 11))
    );
}

#[test]
fn ip_parser_failures() {
    assert_eq!(
        IpParser.parse_resolved("nonsense x", None),
        Err(invalid("invalid IP address syntax"))
    );
    assert_eq!(
        IpParser.parse_resolved(" 10.0.0.1", Some(IpAddress::V4([10, 0, 0, 1]))),
        Err(Error::UnexpectedToken(0))
    );
    let v6 = IpAddress::V6([0, 0, 0, 0, 0, 0, 0, 1]);
    assert_eq!(IpParser.parse_resolved("::1", Some(v6)), Ok((v6, 3)));
}

#[test]
fn storage_lookup_by_type() {
    let mut s = ParserStorage::empty();
    assert!(s.get::<U8Parser>().is_none());
    s.insert(U8Parser);
    assert!(s.get::<U8Parser>().is_some());
    assert!(s.get::<U16Parser>().is_none());
    s.insert(U8Parser);
    assert!(s.get::<U8Parser>().is_some());
}

#[test]
fn storage_bundles() {
    let all = ParserStorage::new();
    assert!(all.get::<I64Parser>().is_some());
    assert!(all.get::<DurationParser>().is_some());
    assert!(all.get::<StringParser>().is_some());
    assert!(all.get::<IpParser>().is_some());
    let standard = ParserStorage::with_bundles(false, true);
    assert!(standard.get::<U32Parser>().is_none());
    assert!(standard.get::<DurationParser>().is_some());
    let primitive = ParserStorage::with_bundles(true, false);
    assert!(primitive.get::<U32Parser>().is_some());
    assert!(primitive.get::<StringParser>().is_none());
}

#[test]
fn facade_resolves_and_applies() {
    let p = Parser::with_storage(ParserStorage::with_bundles(true, false));
    assert_eq!(p.parse::<U32Parser>(&(), "42 rest"), Some(Ok((42, 2))));
    assert!(p.parse::<StringParser>(&(), "x").is_none());
    assert!(p.parser::<I8Parser>().is_some());
    let key: TypeParserKey<DurationParser> = TypeParserKey::new();
    assert_eq!(key.kind(), ParserKind::Duration);
}

#[test]
fn resolve_by_kind() {
    let p = Parser::with_storage(ParserStorage::with_bundles(false, true));
    assert_eq!(p.resolve(ParserKind::Ip).map(|a| a.kind()), Some(ParserKind::Ip));
    assert!(p.resolve(ParserKind::U8).is_none());
    let s = ParserStorage::new();
    assert_eq!(s.find(ParserKind::Text).map(|a| a.kind()), Some(ParserKind::Text));
}
