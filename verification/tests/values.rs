use parg::convert::convert;
use parg::text::{compare_names, integer_to_text, natural_to_text, read_flag, Flag, NameOrder};
use parg::{
    Arg, CliArguments, Double, GetError, ParseError, Readable, RealReading, Single, Type, Value,
};

fn parse_one(kind: Type, text: &str) -> (CliArguments, Result<(), ParseError>) {
    let x = Arg::with_value("x", kind, false);
    let mut cli = CliArguments::new(vec![x]);
    let r = cli.parse_subset(vec!["--x".to_string(), text.to_string()]);
    (cli, r)
}

fn round_trip<T: Readable + PartialEq + std::fmt::Debug + ToString>(kind: Type, value: T) {
    let (cli, r) = parse_one(kind, &value.to_string());
    assert!(r.is_ok());
    assert_eq!(cli.get_value::<T>("x"), Ok(value));
}

fn reading(token: &str) -> RealReading {
    RealReading {
        single: match token.parse::<f32>() {
            Ok(v) => Ok(Single { bits: v.to_bits(), text: format!("{:?}", v) }),
            Err(e) => Err(e.to_string()),
        },
        double: match token.parse::<f64>() {
            Ok(v) => Ok(Double { bits: v.to_bits(), text: format!("{:?}", v) }),
            Err(e) => Err(e.to_string()),
        },
    }
}

#[test]
fn round_trip_unsigned_bounds() {
    round_trip(Type::ReadAsU8, 0u8);
    round_trip(Type::ReadAsU8, u8::MAX);
    round_trip(Type::ReadAsU16, 0u16);
    round_trip(Type::ReadAsU16, u16::MAX);
    round_trip(Type::ReadAsU32, 0u32);
    round_trip(Type::ReadAsU32, u32::MAX);
    round_trip(Type::ReadAsU64, 0u64);
    round_trip(Type::ReadAsU64, u64::MAX);
    round_trip(Type::ReadAsU128, 0u128);
    round_trip(Type::ReadAsU128, u128::MAX);
    round_trip(Type::ReadAsUsize, 0usize);
    round_trip(Type::ReadAsUsize, usize::MAX);
}

#[test]
fn round_trip_signed_bounds() {
    round_trip(Type::ReadAsI8, 0i8);
    round_trip(Type::ReadAsI8, i8::MAX);
    round_trip(Type::ReadAsI8, i8::MIN);
    round_trip(Type::ReadAsI16, 0i16);
    round_trip(Type::ReadAsI16, i16::MAX);
    round_trip(Type::ReadAsI16, i16::MIN);
    round_trip(Type::ReadAsI32, 0i32);
    round_trip(Type::ReadAsI32, i32::MAX);
    round_trip(Type::ReadAsI32, i32::MIN);
    round_trip(Type::ReadAsI64, 0i64);
    round_trip(Type::ReadAsI64, i64::MAX);
    round_trip(Type::ReadAsI64, i64::MIN);
    round_trip(Type::ReadAsI128, 0i128);
    round_trip(Type::ReadAsI128, i128::MAX);
    round_trip(Type::ReadAsI128, i128::MIN);
    round_trip(Type::ReadAsIsize, 0isize);
    round_trip(Type::ReadAsIsize, isize::MAX);
    round_trip(Type::ReadAsIsize, isize::MIN);
}

#[test]
fn round_trip_bool_char_string() {
    round_trip(Type::ReadAsBool, true);
    round_trip(Type::ReadAsBool, false);
    round_trip(Type::ReadAsChar, 'a');
    round_trip(Type::ReadAsChar, '-');
    round_trip(Type::ReadAsChar, '\u{e9}');
    round_trip(Type::ReadAsChar, '\u{1F600}');
    round_trip(Type::ReadAsString, String::new());
    round_trip(Type::ReadAsString, "some text".to_string());
    round_trip(Type::ReadAsString, "--x".to_string());
    round_trip(Type::ReadAsString, "h\u{e9}llo \"w\"".to_string());
}

#[test]
fn integers_accept_a_plus_sign_and_leading_zeros() {
    let (cli, r) = parse_one(Type::ReadAsU8, "+7");
    assert!(r.is_ok());
    assert_eq!(cli.get_value::<u8>("x"), Ok(7));
    let (cli, r) = parse_one(Type::ReadAsU8, "007");
    assert!(r.is_ok());
    assert_eq!(cli.get_value::<u8>("x"), Ok(7));
    let (cli, r) = parse_one(Type::ReadAsI16, "-0012");
    assert!(r.is_ok());
    assert_eq!(cli.get_value::<i16>("x"), Ok(-12));
    let (cli, r) = parse_one(Type::ReadAsI16, "+12");
    assert!(r.is_ok());
    assert_eq!(cli.get_value::<i16>("x"), Ok(12));
}

fn conversion_fails<T>(kind: Type, text: &str, label: &str)
where
    T: std::str::FromStr,
    T::Err: std::fmt::Display,
{
    let reason = match text.parse::<T>() {
        Ok(_) => panic!("{} reads as {}", text, label),
        Err(e) => e.to_string(),
    };
    let (cli, r) = parse_one(kind, text);
    match r {
        Err(ParseError::ConversionError { token, name, kind: k, reason: why }) => {
            assert_eq!(token, text);
            assert_eq!(name, "x");
            assert_eq!(k, kind);
            assert_eq!(why, reason);
            let e = ParseError::ConversionError { token, name, kind: k, reason: why };
            assert_eq!(
                e.message(),
                format!("Argument value {} for x must be {}: {}", text, label, reason)
            );
        }
        other => panic!("unexpected result {:?}", other),
    }
    assert!(cli.is_present("x"));
}

#[test]
fn integers_out_of_range_or_malformed_are_refused() {
    conversion_fails::<u8>(Type::ReadAsU8, "256", "u8");
    conversion_fails::<u8>(Type::ReadAsU8, "-1", "u8");
    conversion_fails::<u8>(Type::ReadAsU8, "-0", "u8");
    conversion_fails::<u8>(Type::ReadAsU8, "", "u8");
    conversion_fails::<u8>(Type::ReadAsU8, "+", "u8");
    conversion_fails::<u8>(Type::ReadAsU8, "1 ", "u8");
    conversion_fails::<u8>(Type::ReadAsU8, "1_0", "u8");
    conversion_fails::<u16>(Type::ReadAsU16, "65536", "u16");
    conversion_fails::<u32>(Type::ReadAsU32, "4294967296", "u32");
    conversion_fails::<u64>(Type::ReadAsU64, "18446744073709551616", "u64");
    conversion_fails::<u128>(Type::ReadAsU128, "340282366920938463463374607431768211456", "u128");
    conversion_fails::<usize>(Type::ReadAsUsize, "x", "usize");
    conversion_fails::<i8>(Type::ReadAsI8, "128", "i8");
    conversion_fails::<i8>(Type::ReadAsI8, "-129", "i8");
    conversion_fails::<i8>(Type::ReadAsI8, "-", "i8");
    conversion_fails::<i8>(Type::ReadAsI8, "--1", "i8");
    conversion_fails::<i16>(Type::ReadAsI16, "32768", "i16");
    conversion_fails::<i32>(Type::ReadAsI32, "2147483648", "i32");
    conversion_fails::<i64>(Type::ReadAsI64, "-9223372036854775809", "i64");
    conversion_fails::<i128>(Type::ReadAsI128, "1e3", "i128");
    conversion_fails::<isize>(Type::ReadAsIsize, "0x10", "isize");
}

#[test]
fn bool_and_char_accept_only_their_canonical_texts() {
    conversion_fails::<bool>(Type::ReadAsBool, "True", "bool");
    conversion_fails::<bool>(Type::ReadAsBool, "1", "bool");
    conversion_fails::<bool>(Type::ReadAsBool, "", "bool");
    conversion_fails::<char>(Type::ReadAsChar, "", "char");
    conversion_fails::<char>(Type::ReadAsChar, "ab", "char");
}

#[test]
fn real_kinds_take_the_reading_that_comes_with_the_token() {
    let ratio = Arg::with_value("ratio", Type::ReadAsF32, false);
    let scale = Arg::with_value("scale", Type::ReadAsF64, false);
    let mut cli = CliArguments::new(vec![ratio, scale]);
    let tokens: Vec<String> =
        ["--ratio", "1.5", "--scale", "-2.25e3"].iter().map(|t| t.to_string()).collect();
    let reals: Vec<RealReading> = tokens.iter().map(|t| reading(t)).collect();
    assert!(cli.parse(tokens, reals).is_ok());
    let ratio = cli.get_value::<Single>("ratio").unwrap();
    assert_eq!(f32::from_bits(ratio.bits), 1.5f32);
    assert_eq!(ratio.text, "1.5");
    let scale = cli.get_value::<Double>("scale").unwrap();
    assert_eq!(f64::from_bits(scale.bits), -2250.0f64);
    assert_eq!(scale.text, "-2250.0");
    assert!(matches!(cli.get_value::<Double>("ratio"), Err(GetError::TypeMismatch)));
    assert!(matches!(cli.get_value::<u32>("ratio"), Err(GetError::TypeMismatch)));
}

#[test]
fn real_kinds_report_the_failure_of_the_reading() {
    let ratio = Arg::with_value("ratio", Type::ReadAsF32, false);
    let mut cli = CliArguments::new(vec![ratio]);
    let tokens: Vec<String> = ["--ratio", "much"].iter().map(|t| t.to_string()).collect();
    let reals: Vec<RealReading> = tokens.iter().map(|t| reading(t)).collect();
    match cli.parse(tokens, reals) {
        Err(ParseError::ConversionError { token, name, kind, reason }) => {
            assert_eq!(token, "much");
            assert_eq!(name, "ratio");
            assert_eq!(kind, Type::ReadAsF32);
            assert_eq!(reason, "much".parse::<f32>().unwrap_err().to_string());
        }
        other => panic!("unexpected result {:?}", other),
    }
}

#[test]
fn real_kinds_cannot_be_converted_without_a_reading() {
    let scale = Arg::with_value("scale", Type::ReadAsF64, false);
    let mut cli = CliArguments::new(vec![scale]);
    let tokens: Vec<String> = ["--scale", "1.0"].iter().map(|t| t.to_string()).collect();
    match cli.parse_subset(tokens) {
        Err(ParseError::ConversionError { token, name, kind, reason }) => {
            assert_eq!(token, "1.0");
            assert_eq!(name, "scale");
            assert_eq!(kind, Type::ReadAsF64);
            assert_eq!(reason, "no reading as a real number was supplied");
        }
        other => panic!("unexpected result {:?}", other),
    }
    // A reading list shorter than the token list leaves the later tokens
    // without a reading.
    let tokens: Vec<String> = ["--scale", "1.0"].iter().map(|t| t.to_string()).collect();
    let reals = vec![reading("--scale")];
    assert!(matches!(cli.parse(tokens, reals), Err(ParseError::ConversionError { .. })));
}

#[test]
fn real_default_is_read_back() {
    let half = Single { bits: 0.5f32.to_bits(), text: format!("{:?}", 0.5f32) };
    let ratio = Arg::with_default_value("ratio", Type::ReadAsF32, Value::F32(half), false);
    assert_eq!(ratio.format_default_value(), "0.5");
    let mut cli = CliArguments::new(vec![ratio]);
    assert!(cli.parse(Vec::new(), Vec::new()).is_ok());
    let got = cli.get_value::<Single>("ratio").unwrap();
    assert_eq!(f32::from_bits(got.bits), 0.5f32);
}

#[test]
fn convert_gives_the_value_of_the_kind() {
    assert!(matches!(convert(Type::ReadAsU8, "12", None), Ok(Value::U8(12))));
    assert!(matches!(convert(Type::ReadAsI64, "-12", None), Ok(Value::I64(-12))));
    assert!(matches!(convert(Type::ReadAsBool, "true", None), Ok(Value::Bool(true))));
    assert!(matches!(convert(Type::ReadAsBool, "false", None), Ok(Value::Bool(false))));
    assert!(matches!(convert(Type::ReadAsChar, "z", None), Ok(Value::Char('z'))));
    assert!(matches!(convert(Type::ReadAsString, "12", None), Ok(Value::Str(s)) if s == "12"));
    let r = reading("2.5");
    let single = convert(Type::ReadAsF32, "2.5", Some(&r));
    assert!(matches!(single, Ok(Value::F32(s)) if s.bits == 2.5f32.to_bits()));
    let double = convert(Type::ReadAsF64, "2.5", Some(&r));
    assert!(matches!(double, Ok(Value::F64(d)) if d.bits == 2.5f64.to_bits()));
    assert!(convert(Type::ReadAsF64, "2.5", None).is_err());
}

#[test]
fn values_are_displayed_in_their_native_form() {
    assert_eq!(Value::U8(0).to_text(), "0");
    assert_eq!(Value::U8(255).to_text(), "255");
    assert_eq!(Value::U16(u16::MAX).to_text(), format!("{:?}", u16::MAX));
    assert_eq!(Value::U32(u32::MAX).to_text(), format!("{:?}", u32::MAX));
    assert_eq!(Value::U64(u64::MAX).to_text(), format!("{:?}", u64::MAX));
    assert_eq!(Value::U128(u128::MAX).to_text(), format!("{:?}", u128::MAX));
    assert_eq!(Value::Usize(usize::MAX).to_text(), format!("{:?}", usize::MAX));
    assert_eq!(Value::I8(i8::MIN).to_text(), "-128");
    assert_eq!(Value::I16(i16::MIN).to_text(), format!("{:?}", i16::MIN));
    assert_eq!(Value::I32(-1).to_text(), "-1");
    assert_eq!(Value::I64(i64::MAX).to_text(), format!("{:?}", i64::MAX));
    assert_eq!(Value::I128(i128::MIN).to_text(), format!("{:?}", i128::MIN));
    assert_eq!(Value::I128(i128::MAX).to_text(), format!("{:?}", i128::MAX));
    assert_eq!(Value::Isize(isize::MIN).to_text(), format!("{:?}", isize::MIN));
    assert_eq!(Value::Bool(true).to_text(), "true");
    assert_eq!(Value::Bool(false).to_text(), "false");
    assert_eq!(Value::Char('a').to_text(), "'a'");
    assert_eq!(Value::Char('\n').to_text(), "'\\n'");
    assert_eq!(Value::Str("a \"b\"".to_string()).to_text(), "\"a \\\"b\\\"\"");
    assert_eq!(Value::Str(String::new()).to_text(), "\"\"");
    let real = Value::F64(Double { bits: 1.0f64.to_bits(), text: "1.0".to_string() });
    assert_eq!(real.to_text(), "1.0");
}

#[test]
fn decimal_notation_is_exact() {
    assert_eq!(natural_to_text(0), "0");
    assert_eq!(natural_to_text(9), "9");
    assert_eq!(natural_to_text(10), "10");
    assert_eq!(natural_to_text(1234567890), "1234567890");
    assert_eq!(natural_to_text(u128::MAX), "340282366920938463463374607431768211455");
    assert_eq!(integer_to_text(0), "0");
    assert_eq!(integer_to_text(-1), "-1");
    assert_eq!(integer_to_text(-100), "-100");
    assert_eq!(integer_to_text(i128::MIN), "-170141183460469231731687303715884105728");
    assert_eq!(integer_to_text(i128::MAX), "170141183460469231731687303715884105727");
}

#[test]
fn kinds_samples_and_copies() {
    let kinds = [
        Type::ReadAsU8,
        Type::ReadAsU16,
        Type::ReadAsU32,
        Type::ReadAsU64,
        Type::ReadAsU128,
        Type::ReadAsUsize,
        Type::ReadAsI8,
        Type::ReadAsI16,
        Type::ReadAsI32,
        Type::ReadAsI64,
        Type::ReadAsI128,
        Type::ReadAsIsize,
        Type::ReadAsF32,
        Type::ReadAsF64,
        Type::ReadAsBool,
        Type::ReadAsChar,
        Type::ReadAsString,
    ];
    let labels = [
        "u8", "u16", "u32", "u64", "u128", "usize", "i8", "i16", "i32", "i64", "i128", "isize",
        "f32", "f64", "bool", "char", "String",
    ];
    for (kind, label) in kinds.iter().zip(labels.iter()) {
        assert_eq!(kind.label(), *label);
        let sample = Value::sample(*kind);
        assert_eq!(sample.kind(), *kind);
        let copy = sample.duplicate();
        assert_eq!(copy.kind(), *kind);
        assert_eq!(copy.to_text(), sample.to_text());
    }
    assert!(matches!(Value::sample(Type::ReadAsU8), Value::U8(0)));
    assert!(matches!(Value::sample(Type::ReadAsBool), Value::Bool(false)));
    assert!(matches!(Value::sample(Type::ReadAsChar), Value::Char('0')));
    assert!(matches!(Value::sample(Type::ReadAsString), Value::Str(s) if s.is_empty()));
    match Value::sample(Type::ReadAsF32) {
        Value::F32(s) => {
            assert_eq!(s.bits, 0.0f32.to_bits());
            assert_eq!(s.text, format!("{:?}", 0.0f32));
        }
        other => panic!("unexpected sample {:?}", other),
    }
    match Value::sample(Type::ReadAsF64) {
        Value::F64(d) => {
            assert_eq!(d.bits, 0.0f64.to_bits());
            assert_eq!(d.text, format!("{:?}", 0.0f64));
        }
        other => panic!("unexpected sample {:?}", other),
    }
}

#[test]
fn typed_reading_of_values() {
    assert_eq!(u8::from_value(&Value::U8(7)), Some(7));
    assert_eq!(u8::from_value(&Value::U16(7)), None);
    assert_eq!(i128::from_value(&Value::I128(i128::MIN)), Some(i128::MIN));
    assert_eq!(String::from_value(&Value::Str("s".to_string())), Some("s".to_string()));
    assert_eq!(char::from_value(&Value::Str("s".to_string())), None);
    assert_eq!(bool::from_value(&Value::Bool(true)), Some(true));
    assert_eq!(<u8 as Readable>::read_kind(), Type::ReadAsU8);
    assert_eq!(<String as Readable>::read_kind(), Type::ReadAsString);
    assert_eq!(<Single as Readable>::read_kind(), Type::ReadAsF32);
    assert_eq!(<Double as Readable>::read_kind(), Type::ReadAsF64);
}

#[test]
fn names_are_ordered_by_code_point() {
    assert_eq!(compare_names("a", "b"), NameOrder::Before);
    assert_eq!(compare_names("b", "a"), NameOrder::After);
    assert_eq!(compare_names("abc", "abc"), NameOrder::Same);
    assert_eq!(compare_names("ab", "abc"), NameOrder::Before);
    assert_eq!(compare_names("abc", "ab"), NameOrder::After);
    assert_eq!(compare_names("", ""), NameOrder::Same);
    assert_eq!(compare_names("", "a"), NameOrder::Before);
    assert_eq!(compare_names("Z", "a"), NameOrder::Before);
    assert_eq!(compare_names("z", "\u{e9}"), NameOrder::Before);
    assert_eq!(compare_names("\u{ff5e}", "\u{1F600}"), NameOrder::Before);
    for (a, b) in [("a", "b"), ("ab", "abc"), ("z", "\u{e9}"), ("\u{ff5e}", "\u{1F600}")] {
        assert!(a.to_string() < b.to_string());
    }
}

#[test]
fn tokens_are_read_as_flags() {
    assert!(matches!(read_flag("--name"), Flag::Named(n) if n == "name"));
    assert!(matches!(read_flag("--n"), Flag::Named(n) if n == "n"));
    assert!(matches!(read_flag("---"), Flag::Named(n) if n == "-"));
    assert!(matches!(read_flag("--\u{e9}t\u{e9}"), Flag::Named(n) if n == "\u{e9}t\u{e9}"));
    assert!(matches!(read_flag("--helper"), Flag::Named(n) if n == "helper"));
    assert!(matches!(read_flag("--hel"), Flag::Named(n) if n == "hel"));
    assert!(matches!(read_flag("--help"), Flag::Help));
    assert!(matches!(read_flag("--HeLp"), Flag::Help));
    assert!(matches!(read_flag("--"), Flag::Plain));
    assert!(matches!(read_flag("-n"), Flag::Plain));
    assert!(matches!(read_flag("name"), Flag::Plain));
    assert!(matches!(read_flag(""), Flag::Plain));
    assert!(matches!(read_flag("-help-"), Flag::Plain));
}

/// The integer that a text denotes in decimal notation within `min..=max`,
/// written out once more for the tests: an optional sign, then digits.
fn decimal_reading(text: &str, signed: bool, min: i128, max: i128) -> Option<i128> {
    let chars: Vec<char> = text.chars().collect();
    let (negative, digits) = match chars.first() {
        Some('+') => (false, &chars[1..]),
        Some('-') if signed => (true, &chars[1..]),
        _ => (false, &chars[..]),
    };
    if digits.is_empty() || !digits.iter().all(|c| ('0'..='9').contains(c)) {
        return None;
    }
    let mut value: i128 = 0;
    for c in digits {
        value = value * 10 + (*c as i128 - '0' as i128);
        if value > 1_000_000 {
            return None;
        }
    }
    let value = if negative { -value } else { value };
    if min <= value && value <= max {
        Some(value)
    } else {
        None
    }
}

fn texts_up_to(alphabet: &[char], length: usize) -> Vec<String> {
    let mut all = vec![String::new()];
    let mut last = vec![String::new()];
    for _ in 0..length {
        let mut next = Vec::new();
        for text in &last {
            for c in alphabet {
                let mut longer = text.clone();
                longer.push(*c);
                next.push(longer);
            }
        }
        all.extend(next.iter().cloned());
        last = next;
    }
    all
}

#[test]
fn small_integers_are_read_as_decimal_notation_says() {
    for text in texts_up_to(&['+', '-', '0', '1', '2', '5', '9', 'a', ' '], 4) {
        let unsigned = match convert(Type::ReadAsU8, &text, None) {
            Ok(Value::U8(v)) => Some(v as i128),
            Ok(other) => panic!("unexpected value {:?}", other),
            Err(_) => None,
        };
        assert_eq!(unsigned, decimal_reading(&text, false, 0, 255), "u8 from {:?}", text);
        let signed = match convert(Type::ReadAsI8, &text, None) {
            Ok(Value::I8(v)) => Some(v as i128),
            Ok(other) => panic!("unexpected value {:?}", other),
            Err(_) => None,
        };
        assert_eq!(signed, decimal_reading(&text, true, -128, 127), "i8 from {:?}", text);
    }
}

#[test]
fn bool_and_char_are_read_as_their_texts_say() {
    for text in texts_up_to(&['t', 'r', 'u', 'e', 'f', 'a', 'l', 's', 'T', ' '], 5) {
        let truth = match convert(Type::ReadAsBool, &text, None) {
            Ok(Value::Bool(v)) => Some(v),
            Ok(other) => panic!("unexpected value {:?}", other),
            Err(_) => None,
        };
        let expected = match text.as_str() {
            "true" => Some(true),
            "false" => Some(false),
            _ => None,
        };
        assert_eq!(truth, expected, "bool from {:?}", text);
    }
    for text in texts_up_to(&['a', '-', '\u{e9}', '\u{1F600}', ' '], 3) {
        let symbol = match convert(Type::ReadAsChar, &text, None) {
            Ok(Value::Char(v)) => Some(v),
            Ok(other) => panic!("unexpected value {:?}", other),
            Err(_) => None,
        };
        let mut chars = text.chars();
        let expected = match (chars.next(), chars.next()) {
            (Some(c), None) => Some(c),
            _ => None,
        };
        assert_eq!(symbol, expected, "char from {:?}", text);
    }
}

#[test]
fn integers_are_not_read_from_other_digits_or_long_zero_runs_wrongly() {
    assert!(convert(Type::ReadAsU8, "\u{663}", None).is_err());
    assert!(convert(Type::ReadAsU8, "\u{ff11}", None).is_err());
    assert!(convert(Type::ReadAsI64, "+-1", None).is_err());
    assert!(convert(Type::ReadAsI64, "-+1", None).is_err());
    assert!(convert(Type::ReadAsI8, "+128", None).is_err());
    let zeros = format!("{}7", "0".repeat(60));
    assert!(matches!(convert(Type::ReadAsU8, &zeros, None), Ok(Value::U8(7))));
    let minus_zeros = format!("-{}128", "0".repeat(60));
    assert!(matches!(convert(Type::ReadAsI8, &minus_zeros, None), Ok(Value::I8(-128))));
}
