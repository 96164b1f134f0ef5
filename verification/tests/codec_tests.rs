use wasmtime_http::codec::{decode, encode, CodecError, DisplayLine, TypedValue, ValKind};
use wasmtime_http::numeric::{format_i32, format_i64, format_u128, parse_i32, parse_i64};

fn no_floats(n: usize) -> (Vec<Option<u32>>, Vec<Option<u64>>) {
    (vec![None; n], vec![None; n])
}

fn float_parses(tokens: &[String]) -> (Vec<Option<u32>>, Vec<Option<u64>>) {
    let f32s = tokens.iter().map(|t| t.parse::<f32>().ok().map(f32::to_bits)).collect();
    let f64s = tokens.iter().map(|t| t.parse::<f64>().ok().map(f64::to_bits)).collect();
    (f32s, f64s)
}

fn strings(ts: &[&str]) -> Vec<String> {
    ts.iter().map(|t| t.to_string()).collect()
}

#[test]
fn encode_integers() {
    let params = vec![ValKind::I32, ValKind::I64];
    let tokens = strings(&["42", "-7"]);
    let (f32s, f64s) = no_floats(tokens.len());
    let r = encode(&params, &tokens, &f32s, &f64s).unwrap();
    assert_eq!(r, vec![TypedValue::I32(42), TypedValue::I64(-7)]);
}

#[test]
fn encode_integer_bounds() {
    let params = vec![ValKind::I32, ValKind::I32, ValKind::I64, ValKind::I64];
    let tokens = strings(&[
        "2147483647",
        "-2147483648",
        "9223372036854775807",
        "-9223372036854775808",
    ]);
    let (f32s, f64s) = no_floats(tokens.len());
    let r = encode(&params, &tokens, &f32s, &f64s).unwrap();
    assert_eq!(
        r,
        vec![
            TypedValue::I32(i32::MAX),
            TypedValue::I32(i32::MIN),
            TypedValue::I64(i64::MAX),
            TypedValue::I64(i64::MIN),
        ]
    );
}

#[test]
fn encode_rejects_out_of_range() {
    let params = vec![ValKind::I32];
    let tokens = strings(&["2147483648"]);
    let (f32s, f64s) = no_floats(tokens.len());
    match encode(&params, &tokens, &f32s, &f64s) {
        Err(CodecError::Parse { token, kind }) => {
            assert_eq!(token, "2147483648");
            assert_eq!(kind, ValKind::I32);
        }
        other => panic!("expected a parse failure, got {:?}", other),
    }
}

#[test]
fn fewer_tokens_than_parameters_is_arity_error() {
    let params = vec![ValKind::I32, ValKind::I32];
    let tokens = strings(&["1"]);
    let (f32s, f64s) = no_floats(tokens.len());
    match encode(&params, &tokens, &f32s, &f64s) {
        Err(CodecError::Arity) => {}
        other => panic!("expected an arity failure, got {:?}", other),
    }
}

#[test]
fn non_numeric_token_names_the_token() {
    let params = vec![ValKind::I64];
    let tokens = strings(&["twelve"]);
    let (f32s, f64s) = no_floats(tokens.len());
    match encode(&params, &tokens, &f32s, &f64s) {
        Err(CodecError::Parse { token, kind }) => {
            assert_eq!(token, "twelve");
            assert_eq!(kind, ValKind::I64);
        }
        other => panic!("expected a parse failure, got {:?}", other),
    }
}

#[test]
fn reference_parameter_kinds_are_unsupported() {
    let params = vec![ValKind::ExternRef];
    let tokens = strings(&["anything"]);
    let (f32s, f64s) = no_floats(tokens.len());
    match encode(&params, &tokens, &f32s, &f64s) {
        Err(CodecError::Unsupported { kind }) => assert_eq!(kind, ValKind::ExternRef),
        other => panic!("expected an unsupported-kind failure, got {:?}", other),
    }
    let params = vec![ValKind::V128];
    match encode(&params, &tokens, &f32s, &f64s) {
        Err(CodecError::Unsupported { kind }) => assert_eq!(kind, ValKind::V128),
        other => panic!("expected an unsupported-kind failure, got {:?}", other),
    }
}

#[test]
fn extra_trailing_tokens_are_ignored() {
    let params = vec![ValKind::I32];
    let tokens = strings(&["5", "junk", "more junk"]);
    let (f32s, f64s) = no_floats(tokens.len());
    let r = encode(&params, &tokens, &f32s, &f64s).unwrap();
    assert_eq!(r, vec![TypedValue::I32(5)]);
}

#[test]
fn first_failure_wins_left_to_right() {
    let params = vec![ValKind::I32, ValKind::ExternRef];
    let tokens = strings(&["oops", "x"]);
    let (f32s, f64s) = no_floats(tokens.len());
    match encode(&params, &tokens, &f32s, &f64s) {
        Err(CodecError::Parse { token, kind }) => {
            assert_eq!(token, "oops");
            assert_eq!(kind, ValKind::I32);
        }
        other => panic!("expected the parse failure first, got {:?}", other),
    }
}

#[test]
fn float_tokens_travel_as_bits() {
    let params = vec![ValKind::F32, ValKind::F64];
    let tokens = strings(&["3.5", "-0.25"]);
    let (f32s, f64s) = float_parses(&tokens);
    let r = encode(&params, &tokens, &f32s, &f64s).unwrap();
    assert_eq!(
        r,
        vec![
            TypedValue::F32Bits(3.5f32.to_bits()),
            TypedValue::F64Bits((-0.25f64).to_bits()),
        ]
    );
    let lines = decode(&r);
    match &lines[0] {
        DisplayLine::F32FromBits(b) => assert_eq!(f32::from_bits(*b), 3.5f32),
        other => panic!("expected float bits, got {:?}", kind_of(other)),
    }
    match &lines[1] {
        DisplayLine::F64FromBits(b) => assert_eq!(f64::from_bits(*b), -0.25f64),
        other => panic!("expected float bits, got {:?}", kind_of(other)),
    }
}

fn kind_of(d: &DisplayLine) -> &'static str {
    match d {
        DisplayLine::Text(_) => "text",
        DisplayLine::F32FromBits(_) => "f32 bits",
        DisplayLine::F64FromBits(_) => "f64 bits",
    }
}

#[test]
fn unparsable_float_token_is_a_parse_error() {
    let params = vec![ValKind::F32];
    let tokens = strings(&["not-a-float"]);
    let (f32s, f64s) = float_parses(&tokens);
    match encode(&params, &tokens, &f32s, &f64s) {
        Err(CodecError::Parse { token, kind }) => {
            assert_eq!(token, "not-a-float");
            assert_eq!(kind, ValKind::F32);
        }
        other => panic!("expected a parse failure, got {:?}", other),
    }
}

fn expect_text(d: &DisplayLine) -> &str {
    match d {
        DisplayLine::Text(s) => s.as_str(),
        other => panic!("expected text, got {:?}", kind_of(other)),
    }
}

#[test]
fn decode_prints_one_line_per_result() {
    let results = vec![
        TypedValue::I32(-5),
        TypedValue::I64(0),
        TypedValue::ExternRef,
        TypedValue::FuncRef,
        TypedValue::V128(340282366920938463463374607431768211455u128),
    ];
    let lines = decode(&results);
    assert_eq!(lines.len(), 5);
    assert_eq!(expect_text(&lines[0]), "-5");
    assert_eq!(expect_text(&lines[1]), "0");
    assert_eq!(expect_text(&lines[2]), "<externref>");
    assert_eq!(expect_text(&lines[3]), "<funcref>");
    assert_eq!(
        expect_text(&lines[4]),
        "340282366920938463463374607431768211455"
    );
}

#[test]
fn integer_round_trip_through_printed_form() {
    for v in [0i64, 1, -1, 7, -12345, i64::MAX, i64::MIN] {
        let printed = format_i64(v);
        assert_eq!(printed, v.to_string());
        assert_eq!(parse_i64(&printed), Some(v));
    }
    for v in [0i32, 42, -42, i32::MAX, i32::MIN] {
        let printed = format_i32(v);
        assert_eq!(printed, v.to_string());
        assert_eq!(parse_i32(&printed), Some(v));
    }
    assert_eq!(format_u128(u128::MAX), u128::MAX.to_string());
}

#[test]
fn parsing_matches_the_reference_grammar() {
    for t in ["", "+", "-", " 1", "1 ", "1.0", "0x10", "--1", "+-1", "1_000"] {
        assert_eq!(parse_i64(t), t.parse::<i64>().ok(), "token {:?}", t);
        assert_eq!(parse_i32(t), t.parse::<i32>().ok(), "token {:?}", t);
    }
    for t in ["007", "+42", "-0", "9223372036854775808", "18446744073709551616"] {
        assert_eq!(parse_i64(t), t.parse::<i64>().ok(), "token {:?}", t);
        assert_eq!(parse_i32(t), t.parse::<i32>().ok(), "token {:?}", t);
    }
}
