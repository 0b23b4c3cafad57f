use wasm_shim::attribute::{decode, decode_text, DecodeError, TypedValue};
use wasm_shim::literal::is_parse_safe;
use wasm_shim::schema::AttributeType;

fn decoded(cel_type: AttributeType, raw: &[u8]) -> Result<String, DecodeError> {
    decode(cel_type, raw.to_vec()).map(|value| format!("{:?}", value))
}

#[test]
fn decodes_each_type() {
    assert_eq!(decoded(AttributeType::String, b"text"), Ok("String(\"text\")".to_string()));
    assert_eq!(decoded(AttributeType::String, "dé".as_bytes()), Ok("String(\"dé\")".to_string()));
    assert_eq!(decoded(AttributeType::Bytes, &[0xff, 0]), Ok("Bytes([255, 0])".to_string()));
    assert_eq!(decoded(AttributeType::Bool, &[0]), Ok("Bool(false)".to_string()));
    assert_eq!(decoded(AttributeType::Bool, &[1]), Ok("Bool(true)".to_string()));
    assert_eq!(decoded(AttributeType::Bool, &[2]), Ok("Bool(true)".to_string()));
    assert_eq!(
        decoded(AttributeType::Int, &8080_i64.to_le_bytes()),
        Ok("Int(8080)".to_string())
    );
    assert_eq!(decoded(AttributeType::Int, &(-2_i64).to_le_bytes()), Ok("Int(-2)".to_string()));
    assert_eq!(
        decoded(AttributeType::Int, &[0x01, 0x02, 0, 0, 0, 0, 0, 0]),
        Ok("Int(513)".to_string())
    );
    assert_eq!(
        decoded(AttributeType::UInt, &u64::MAX.to_le_bytes()),
        Ok("UInt(18446744073709551615)".to_string())
    );
    assert_eq!(
        decoded(AttributeType::Float, &[0, 0, 0, 0, 0, 0, 0xf0, 0x3f]),
        Ok("Float(4607182418800017408)".to_string())
    );
    assert_eq!(
        decoded(AttributeType::Timestamp, &1685232000000000000_i64.to_le_bytes()),
        Ok("Timestamp(1685232000000000000)".to_string())
    );
}

#[test]
fn a_wrong_length_names_both_lengths() {
    assert_eq!(
        decoded(AttributeType::Int, &[1, 2, 3, 4]),
        Err(DecodeError::WrongLength { expected: 8, actual: 4 })
    );
    assert_eq!(
        decoded(AttributeType::UInt, &[]),
        Err(DecodeError::WrongLength { expected: 8, actual: 0 })
    );
    assert_eq!(
        decoded(AttributeType::Float, &[0; 9]),
        Err(DecodeError::WrongLength { expected: 8, actual: 9 })
    );
    assert_eq!(
        decoded(AttributeType::Timestamp, &[0; 7]),
        Err(DecodeError::WrongLength { expected: 8, actual: 7 })
    );
    assert_eq!(
        decoded(AttributeType::Bool, &[]),
        Err(DecodeError::WrongLength { expected: 1, actual: 0 })
    );
    assert_eq!(
        decoded(AttributeType::Bool, &[1, 1]),
        Err(DecodeError::WrongLength { expected: 1, actual: 2 })
    );
}

#[test]
fn text_that_is_not_utf8_is_rejected() {
    assert_eq!(decoded(AttributeType::String, &[0xc3]), Err(DecodeError::InvalidEncoding));
    assert_eq!(decode_text(&[0x80]), Err(DecodeError::InvalidEncoding));
    assert_eq!(decode_text(b""), Ok(String::new()));
    assert_eq!(decode_text(b"abc"), Ok("abc".to_string()));
}

#[test]
fn maps_lists_and_unknown_types_are_not_decoded() {
    for cel_type in [AttributeType::Mapping, AttributeType::List, AttributeType::Unknown] {
        assert_eq!(decoded(cel_type, b"{}"), Err(DecodeError::UnsupportedType(cel_type)));
    }
}

#[test]
fn decoded_values_are_of_the_asked_type() {
    assert!(matches!(decode(AttributeType::Int, vec![0; 8]), Ok(TypedValue::Int(0))));
    assert!(matches!(decode(AttributeType::UInt, vec![0; 8]), Ok(TypedValue::UInt(0))));
    assert!(matches!(decode(AttributeType::Float, vec![0; 8]), Ok(TypedValue::Float(0))));
    assert!(matches!(decode(AttributeType::Timestamp, vec![0; 8]), Ok(TypedValue::Timestamp(0))));
}

#[test]
fn literals_that_the_parser_is_not_given() {
    for safe in [
        "POST",
        "8080",
        "/admin/toy",
        "^/admin/\\d+$",
        "\"quoted\"",
        "0009223372036854775807",
        "-9223372036854775808",
        "2023-05-28T00:00:00+00:00",
        "1u",
        "0x",
        "",
        "a9223372036854775808b",
        "9223372036854775808.5",
        "9223372036854775808e1",
        "\"9223372036854775808\"",
        "\"0x1F\"",
        "a0x1F",
        "'5 u'",
        "x5 u",
        "\"a\\nb\"",
        "'a\\'b\\\\c\\x41'",
        "\"a\\u0041\\U0001F600\\101\\x+f\"",
        "r\"\\d+\\q\"",
        "R'\\d'",
        "b\"\\x41\\101\\x+f\"",
        "\"a\\\"",
        "\"a\\",
        "it's \\d",
        "// 0x1F",
        "1 // 5 u\n+ 2",
        "^ 0x1F",
        "= 99999999999999999999",
        "\"open 0x1F",
        "a 0x1F",
        "x\n// c\n5 u",
        "1 5 u",
        "\"s\" \"\\q\"",
        "+ 0x1F",
        "in 0x1F",
        "a ! 0x1F",
        "a -- 0x1F",
        "5 users",
        "10 units",
        "0x1F a",
        "0x1Fu",
        "99999999999999999999 a",
        "\"\\q\" a",
        "0x1F 1",
        "0x1F \"s\"",
        "0x1F !",
        "0x1F --",
        "0x1F (",
        "0x1F =",
        "0x1F $",
        "0x1F \"open",
        "0x1F true",
        "0x1F -5",
        "0x1F .5",
        "0x1F 0x2F",
        ": 0x1F",
        ", 0x1F",
        "? 0x1F",
        "[, 0x1F]",
        "a . \"\\q\" x",
        ") + 0x1F",
        "] + 0x1F",
        "(a] + 0x1F",
        "[1) , 0x1F",
        "a, 0x1F",
        "a : 0x1F",
        "(a : 0x1F)",
        "f() 0x1F",
        "(a, 0x1F)",
        "[a: 0x1F]",
        "{a: [b: 0x1F]}",
        "((a), 0x1F)",
        "1 (0x1F)",
        "(a)(0x1F)",
        "a[1](0x1F)",
        "\"s\"(0x1F)",
    ] {
        assert!(is_parse_safe(safe), "literal {safe}");
    }
    for hazard in [
        "9223372036854775808",
        "-9223372036854775809",
        "--9223372036854775808",
        "0x1F",
        "0Xa",
        "-0x1",
        "5 u",
        "5 U",
        "0x1 u",
        "\"a\\qb\"",
        "\"a\\x4\"",
        "\"a\\ud800\"",
        "\"a\\U00110000\"",
        "\"a\\400\"",
        "\"a\\08\"",
        "b\"a\\n\"",
        "b'\\\\'",
        "b\"a\\\"",
        "a + 0x1F",
        "x(5 u)",
        "(0x1F",
        "0x1F)",
        "0x1F +",
        "[0x1F",
        "a ? 0x1F",
        "0x1F ,",
        "0x1F ]",
        "0x1F }",
        "0x1F :",
        "0x1F .",
        "0x1F [",
        "0x1F {",
        "0x1F ?",
        "0x1F in",
        "0x1F // c",
        "0x1F -",
        "0x1F - 5",
        "a ? 1 : 0x1F",
        "(a) + 0x1F",
        "[a, 0x1F]",
        "{a: 0x1F}",
        "f(0x1F)",
        "f(a, 0x1F)",
        "f (a, 0x1F)",
        "a.b(0x1F)",
        "f // c\n(0x1F)",
        "{a: [b, 0x1F]}",
        "[(a), 0x1F]",
        "(a ? b : 0x1F)",
        "a[0x1F]",
        "a in 0x1F",
        "! 0x1F",
        "a - 0x1F",
        "(\"\\q\")",
        "[1, 99999999999999999999]",
    ] {
        assert!(!is_parse_safe(hazard), "literal {hazard}");
    }
}
