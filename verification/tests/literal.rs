use wasm_shim::configuration::WhenConditionOperator;
use wasm_shim::expression::{CelExpression, Fault};
use wasm_shim::literal::is_parse_safe;
use wasm_shim::schema::AttributeType;

fn compiles(value: &str) -> Result<AttributeType, Fault> {
    CelExpression::compile_condition("foobar", WhenConditionOperator::Equal, value)
        .map(|compiled| compiled.cel_type())
}

#[test]
fn floats_of_every_form_are_parsed() {
    for literal in ["1.0", ".5", "+.5", "-.5e-3", "1e5", "+1E+5", "00.25", "12345678901234567.5"] {
        assert_eq!(compiles(literal), Ok(AttributeType::Float), "literal {literal}");
    }
}

#[test]
fn strings_without_escapes_are_parsed() {
    for literal in ["\"\"", "''", "\"it's\"", "'say \"hi\"'", "r\"raw\"", "R'raw'"] {
        assert_eq!(compiles(literal), Ok(AttributeType::String), "literal {literal}");
    }
    for literal in ["b\"\"", "B'bytes'", "b\"\u{e9}\""] {
        assert_eq!(compiles(literal), Ok(AttributeType::Bytes), "literal {literal}");
    }
}

#[test]
fn strings_with_escapes_are_parsed() {
    let text = |literal: &str| {
        CelExpression::compile_condition("foobar", WhenConditionOperator::Equal, literal)
            .map(|compiled| compiled.expression_text())
    };
    assert_eq!(
        text(r#""a\"b""#),
        Ok(r#"Relation(Ident("attribute"), Equals, Atom(String("a\"b")))"#.to_string())
    );
    assert_eq!(
        text(r#"'tab\there\x41\\'"#),
        Ok(r#"Relation(Ident("attribute"), Equals, Atom(String("tab\thereA\\")))"#.to_string())
    );
    assert_eq!(
        text(r#""\u00e9\U0001F600\101\x+f""#),
        Ok("Relation(Ident(\"attribute\"), Equals, Atom(String(\"\u{e9}\u{1f600}A\\u{f}\")))"
            .to_string())
    );
    assert_eq!(
        text(r#"r"\d+\.""#),
        Ok(r#"Relation(Ident("attribute"), Equals, Atom(String("\\d+\\.")))"#.to_string())
    );
    assert_eq!(
        text(r#"b"\x41\101""#),
        Ok(r#"Relation(Ident("attribute"), Equals, Atom(Bytes([65, 65])))"#.to_string())
    );
    assert_eq!(text(r#""\d""#), Err(Fault::UnsafeLiteral));
    assert_eq!(text(r#"b"\n""#), Err(Fault::UnsafeLiteral));
}

#[test]
fn a_condition_on_text_takes_every_literal() {
    let text = |literal: &str, operator| {
        CelExpression::compile_condition("request.id", operator, literal)
            .map(|compiled| (compiled.cel_type(), compiled.expression_text()))
    };
    let equal = |operand: &str| {
        Ok((
            AttributeType::String,
            format!("Relation(Ident(\"attribute\"), Equals, Atom(String({operand:?})))"),
        ))
    };
    assert_eq!(text("\"a\\nb\"", WhenConditionOperator::Equal), equal("a\nb"));
    assert_eq!(text("r\"^\\d+$\"", WhenConditionOperator::Equal), equal("^\\d+$"));
    assert_eq!(text("( 'x' ) // note", WhenConditionOperator::Equal), equal("x"));
    for raw in [
        "0x1F",
        "5 u",
        "99999999999999999999",
        "\"a\\qb\"",
        "b\"a\\n\"",
        "a + 0x1F",
        "{\"a\": 0x1F}",
        "[1, 2]",
        "1 + 1",
        "",
        "null",
        "b\"bytes\"",
    ] {
        assert_eq!(text(raw, WhenConditionOperator::Equal), equal(raw), "literal {raw}");
    }
    assert_eq!(
        text("0x1F", WhenConditionOperator::Matches),
        Ok((
            AttributeType::String,
            "FunctionCall(Ident(\"matches\"), Some(Ident(\"attribute\")), [Atom(String(\"0x1F\"))])"
                .to_string()
        ))
    );
}

#[test]
fn an_unsafe_literal_is_refused_only_where_its_form_decides() {
    let fault = |selector: &str, operator, literal: &str| {
        CelExpression::compile_condition(selector, operator, literal).map(|c| c.cel_type())
    };
    let equal = WhenConditionOperator::Equal;
    let starts = WhenConditionOperator::StartsWith;
    assert_eq!(fault("foobar", equal, "0x1F"), Err(Fault::UnsafeLiteral));
    assert_eq!(fault("foobar", starts, "0x1F"), Err(Fault::UnsafeLiteral));
    assert_eq!(fault("destination.port", equal, "0x1F"), Err(Fault::UnsafeLiteral));
    assert_eq!(
        fault("destination.port", starts, "0x1F"),
        Err(Fault::UnsupportedOperator(AttributeType::Int))
    );
    assert_eq!(
        fault("connection.mtls", starts, "5 u"),
        Err(Fault::UnsupportedOperator(AttributeType::Bool))
    );
    assert_eq!(fault("request.path", starts, "0x1F"), Ok(AttributeType::String));
}


#[test]
fn a_parsed_literal_compiles_as_the_literal_does() {
    for literal in ["8080", "\"a\"", "POST", "a.b", "{1: 2}", "[1]", "1 + 2", "true", "/x"] {
        assert!(is_parse_safe(literal));
        let parsed = cel_parser::parse(literal).ok();
        let assembled =
            CelExpression::assemble("foobar", WhenConditionOperator::Equal, literal, parsed);
        let compiled =
            CelExpression::compile_condition("foobar", WhenConditionOperator::Equal, literal);
        match (assembled, compiled) {
            (Ok(a), Ok(c)) => {
                assert_eq!(a.cel_type(), c.cel_type());
                assert_eq!(a.expression_text(), c.expression_text());
            }
            (Err(a), Err(c)) => assert_eq!(a, c),
            _ => panic!("literal {literal}"),
        }
    }
}

fn probe(seed: u64, rounds: usize) {
    let pieces = [
        "0", "1", "7", "42", "9223372036854775807", "9223372036854775808", "00", "x", "X", "0x",
        "u", "U", " ", " u", "e", "E", "e5", ".", ".5", "+", "-", "\"", "'", "\\", "\\n",
        "\\q", "\\x4", "\\x41", "\\\"", "\\'", "\\\\", "\\t", "\\u00e9", "\\ud800", "\\101",
        "\\U0010FFFF", "\\x+f", "\\0", "b", "b\"", "B'", "r",
        "r\"", "R'", "a", "f", "abc", "_", "true",
        "null", "[", "]", "{", "}", ":", ",", "(", ")", "!", "==", "<", "?", "&&", "||", "in",
        "/", "*", "%", "\n", "\t", "//", "\u{e9}", "\u{4e2d}",
    ];
    let mut state: u64 = seed;
    let mut next = move || {
        state ^= state << 13;
        state ^= state >> 7;
        state ^= state << 17;
        state
    };
    let mut safe = 0;
    for _ in 0..rounds {
        let length = 1 + (next() % 5) as usize;
        let literal: String = (0..length)
            .map(|_| pieces[(next() % pieces.len() as u64) as usize])
            .collect();
        if is_parse_safe(&literal) {
            safe += 1;
            let _ = compiles(&literal);
        } else {
            assert_eq!(compiles(&literal), Err(Fault::UnsafeLiteral));
        }
    }
    assert!(2 * safe > rounds);
}

#[test]
fn every_safe_literal_is_taken_in() {
    probe(0x2545_f491_4f6c_dd1d, 300);
}

#[test]
fn every_safe_literal_is_taken_in_on_a_second_run() {
    probe(0x9e37_79b9_7f4a_7c15, 300);
}

#[test]
fn every_safe_literal_is_taken_in_on_a_third_run() {
    probe(0xd1b5_4a32_d192_ed03, 300);
}

#[test]
fn every_safe_literal_is_taken_in_on_a_fourth_run() {
    probe(0x0123_4567_89ab_cdef, 300);
}

#[test]
fn long_digit_runs_are_taken_in_up_to_the_largest_integer() {
    assert_eq!(compiles("0000000000000000000000000000000000001"), Ok(AttributeType::Int));
    assert_eq!(compiles("-9223372036854775807"), Ok(AttributeType::Int));
    assert_eq!(compiles("9223372036854775807.5"), Ok(AttributeType::Float));
    assert_eq!(compiles("9223372036854775808.5"), Ok(AttributeType::Float));
    assert_eq!(compiles("a9223372036854775808"), Ok(AttributeType::String));
    assert_eq!(compiles("-9223372036854775808"), Ok(AttributeType::Int));
    assert_eq!(compiles("\"9223372036854775808\""), Ok(AttributeType::String));
    assert_eq!(compiles("9223372036854775808"), Err(Fault::UnsafeLiteral));
}
