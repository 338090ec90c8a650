//! Values, operators on them, and doubles held as bits.

use crlox::interpreter::Interpreter;
use crlox::interpreter::Operation;
use crlox::interpreter::Outcome;
use crlox::number;
use crlox::text;
use crlox::token::TokenType;
use crlox::value::Value;

fn num(x: f64) -> Value {
    Value::Num(x.to_bits())
}

fn text_of(s: &str) -> Value {
    Value::Str(s.to_string())
}

fn samples() -> Vec<f64> {
    vec![
        0.0,
        -0.0,
        1.0,
        -1.0,
        0.5,
        -0.5,
        1.5,
        2.0,
        1e300,
        -1e300,
        5e-324,
        -5e-324,
        f64::MIN_POSITIVE,
        f64::MAX,
        f64::MIN,
        f64::INFINITY,
        f64::NEG_INFINITY,
        f64::NAN,
        -f64::NAN,
        f64::from_bits(0x7ff0_0000_0000_0001),
        f64::from_bits(0xfff8_0000_0000_0000),
    ]
}

#[test]
fn comparison_on_bits_agrees_with_doubles() {
    for a in samples() {
        for b in samples() {
            let (x, y) = (a.to_bits(), b.to_bits());
            assert_eq!(number::less(x, y), a < b, "{:?} < {:?}", a, b);
            assert_eq!(number::less_equal(x, y), a <= b, "{:?} <= {:?}", a, b);
            assert_eq!(number::equal(x, y), a == b, "{:?} == {:?}", a, b);
        }
    }
}

#[test]
fn negation_zero_and_nan_on_bits_agree_with_doubles() {
    for a in samples() {
        assert_eq!(number::negate(a.to_bits()), (-a).to_bits(), "{:?}", a);
        assert_eq!(number::is_zero(a.to_bits()), a == 0.0, "{:?}", a);
        assert_eq!(number::is_nan(a.to_bits()), a.is_nan(), "{:?}", a);
    }
    assert_eq!(number::negate(1.5f64.to_bits()), (-1.5f64).to_bits());
}

#[test]
fn truthiness() {
    assert!(!Interpreter::is_truthy(&Value::Nill));
    assert!(!Interpreter::is_truthy(&Value::False));
    assert!(Interpreter::is_truthy(&Value::True));
    assert!(Interpreter::is_truthy(&num(0.0)));
    assert!(Interpreter::is_truthy(&text_of("")));
}

#[test]
fn double_negation_keeps_truthiness() {
    for v in [Value::Nill, Value::False, Value::True, num(0.0), num(f64::NAN), text_of("")] {
        let truthy = Interpreter::is_truthy(&v);
        let once = match Interpreter::visit_unary(TokenType::Bang, v) {
            Outcome::Value(x) => x,
            other => panic!("{:?}", other),
        };
        assert_eq!(Interpreter::is_truthy(&once), !truthy);
        let twice = match Interpreter::visit_unary(TokenType::Bang, once) {
            Outcome::Value(x) => x,
            other => panic!("{:?}", other),
        };
        assert!(matches!(twice, Value::True | Value::False));
        assert_eq!(Interpreter::is_truthy(&twice), truthy);
    }
}

#[test]
fn equality_is_reflexive_but_for_nan() {
    for v in [Value::Nill, Value::False, Value::True, num(0.0), num(-2.5), text_of("a")] {
        assert!(Interpreter::is_equal(&v, &v), "{:?}", v);
    }
    assert!(!Interpreter::is_equal(&num(f64::NAN), &num(f64::NAN)));
    assert!(Interpreter::is_equal(&num(0.0), &num(-0.0)));
}

#[test]
fn equality_across_kinds_is_false() {
    assert!(!Interpreter::is_equal(&Value::Nill, &Value::False));
    assert!(!Interpreter::is_equal(&num(1.0), &text_of("1")));
    assert!(!Interpreter::is_equal(&Value::True, &num(1.0)));
    assert!(!Interpreter::is_equal(&text_of("a"), &text_of("b")));
    assert!(!Interpreter::is_equal(&num(1.0), &num(2.0)));
}

#[test]
fn stringify_gives_the_canonical_text() {
    assert_eq!(Interpreter::stringify(&Value::Nill, ""), "nill");
    assert_eq!(Interpreter::stringify(&Value::True, ""), "true");
    assert_eq!(Interpreter::stringify(&Value::False, ""), "false");
    assert_eq!(Interpreter::stringify(&text_of("a b"), "ignored"), "a b");
    assert_eq!(Interpreter::stringify(&num(3.0), "3.0"), "3");
    assert_eq!(Interpreter::stringify(&num(3.0), "3"), "3");
    assert_eq!(Interpreter::stringify(&num(2.5), "2.5"), "2.5");
    assert_eq!(Interpreter::stringify(&num(0.0), ".0"), "");
}

#[test]
fn strip_point_zero_removes_only_a_final_point_zero() {
    assert_eq!(text::strip_point_zero("10.0"), "10");
    assert_eq!(text::strip_point_zero("10.05"), "10.05");
    assert_eq!(text::strip_point_zero("0"), "0");
    assert_eq!(text::strip_point_zero(""), "");
    assert_eq!(text::strip_point_zero("1.0.0"), "1.0");
}

#[test]
fn arithmetic_is_left_to_the_host() {
    let (a, b) = (1.5f64.to_bits(), 2.0f64.to_bits());
    for (kind, op) in [
        (TokenType::Minus, Operation::Subtract),
        (TokenType::Plus, Operation::Add),
        (TokenType::Star, Operation::Multiply),
        (TokenType::Slash, Operation::Divide),
    ] {
        match Interpreter::visit_binary(kind, Value::Num(a), Value::Num(b)) {
            Outcome::Arithmetic(o, x, y) => {
                assert_eq!(o, op);
                assert_eq!((x, y), (a, b));
            }
            other => panic!("{:?}", other),
        }
    }
}

#[test]
fn division_by_either_zero_fails() {
    for zero in [0.0f64, -0.0f64] {
        match Interpreter::visit_binary(TokenType::Slash, num(1.0), num(zero)) {
            Outcome::Failure(m) => assert_eq!(m, "Can't divide by 0"),
            other => panic!("{:?}", other),
        }
    }
}

#[test]
fn concatenation_leaves_a_gap_for_the_number() {
    match Interpreter::visit_binary(TokenType::Plus, num(1.0), text_of("a")) {
        Outcome::Concatenation { before, number, after } => {
            assert_eq!(before, "");
            assert_eq!(number, 1.0f64.to_bits());
            assert_eq!(after, "a");
        }
        other => panic!("{:?}", other),
    }
    match Interpreter::visit_binary(TokenType::Plus, text_of("a"), num(1.0)) {
        Outcome::Concatenation { before, number, after } => {
            assert_eq!(before, "a");
            assert_eq!(number, 1.0f64.to_bits());
            assert_eq!(after, "");
        }
        other => panic!("{:?}", other),
    }
    match Interpreter::visit_binary(TokenType::Plus, text_of("a"), text_of("b")) {
        Outcome::Value(Value::Str(s)) => assert_eq!(s, "ab"),
        other => panic!("{:?}", other),
    }
}

#[test]
fn operand_errors() {
    match Interpreter::visit_binary(TokenType::Minus, Value::True, text_of("a")) {
        Outcome::Failure(m) => assert_eq!(m, "True and Str(\"a\") must both be numbers"),
        other => panic!("{:?}", other),
    }
    match Interpreter::visit_binary(TokenType::Greater, num(1.0), Value::Nill) {
        Outcome::Complaint { before, number, after } => {
            assert_eq!(before, "Num(");
            assert_eq!(number, 1.0f64.to_bits());
            assert_eq!(after, ") and Nill must both be numbers");
        }
        other => panic!("{:?}", other),
    }
    match Interpreter::visit_binary(TokenType::Plus, Value::False, num(2.0)) {
        Outcome::Complaint { before, number, after } => {
            assert_eq!(before, "false and ");
            assert_eq!(number, 2.0f64.to_bits());
            assert_eq!(after, " must be either a String or a Num");
        }
        other => panic!("{:?}", other),
    }
    match Interpreter::binary_error(&Value::Nill, &Value::Nill, false, " tail") {
        Outcome::Failure(m) => assert_eq!(m, "nill and nill tail"),
        other => panic!("{:?}", other),
    }
}

#[test]
fn comparisons_of_numbers() {
    let t = |kind, a: f64, b: f64| match Interpreter::visit_binary(kind, num(a), num(b)) {
        Outcome::Value(Value::True) => true,
        Outcome::Value(Value::False) => false,
        other => panic!("{:?}", other),
    };
    assert!(t(TokenType::Less, 1.0, 2.0));
    assert!(!t(TokenType::Less, 2.0, 2.0));
    assert!(t(TokenType::LessEqual, 2.0, 2.0));
    assert!(t(TokenType::Greater, 3.0, -4.0));
    assert!(t(TokenType::GreaterEqual, 0.0, -0.0));
    assert!(!t(TokenType::GreaterEqual, f64::NAN, 1.0));
    assert!(t(TokenType::EqualEqual, 2.0, 2.0));
    assert!(t(TokenType::BangEqual, f64::NAN, f64::NAN));
}

#[test]
fn other_operators_yield_nil() {
    assert!(matches!(
        Interpreter::visit_binary(TokenType::Comma, num(1.0), num(2.0)),
        Outcome::Value(Value::Nill)
    ));
    assert!(matches!(
        Interpreter::visit_unary(TokenType::Plus, num(1.0)),
        Outcome::Value(Value::Nill)
    ));
}

#[test]
fn decimal_numerals() {
    let mut s = String::from("n=");
    text::push_decimal(&mut s, 0);
    text::push_decimal(&mut s, 7);
    text::push_decimal(&mut s, 10);
    text::push_decimal(&mut s, 4294967295);
    assert_eq!(s, "n=07104294967295");
}

#[test]
fn spells_compares_a_stretch_with_a_word() {
    let chars: Vec<char> = "a var b".chars().collect();
    assert!(text::spells(&chars, 2, 5, "var"));
    assert!(!text::spells(&chars, 2, 4, "var"));
    assert!(!text::spells(&chars, 1, 4, "var"));
    assert!(text::spells(&chars, 3, 3, ""));
}
