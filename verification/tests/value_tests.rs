use loxemu::value::Checked;
use loxemu::{Error, Value};

#[test]
fn value_rendering() {
    assert_eq!(Value::nil().render(), "nil");
    assert_eq!(Value::Bool(true).render(), "true");
    assert_eq!(Value::Bool(false).render(), "false");
    assert_eq!(Value::Number("1.25".to_string()).render(), "1.25");
    assert_eq!(Value::String("raw contents".to_string()).render(), "raw contents");
}

#[test]
fn value_checked_add_dispatch() {
    // two numbers hand their texts to the host
    match Value::checked_add(
        Value::Number("1.25".to_string()),
        Value::Number("3.5".to_string()),
    ) {
        Ok(Checked::Numbers(a, b)) => {
            assert_eq!(a, "1.25");
            assert_eq!(b, "3.5");
        }
        _ => panic!("expected the numeric pair"),
    }

    // two strings concatenate in place
    match Value::checked_add(
        Value::String("ab".to_string()),
        Value::String("cd".to_string()),
    ) {
        Ok(Checked::Done(v)) => assert_eq!(v, Value::String("abcd".to_string())),
        _ => panic!("expected a concatenated string"),
    }

    // any other pairing is a type error naming addition
    match Value::checked_add(Value::Nil, Value::Number("1".to_string())) {
        Err(Error::TypeError { operation, .. }) => assert_eq!(operation, "addition"),
        _ => panic!("expected a type error"),
    }
}

#[test]
fn value_checked_ops_require_numbers() {
    match Value::checked_sub(Value::Bool(true), Value::Number("1".to_string())) {
        Err(Error::TypeError { operation, operand_type }) => {
            assert_eq!(operation, "subtraction");
            assert_eq!(operand_type, "non-number");
        }
        _ => panic!("expected a type error"),
    }
    match Value::checked_mul(Value::Nil, Value::Nil) {
        Err(Error::TypeError { operation, .. }) => assert_eq!(operation, "multiplication"),
        _ => panic!("expected a type error"),
    }
    match Value::checked_div(Value::String("s".to_string()), Value::Number("1".to_string())) {
        Err(Error::TypeError { operation, .. }) => assert_eq!(operation, "division"),
        _ => panic!("expected a type error"),
    }
    match Value::checked_neg(Value::Bool(false)) {
        Err(Error::TypeError { operation, operand_type }) => {
            assert_eq!(operation, "negation");
            assert_eq!(operand_type, "non-number");
        }
        _ => panic!("expected a type error"),
    }
    match Value::checked_neg(Value::Number("8".to_string())) {
        Ok(Checked::Number(t)) => assert_eq!(t, "8"),
        _ => panic!("expected the numeric operand"),
    }
}

#[test]
fn value_equality_is_structural() {
    assert_eq!(Value::Nil, Value::Nil);
    assert_eq!(Value::Bool(true), Value::Bool(true));
    assert_ne!(Value::Bool(true), Value::Bool(false));
    assert_eq!(
        Value::Number("1.5".to_string()),
        Value::Number("1.5".to_string())
    );
    assert_ne!(Value::Number("1".to_string()), Value::String("1".to_string()));
    assert_ne!(Value::Nil, Value::Bool(false));
}
