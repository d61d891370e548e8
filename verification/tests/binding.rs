use clik::args::bind;
use clik::args::parse_bool;
use clik::args::parse_i64;
use clik::args::ArgDescriptor;
use clik::args::ArgType;
use clik::args::ArgValue;
use clik::args::IntParseError;
use clik::error::BindError;
use clik::error::MissingArgumentError;
use clik::error::WrongArgumentError;
use clik::render::usize_to_string;

fn descriptor(name: &str, ty: ArgType, position: usize) -> ArgDescriptor {
    ArgDescriptor { name: name.to_string(), ty, position }
}

#[test]
fn test_missing_argument() {
    let descs = vec![descriptor("n", ArgType::Integer, 0)];
    let tokens: Vec<String> = Vec::new();
    match bind(&descs, &tokens) {
        Err(BindError::Missing(m)) => {
            assert_eq!(m.name, "n".to_string());
            assert_eq!(m.position, 0);
            assert_eq!(m.ty, "i64".to_string());
        }
        _ => panic!("binding against no tokens must report a missing argument"),
    }
}

#[test]
fn test_wrong_argument() {
    let descs = vec![descriptor("n", ArgType::Integer, 0)];
    let tokens = vec!["abc".to_string()];
    match bind(&descs, &tokens) {
        Err(BindError::Wrong(w)) => {
            assert_eq!(w.name, "n".to_string());
            assert_eq!(w.position, 0);
            assert_eq!(w.ty, "i64".to_string());
            assert_eq!(w.inner, "invalid digit found in string".to_string());
        }
        _ => panic!("an unparsable token must report a wrong argument"),
    }
}

#[test]
fn test_bound_integer() {
    let descs = vec![descriptor("n", ArgType::Integer, 0)];
    let tokens = vec!["5".to_string()];
    let vals = bind(&descs, &tokens).expect("a digit token must bind");
    assert_eq!(vals.len(), 1);
    assert!(matches!(vals[0], ArgValue::Integer(5)));
}

#[test]
fn test_extra_tokens_are_not_consumed() {
    let descs = vec![descriptor("n", ArgType::Integer, 0)];
    let tokens = vec!["5".to_string(), "rest".to_string()];
    let vals = bind(&descs, &tokens).expect("extra tokens must not disturb binding");
    assert_eq!(vals.len(), 1);
}

#[test]
fn test_bind_mixed_types() {
    let descs = vec![
        descriptor("a", ArgType::Integer, 0),
        descriptor("b", ArgType::Text, 1),
        descriptor("c", ArgType::Boolean, 2),
    ];
    let tokens = vec!["-7".to_string(), "hi".to_string(), "true".to_string()];
    let vals = bind(&descs, &tokens).expect("all three tokens must bind");
    assert_eq!(vals.len(), 3);
    assert!(matches!(vals[0], ArgValue::Integer(-7)));
    match &vals[1] {
        ArgValue::Text(s) => assert_eq!(s, "hi"),
        _ => panic!("the second value must be text"),
    }
    assert!(matches!(vals[2], ArgValue::Boolean(true)));
}

#[test]
fn test_bind_fails_fast() {
    let descs = vec![
        descriptor("a", ArgType::Integer, 0),
        descriptor("b", ArgType::Integer, 1),
    ];
    let tokens = vec!["x".to_string(), "y".to_string()];
    match bind(&descs, &tokens) {
        Err(BindError::Wrong(w)) => assert_eq!(w.position, 0),
        _ => panic!("the first failing position must be reported"),
    }
}

#[test]
fn test_bind_boolean_rejects_other_words() {
    let descs = vec![descriptor("flag", ArgType::Boolean, 0)];
    let tokens = vec!["True".to_string()];
    match bind(&descs, &tokens) {
        Err(BindError::Wrong(w)) => {
            assert_eq!(w.ty, "bool".to_string());
            assert_eq!(w.inner, "expected 'true' or 'false'".to_string());
        }
        _ => panic!("a capitalized word must not parse as a boolean"),
    }
}

#[test]
fn test_parse_i64_values() {
    assert_eq!(parse_i64("5"), Ok(5));
    assert_eq!(parse_i64("-3"), Ok(-3));
    assert_eq!(parse_i64("+7"), Ok(7));
    assert_eq!(parse_i64("0"), Ok(0));
    assert_eq!(parse_i64("007"), Ok(7));
    assert_eq!(parse_i64("9223372036854775807"), Ok(i64::MAX));
    assert_eq!(parse_i64("-9223372036854775808"), Ok(i64::MIN));
}

#[test]
fn test_parse_i64_failures() {
    assert_eq!(parse_i64(""), Err(IntParseError::Empty));
    assert_eq!(parse_i64("-"), Err(IntParseError::InvalidDigit));
    assert_eq!(parse_i64("+"), Err(IntParseError::InvalidDigit));
    assert_eq!(parse_i64("abc"), Err(IntParseError::InvalidDigit));
    assert_eq!(parse_i64("12a"), Err(IntParseError::InvalidDigit));
    assert_eq!(parse_i64("9223372036854775808"), Err(IntParseError::OutOfRange));
    assert_eq!(parse_i64("-9223372036854775809"), Err(IntParseError::OutOfRange));
    assert_eq!(
        parse_i64("99999999999999999999"),
        Err(IntParseError::OutOfRange)
    );
}

#[test]
fn test_parse_bool_values() {
    assert_eq!(parse_bool(&"true".to_string()), Some(true));
    assert_eq!(parse_bool(&"false".to_string()), Some(false));
    assert_eq!(parse_bool(&"yes".to_string()), None);
    assert_eq!(parse_bool(&"".to_string()), None);
}

#[test]
fn test_missing_argument_message() {
    let m = MissingArgumentError {
        name: "n".to_string(),
        position: 0,
        ty: "i64".to_string(),
    };
    assert_eq!(
        m.message(),
        "Argument 'n' at position #0 of type 'i64' not found".to_string()
    );
}

#[test]
fn test_wrong_argument_message() {
    let w = WrongArgumentError {
        name: "count".to_string(),
        position: 12,
        ty: "i64".to_string(),
        inner: "invalid digit found in string".to_string(),
    };
    assert_eq!(
        w.message(),
        "Failed to parse argument 'count' at position #12 of type 'i64': invalid digit found in string"
            .to_string()
    );
}

#[test]
fn test_usize_to_string() {
    assert_eq!(usize_to_string(0), "0".to_string());
    assert_eq!(usize_to_string(9), "9".to_string());
    assert_eq!(usize_to_string(10), "10".to_string());
    assert_eq!(usize_to_string(12345), "12345".to_string());
}
