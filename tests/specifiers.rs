use pyreq::{CompareOp, RequirementError, Specifier, Specifiers};

#[test]
fn every_operator_reads_back_from_its_spelling() {
    for tok in ["<=", "<", "!=", "==", ">=", ">", "~="] {
        let op = CompareOp::parse(tok).unwrap();
        assert_eq!(op.to_string(), tok);
    }
    assert_eq!(CompareOp::parse(">=").unwrap(), CompareOp::GreaterThanEqual);
    assert_eq!(CompareOp::parse("~=").unwrap(), CompareOp::Compatible);
}

#[test]
fn triple_equals_is_unsupported() {
    assert_eq!(CompareOp::parse("===").unwrap_err(), RequirementError::UnsupportedOperator);
}

#[test]
fn unknown_operator_is_unrecognized() {
    assert_eq!(
        CompareOp::parse("=>").unwrap_err(),
        RequirementError::UnrecognizedOperator { token: "=>".to_string() }
    );
    assert_eq!(
        CompareOp::parse("").unwrap_err(),
        RequirementError::UnrecognizedOperator { token: String::new() }
    );
}

#[test]
fn specifier_renders_operator_then_value() {
    let s = Specifier { op: CompareOp::NotEqual, value: "1.5".to_string() };
    assert_eq!(s.to_string(), "!=1.5");
}

#[test]
fn specifiers_render_joined_by_comma_and_space() {
    let v = Specifiers::parse(" >= 1.0 ,<2.0,~=1.4.2").unwrap();
    assert_eq!(v.0.len(), 3);
    assert_eq!(v.0[0], Specifier { op: CompareOp::GreaterThanEqual, value: "1.0".to_string() });
    assert_eq!(v.0[2], Specifier { op: CompareOp::Compatible, value: "1.4.2".to_string() });
    assert_eq!(v.to_string(), ">=1.0, <2.0, ~=1.4.2");
}

#[test]
fn empty_specifiers_render_empty() {
    let v = Specifiers::parse("  ").unwrap();
    assert!(v.0.is_empty());
    assert_eq!(v.to_string(), "");
    assert_eq!(Specifiers::default().to_string(), "");
}

#[test]
fn specifier_list_errors() {
    match Specifiers::parse(">=1.0,").unwrap_err() {
        RequirementError::Grammar { position, expected, .. } => {
            assert_eq!(position, 6);
            assert_eq!(expected, pyreq::Expected::Operator);
        }
        other => panic!("unexpected error {:?}", other),
    }
    assert_eq!(Specifiers::parse("===1.0").unwrap_err(), RequirementError::UnsupportedOperator);
}
