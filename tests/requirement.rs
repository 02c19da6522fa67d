use pyreq::{
    CompareOp, EnvMarkerExpr, Expected, Op, PackageRequirement, PackageSpecifier, ParseExtra,
    PythonRequirement, Requirement, RequirementError, Specifier, StandaloneMarkerExpr,
    UserRequirement, Value,
};

fn grammar(input: &str, position: usize, expected: Expected) -> RequirementError {
    RequirementError::Grammar { input: input.to_string(), position, expected }
}

#[test]
fn django_with_two_clauses() {
    let r = Requirement::parse("Django>=3.2,<4.0", ParseExtra::Allowed).unwrap();
    assert_eq!(r.name.as_given(), "Django");
    assert_eq!(r.name.normalized(), "django");
    assert!(r.extras.is_empty());
    assert_eq!(
        r.specifiers.0,
        vec![
            Specifier { op: CompareOp::GreaterThanEqual, value: "3.2".to_string() },
            Specifier { op: CompareOp::StrictlyLessThan, value: "4.0".to_string() },
        ]
    );
    assert!(r.env_marker_expr.is_none());
    assert_eq!(r.to_string(), "Django >=3.2, <4.0");
}

#[test]
fn requests_with_extra_and_marker() {
    let r = Requirement::parse("requests[socks]>=2.0; python_version>='3.7'", ParseExtra::Allowed)
        .unwrap();
    assert_eq!(r.extras.len(), 1);
    assert_eq!(r.extras[0].as_given(), "socks");
    assert_eq!(
        r.specifiers.0,
        vec![Specifier { op: CompareOp::GreaterThanEqual, value: "2.0".to_string() }]
    );
    assert_eq!(
        r.env_marker_expr,
        Some(EnvMarkerExpr::Operator {
            op: Op::Compare(CompareOp::GreaterThanEqual),
            lhs: Value::Variable("python_version".to_string()),
            rhs: Value::Literal("3.7".to_string()),
        })
    );
    assert_eq!(r.to_string(), "requests[socks] >=2.0; python_version >= \"3.7\"");
}

#[test]
fn marker_text_reads_back_unchanged() {
    let text = "os_name == \"posix\" and sys_platform != \"win32\"";
    let m = StandaloneMarkerExpr::parse(text).unwrap();
    assert_eq!(m.to_string(), text);
}

#[test]
fn bad_name_with_spaces_is_invalid_name() {
    assert_eq!(
        Requirement::parse("bad name with spaces", ParseExtra::Allowed).unwrap_err(),
        RequirementError::InvalidName { name: "bad name with spaces".to_string() }
    );
}

#[test]
fn canonical_texts_read_back_unchanged() {
    for text in [
        "foo",
        "foo[bar]",
        "foo[bar,baz_qux] ==1.0",
        "A.B-c_d ~=1.4.5, !=1.4.7, >0.9",
        "pkg; os_name == \"nt\"",
        "pkg >=1; (python_version < \"3.8\" or extra == \"test\") and sys_platform not in \"win32 cygwin\"",
        "pkg; platform_release in '5.0\"rc'",
        "x[y] <2; a == b or (c == \"d\" and (e == \"f\" or g == \"h\"))",
    ] {
        let r = Requirement::parse(text, ParseExtra::Allowed).unwrap();
        assert_eq!(r.to_string(), text);
        let again = Requirement::parse(&r.to_string(), ParseExtra::Allowed).unwrap();
        assert_eq!(again, r);
    }
}

#[test]
fn blanks_between_tokens_are_ignored() {
    let r = Requirement::parse("  foo [ bar , baz ]  >= 1.0 ,  < 2 ;  ( a == 'b' )  ", ParseExtra::Allowed)
        .unwrap();
    assert_eq!(r.to_string(), "foo[bar,baz] >=1.0, <2; a == \"b\"");
}

#[test]
fn and_binds_tighter_than_or() {
    let m = StandaloneMarkerExpr::parse("a == 'x' or b == 'y' and c == 'z'").unwrap();
    match &m.0 {
        EnvMarkerExpr::Or(_, r) => assert!(matches!(**r, EnvMarkerExpr::And(_, _))),
        other => panic!("unexpected tree {:?}", other),
    }
    assert_eq!(m.to_string(), "a == \"x\" or (b == \"y\" and c == \"z\")");
    let chain = StandaloneMarkerExpr::parse("a == 'x' and b == 'y' and c == 'z'").unwrap();
    assert_eq!(chain.to_string(), "(a == \"x\" and b == \"y\") and c == \"z\"");
}

#[test]
fn literal_with_double_quote_uses_single_quotes() {
    let v = Value::Literal("say \"hi\"".to_string());
    assert_eq!(v.to_string(), "'say \"hi\"'");
    assert_eq!(Value::Literal("it's".to_string()).to_string(), "\"it's\"");
    assert_eq!(Value::Variable("os_name".to_string()).to_string(), "os_name");
}

#[test]
fn extras_rejected_when_not_allowed() {
    assert_eq!(
        Requirement::parse("foo[bar]", ParseExtra::NotAllowed).unwrap_err(),
        grammar("foo[bar]", 3, Expected::NoExtras)
    );
    assert_eq!(
        PythonRequirement::parse("foo[bar]").unwrap_err(),
        grammar("foo[bar]", 3, Expected::NoExtras)
    );
}

#[test]
fn python_requirement_rejects_marker() {
    let r = Requirement::parse("python>=3.8; os_name=='posix'", ParseExtra::NotAllowed).unwrap();
    assert!(r.env_marker_expr.is_some());
    assert_eq!(PythonRequirement::try_from(r).unwrap_err(), RequirementError::UnexpectedMarker);
}

#[test]
fn python_requirement_rejects_extras() {
    let r = Requirement::parse("python[x]>=3.8", ParseExtra::Allowed).unwrap();
    assert_eq!(PythonRequirement::try_from(r).unwrap_err(), RequirementError::UnexpectedExtras);
}

#[test]
fn python_requirement_accepts_plain_requirement() {
    let p = PythonRequirement::parse("python >=3.8, <4").unwrap();
    assert_eq!(p.requirement().name.normalized(), "python");
    assert_eq!(p.to_string(), "python >=3.8, <4");
}

#[test]
fn requirement_without_name_is_invalid() {
    assert_eq!(
        Requirement::parse(">=3.8; os_name=='posix'", ParseExtra::NotAllowed).unwrap_err(),
        RequirementError::InvalidName { name: String::new() }
    );
}

#[test]
fn user_and_package_requirements() {
    assert_eq!(UserRequirement::parse("foo >=1; os_name == 'nt'").unwrap().to_string(),
        "foo >=1; os_name == \"nt\"");
    assert!(UserRequirement::parse("foo[x]").is_err());
    let p = PackageRequirement::parse("foo[x]").unwrap();
    assert_eq!(p.requirement().extras[0].normalized(), "x");
    assert_eq!(p.to_string(), "foo[x]");
}

#[test]
fn grammar_errors_name_position_and_construct() {
    let cases = [
        ("foo[bar", 7, Expected::CloseBracket),
        ("foo>=", 5, Expected::Version),
        ("foo; os_name ==", 15, Expected::Value),
        ("foo; os_name == 'x", 18, Expected::CloseQuote),
        ("foo; (a == 'b'", 14, Expected::CloseParen),
        ("foo>=1.0 bar", 9, Expected::EndOfInput),
        ("foo; a is 'b'", 7, Expected::MarkerOperator),
        ("foo; a not 'b'", 11, Expected::MarkerOperator),
    ];
    for (input, position, expected) in cases {
        assert_eq!(
            Requirement::parse(input, ParseExtra::Allowed).unwrap_err(),
            grammar(input, position, expected),
            "input {:?}",
            input
        );
    }
}

#[test]
fn operator_errors_inside_requirements() {
    assert_eq!(
        Requirement::parse("foo===1.0", ParseExtra::Allowed).unwrap_err(),
        RequirementError::UnsupportedOperator
    );
    assert_eq!(
        Requirement::parse("foo=>1.0", ParseExtra::Allowed).unwrap_err(),
        RequirementError::UnrecognizedOperator { token: "=>".to_string() }
    );
    assert_eq!(
        Requirement::parse("foo[b_]", ParseExtra::Allowed).unwrap_err(),
        RequirementError::InvalidName { name: "b_".to_string() }
    );
}

#[test]
fn package_specifier_reads_requirement() {
    let spec = PackageSpecifier::parse("Black[d] ==23.1").unwrap();
    assert_eq!(spec.name(), "black");
    assert_eq!(spec.to_string(), "Black[d] ==23.1");
    assert!(PackageSpecifier::parse("not a name").is_err());
}
