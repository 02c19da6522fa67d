use pyreq::{Env, RequirementError, StandaloneMarkerExpr};

fn env() -> Vec<(String, String)> {
    vec![
        ("os_name".to_string(), "posix".to_string()),
        ("python_version".to_string(), "3.10".to_string()),
        ("sys_platform".to_string(), "linux".to_string()),
        ("os_name".to_string(), "shadowed".to_string()),
    ]
}

fn eval(text: &str) -> Result<bool, RequirementError> {
    StandaloneMarkerExpr::parse(text).unwrap().0.evaluate(&env())
}

#[test]
fn lookup_takes_first_entry() {
    let e = env();
    assert_eq!(e.get_marker_var("os_name"), Some("posix"));
    assert_eq!(e.get_marker_var("missing"), None);
}

#[test]
fn comparisons_are_lexicographic() {
    assert_eq!(eval("os_name == 'posix'"), Ok(true));
    assert_eq!(eval("os_name != 'posix'"), Ok(false));
    assert_eq!(eval("python_version >= '3.9'"), Ok(false));
    assert_eq!(eval("python_version < '3.9'"), Ok(true));
    assert_eq!(eval("'abc' < 'abd'"), Ok(true));
    assert_eq!(eval("'ab' <= 'ab'"), Ok(true));
    assert_eq!(eval("'b' > 'abc'"), Ok(true));
    assert_eq!(eval("'1.0' ~= '1.0'"), Ok(true));
}

#[test]
fn in_tests_substring() {
    assert_eq!(eval("'lin' in sys_platform"), Ok(true));
    assert_eq!(eval("sys_platform in 'linux darwin'"), Ok(true));
    assert_eq!(eval("'win' in sys_platform"), Ok(false));
    assert_eq!(eval("'win' not in sys_platform"), Ok(true));
    assert_eq!(eval("'' in sys_platform"), Ok(true));
}

#[test]
fn and_or_short_circuit() {
    assert_eq!(eval("os_name == 'nt' and undefined_var == 'x'"), Ok(false));
    assert_eq!(eval("os_name == 'posix' or undefined_var == 'x'"), Ok(true));
    assert_eq!(eval("os_name == 'posix' and sys_platform == 'linux'"), Ok(true));
    assert_eq!(eval("os_name == 'nt' or sys_platform == 'darwin'"), Ok(false));
}

#[test]
fn undefined_variable_is_an_error() {
    assert_eq!(
        eval("os_name == 'posix' and implementation_name == 'cpython'"),
        Err(RequirementError::UndefinedVariable { name: "implementation_name".to_string() })
    );
}
