use pyreq::{normalize, RequirementError};

#[test]
fn flask_sqlalchemy_keeps_spelling_and_normalizes() {
    let n = normalize("Flask_SQLAlchemy").unwrap();
    assert_eq!(n.as_given(), "Flask_SQLAlchemy");
    assert_eq!(n.normalized(), "flask-sqlalchemy");
}

#[test]
fn separator_runs_collapse_to_one_dash() {
    let n = normalize("Zope.._-Interface").unwrap();
    assert_eq!(n.normalized(), "zope-interface");
    assert_eq!(n.as_given(), "Zope.._-Interface");
}

#[test]
fn normalizing_twice_changes_nothing() {
    let first = normalize("My__Package.Name").unwrap();
    let again = normalize(first.as_given()).unwrap();
    assert_eq!(again.as_given(), first.as_given());
    assert_eq!(again.normalized(), first.normalized());
    let canonical = normalize(first.normalized()).unwrap();
    assert_eq!(canonical.normalized(), first.normalized());
    assert_eq!(canonical.as_given(), "my-package-name");
}

#[test]
fn single_char_name_is_valid() {
    let n = normalize("X").unwrap();
    assert_eq!(n.normalized(), "x");
}

#[test]
fn invalid_names_are_rejected() {
    for bad in ["", "-foo", "foo_", "foo bar", "föö", "a+b"] {
        assert_eq!(
            normalize(bad).unwrap_err(),
            RequirementError::InvalidName { name: bad.to_string() }
        );
    }
}

#[test]
fn names_compare_by_canonical_form() {
    let a = normalize("Foo_Bar").unwrap();
    let b = normalize("foo-bar").unwrap();
    let c = normalize("foo-baz").unwrap();
    assert!(a == b);
    assert!(a != c);
}

#[test]
fn names_order_by_canonical_form() {
    let foo = normalize("Foo").unwrap();
    let bar = normalize("bar").unwrap();
    let a_b = normalize("A_b").unwrap();
    let a_b2 = normalize("a-B").unwrap();
    assert!(bar < foo);
    assert!(foo > bar);
    assert_eq!(a_b.partial_cmp(&a_b2), Some(std::cmp::Ordering::Equal));
    assert!(normalize("ab").unwrap() < normalize("abc").unwrap());
}
