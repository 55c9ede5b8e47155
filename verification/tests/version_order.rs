use nethost_sys::version::{version_lt, Version};

fn v(major: u64, minor: u64, patch: u64, pre: &str) -> Version {
    Version { major, minor, patch, pre: pre.as_bytes().to_vec() }
}

#[test]
fn corpus_orders_by_semantic_precedence() {
    let a = v(1, 0, 0, "");
    let b = v(1, 2, 0, "preview");
    let c = v(1, 2, 0, "");
    let d = v(2, 0, 0, "");
    // 1.0.0 < 1.2.0-preview < 1.2.0 < 2.0.0
    assert!(version_lt(&a, &b));
    assert!(version_lt(&b, &c));
    assert!(version_lt(&c, &d));
    // transitivity across the corpus
    assert!(version_lt(&a, &c));
    assert!(version_lt(&a, &d));
    assert!(version_lt(&b, &d));
    // asymmetry
    assert!(!version_lt(&b, &a));
    assert!(!version_lt(&c, &b));
    assert!(!version_lt(&d, &c));
}

#[test]
fn equal_versions_are_not_strictly_ordered() {
    let a = v(1, 2, 3, "rc.1");
    let b = v(1, 2, 3, "rc.1");
    assert!(!version_lt(&a, &b));
    assert!(!version_lt(&b, &a));
}

#[test]
fn prerelease_identifiers_compare_piecewise() {
    // numeric identifiers compare numerically, not textually
    assert!(version_lt(&v(1, 0, 0, "alpha.2"), &v(1, 0, 0, "alpha.10")));
    // numeric identifiers sort below alphanumeric ones
    assert!(version_lt(&v(1, 0, 0, "1"), &v(1, 0, 0, "alpha")));
    // a proper prefix of identifiers sorts first
    assert!(version_lt(&v(1, 0, 0, "alpha"), &v(1, 0, 0, "alpha.1")));
    // alphanumeric identifiers sort in ASCII order
    assert!(version_lt(&v(1, 0, 0, "alpha"), &v(1, 0, 0, "beta")));
}

#[test]
fn numeric_triple_dominates_prerelease() {
    assert!(version_lt(&v(1, 9, 9, ""), &v(2, 0, 0, "alpha")));
    assert!(version_lt(&v(1, 0, 9, ""), &v(1, 1, 0, "alpha")));
}
