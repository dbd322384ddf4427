use factorio_updater::version::{normalize_version, SemanticVersion};

#[test]
fn parses_a_full_version() {
    let v = SemanticVersion::parse("1.2.3-alpha.1+build5").unwrap();
    assert_eq!((v.major, v.minor, v.patch), (1, 2, 3));
    assert_eq!(v.pre, "alpha.1");
    assert_eq!(v.build, "build5");
}

#[test]
fn rejects_non_versions() {
    assert_eq!(SemanticVersion::parse("1.2"), None);
    assert_eq!(SemanticVersion::parse(""), None);
    assert_eq!(SemanticVersion::parse("01.2.3"), None);
}

#[test]
fn compares_as_versions() {
    let a = SemanticVersion::parse("2.0.10").unwrap();
    let b = SemanticVersion::parse("2.0.10").unwrap();
    let c = SemanticVersion::parse("2.0.1").unwrap();
    assert!(a.same_as(&b));
    assert!(!a.same_as(&c));
}

#[test]
fn normalizes_numeric_core() {
    assert_eq!(normalize_version("2.0"), "2.0.0");
    assert_eq!(normalize_version("2"), "2.0.0");
    assert_eq!(normalize_version("01.02"), "1.2.0");
    assert_eq!(normalize_version("00.0.000"), "0.0.0");
    assert_eq!(normalize_version("1.0-beta+b7"), "1.0.0-beta+b7");
    assert_eq!(normalize_version("1.10.3"), "1.10.3");
}

#[test]
fn leaves_other_text_alone() {
    assert_eq!(normalize_version("1.2.3.4"), "1.2.3.4");
    assert_eq!(normalize_version("latest"), "latest");
    assert_eq!(normalize_version(""), "");
    assert_eq!(normalize_version("1..2"), "1..2");
}

#[test]
fn parses_after_normalizing() {
    let v = SemanticVersion::parse_normalized("2.0").unwrap();
    assert_eq!((v.major, v.minor, v.patch), (2, 0, 0));
    assert_eq!(SemanticVersion::parse_normalized("x.y"), None);
}
