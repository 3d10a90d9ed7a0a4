//! Textual round trips and rejection of unrecognized configuration values.

use python_packaging::values::{ExtensionModuleFilter, PolicyError, PythonResourcesPolicy};

#[test]
fn placement_round_trip_in_memory() {
    let p = PythonResourcesPolicy::InMemoryOnly;
    let text = p.as_text();
    assert_eq!(text, "in-memory-only");
    let q = PythonResourcesPolicy::parse(&text).unwrap();
    assert_eq!(q, p);
}

#[test]
fn placement_round_trip_filesystem_relative() {
    let p = PythonResourcesPolicy::FilesystemRelativeOnly("lib".to_string());
    let text = p.as_text();
    assert_eq!(text, "filesystem-relative-only:lib");
    let q = PythonResourcesPolicy::parse(&text).unwrap();
    assert_eq!(q, p);
}

#[test]
fn placement_round_trip_prefer_in_memory() {
    let p = PythonResourcesPolicy::PreferInMemoryFallbackFilesystemRelative("lib".to_string());
    let text = p.as_text();
    assert_eq!(text, "prefer-in-memory-fallback-filesystem-relative:lib");
    let q = PythonResourcesPolicy::parse(&text).unwrap();
    assert_eq!(q, p);
}

#[test]
fn placement_round_trip_empty_prefix() {
    for p in [
        PythonResourcesPolicy::FilesystemRelativeOnly(String::new()),
        PythonResourcesPolicy::PreferInMemoryFallbackFilesystemRelative(String::new()),
    ] {
        let q = PythonResourcesPolicy::parse(&p.as_text()).unwrap();
        assert_eq!(q, p);
    }
}

#[test]
fn placement_round_trip_colon_prefix() {
    for prefix in ["a:b", ":", "in-memory-only", "x:y:z:"] {
        for p in [
            PythonResourcesPolicy::FilesystemRelativeOnly(prefix.to_string()),
            PythonResourcesPolicy::PreferInMemoryFallbackFilesystemRelative(prefix.to_string()),
        ] {
            let q = PythonResourcesPolicy::parse(&p.as_text()).unwrap();
            assert_eq!(q, p);
        }
    }
}

#[test]
fn placement_parse_rejects_bogus() {
    match PythonResourcesPolicy::parse("bogus") {
        Err(PolicyError::InvalidPolicyValue(v)) => assert_eq!(v, "bogus"),
        _ => panic!("expected InvalidPolicyValue"),
    }
    match PythonResourcesPolicy::parse("in-memory-only-x") {
        Err(PolicyError::InvalidPolicyValue(v)) => assert_eq!(v, "in-memory-only-x"),
        _ => panic!("expected InvalidPolicyValue"),
    }
    match PythonResourcesPolicy::parse("filesystem-relative-only") {
        Err(PolicyError::InvalidPolicyValue(v)) => assert_eq!(v, "filesystem-relative-only"),
        _ => panic!("expected InvalidPolicyValue"),
    }
}

#[test]
fn placement_parse_accepts_exact_forms() {
    let q = PythonResourcesPolicy::parse("filesystem-relative-only:").unwrap();
    assert_eq!(q, PythonResourcesPolicy::FilesystemRelativeOnly(String::new()));
    let q = PythonResourcesPolicy::parse("prefer-in-memory-fallback-filesystem-relative:p/q").unwrap();
    assert_eq!(
        q,
        PythonResourcesPolicy::PreferInMemoryFallbackFilesystemRelative("p/q".to_string())
    );
}

#[test]
fn filter_parse_accepts_the_four_literals() {
    assert_eq!(
        ExtensionModuleFilter::parse("minimal").unwrap(),
        ExtensionModuleFilter::Minimal
    );
    assert_eq!(ExtensionModuleFilter::parse("all").unwrap(), ExtensionModuleFilter::All);
    assert_eq!(
        ExtensionModuleFilter::parse("no-libraries").unwrap(),
        ExtensionModuleFilter::NoLibraries
    );
    assert_eq!(
        ExtensionModuleFilter::parse("no-gpl").unwrap(),
        ExtensionModuleFilter::NoGPL
    );
}

#[test]
fn filter_parse_rejects_bogus() {
    match ExtensionModuleFilter::parse("bogus") {
        Err(PolicyError::InvalidFilterValue(v)) => assert_eq!(v, "bogus"),
        _ => panic!("expected InvalidFilterValue"),
    }
    match ExtensionModuleFilter::parse("Minimal") {
        Err(PolicyError::InvalidFilterValue(v)) => assert_eq!(v, "Minimal"),
        _ => panic!("expected InvalidFilterValue"),
    }
}
