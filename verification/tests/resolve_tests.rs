//! The extension-module variant resolution pass.

use python_packaging::policy::PythonPackagingPolicy;
use python_packaging::resource::{PythonExtensionModule, PythonExtensionModuleVariants};
use python_packaging::values::ExtensionModuleFilter;

fn variant(
    name: &str,
    variant: &str,
    minimally_required: bool,
    requires_libraries: bool,
    link_libraries: &[&str],
    licenses: Option<&[&str]>,
    license_public_domain: Option<bool>,
) -> PythonExtensionModule {
    PythonExtensionModule {
        name: name.to_string(),
        variant: variant.to_string(),
        minimally_required,
        requires_libraries,
        link_libraries: link_libraries.iter().map(|s| s.to_string()).collect(),
        licenses: licenses.map(|ls| ls.iter().map(|s| s.to_string()).collect()),
        license_public_domain,
    }
}

fn group_of(variants: Vec<PythonExtensionModule>) -> PythonExtensionModuleVariants {
    let mut g = PythonExtensionModuleVariants::new();
    for v in variants {
        g.push(v);
    }
    g
}

fn names_and_variants(res: &[PythonExtensionModule]) -> Vec<(String, String)> {
    res.iter().map(|em| (em.name.clone(), em.variant.clone())).collect()
}

#[test]
fn broken_extension_is_skipped_under_every_strategy() {
    for filter in [
        ExtensionModuleFilter::Minimal,
        ExtensionModuleFilter::All,
        ExtensionModuleFilter::NoLibraries,
        ExtensionModuleFilter::NoGPL,
    ] {
        let mut policy = PythonPackagingPolicy::default();
        policy.set_extension_module_filter(filter);
        policy.register_broken_extension("x86_64-unknown-linux-gnu", "foo");
        let groups = vec![group_of(vec![
            variant("foo", "default", true, false, &[], None, None),
            variant("foo", "alt", false, false, &[], None, None),
        ])];
        let res = policy.resolve_python_extension_modules(&groups, "x86_64-unknown-linux-gnu");
        assert!(res.is_empty());
    }
}

#[test]
fn broken_extension_on_other_triple_is_kept() {
    let mut policy = PythonPackagingPolicy::default();
    policy.set_extension_module_filter(ExtensionModuleFilter::Minimal);
    policy.register_broken_extension("aarch64-apple-darwin", "foo");
    let groups = vec![group_of(vec![variant("foo", "default", true, false, &[], None, None)])];
    let res = policy.resolve_python_extension_modules(&groups, "x86_64-unknown-linux-gnu");
    assert_eq!(names_and_variants(&res), vec![("foo".to_string(), "default".to_string())]);
}

#[test]
fn duplicate_broken_registration_is_tolerated() {
    let mut policy = PythonPackagingPolicy::default();
    policy.register_broken_extension("t", "foo");
    policy.register_broken_extension("t", "foo");
    let groups = vec![group_of(vec![variant("foo", "default", true, false, &[], None, None)])];
    assert!(policy.resolve_python_extension_modules(&groups, "t").is_empty());
}

#[test]
fn minimal_strategy_takes_only_the_minimally_required() {
    let mut policy = PythonPackagingPolicy::default();
    policy.set_extension_module_filter(ExtensionModuleFilter::Minimal);
    let groups = vec![
        group_of(vec![
            variant("foo", "v1", true, false, &[], None, None),
            variant("foo", "v2", false, false, &[], None, None),
        ]),
        group_of(vec![variant("bar", "only", false, false, &[], None, None)]),
    ];
    let res = policy.resolve_python_extension_modules(&groups, "t");
    assert_eq!(names_and_variants(&res), vec![("foo".to_string(), "v1".to_string())]);
}

#[test]
fn all_strategy_appends_minimal_choice_twice() {
    // The unconditional minimal pass and the all-inclusive pass both append,
    // so the group contributes two entries; with the minimally required
    // variant preferred, the same variant appears twice.
    let mut policy = PythonPackagingPolicy::default();
    policy.set_extension_module_filter(ExtensionModuleFilter::All);
    policy.set_preferred_extension_module_variant("foo", "v1");
    let groups = vec![group_of(vec![
        variant("foo", "v1", true, false, &[], None, None),
        variant("foo", "v2", false, false, &[], None, None),
    ])];
    let res = policy.resolve_python_extension_modules(&groups, "t");
    assert_eq!(
        names_and_variants(&res),
        vec![
            ("foo".to_string(), "v1".to_string()),
            ("foo".to_string(), "v1".to_string()),
        ]
    );
}

#[test]
fn all_strategy_without_preference_picks_default() {
    let mut policy = PythonPackagingPolicy::default();
    policy.set_extension_module_filter(ExtensionModuleFilter::All);
    let groups = vec![group_of(vec![
        variant("foo", "v1", true, false, &[], None, None),
        variant("foo", "v2", false, false, &[], None, None),
    ])];
    let res = policy.resolve_python_extension_modules(&groups, "t");
    // Minimal pass picks v1 (the only minimally required variant); the
    // all-inclusive pass picks the group default, which is the first variant.
    assert_eq!(
        names_and_variants(&res),
        vec![
            ("foo".to_string(), "v1".to_string()),
            ("foo".to_string(), "v1".to_string()),
        ]
    );
}

#[test]
fn preferred_variant_steers_the_choice() {
    let mut policy = PythonPackagingPolicy::default();
    policy.set_extension_module_filter(ExtensionModuleFilter::All);
    policy.set_preferred_extension_module_variant("foo", "v2");
    let groups = vec![group_of(vec![
        variant("foo", "v1", false, false, &[], None, None),
        variant("foo", "v2", false, false, &[], None, None),
    ])];
    let res = policy.resolve_python_extension_modules(&groups, "t");
    assert_eq!(names_and_variants(&res), vec![("foo".to_string(), "v2".to_string())]);
}

#[test]
fn later_preference_overrides_earlier_one() {
    let mut policy = PythonPackagingPolicy::default();
    policy.set_extension_module_filter(ExtensionModuleFilter::All);
    policy.set_preferred_extension_module_variant("foo", "v2");
    policy.set_preferred_extension_module_variant("foo", "v3");
    let groups = vec![group_of(vec![
        variant("foo", "v1", false, false, &[], None, None),
        variant("foo", "v2", false, false, &[], None, None),
        variant("foo", "v3", false, false, &[], None, None),
    ])];
    let res = policy.resolve_python_extension_modules(&groups, "t");
    assert_eq!(names_and_variants(&res), vec![("foo".to_string(), "v3".to_string())]);
}

#[test]
fn unknown_preferred_variant_falls_back_to_default() {
    let mut policy = PythonPackagingPolicy::default();
    policy.set_extension_module_filter(ExtensionModuleFilter::All);
    policy.set_preferred_extension_module_variant("foo", "nope");
    let groups = vec![group_of(vec![
        variant("foo", "v1", false, false, &[], None, None),
        variant("foo", "v2", false, false, &[], None, None),
    ])];
    let res = policy.resolve_python_extension_modules(&groups, "t");
    assert_eq!(names_and_variants(&res), vec![("foo".to_string(), "v1".to_string())]);
}

#[test]
fn no_libraries_strategy_excludes_library_variants() {
    let mut policy = PythonPackagingPolicy::default();
    policy.set_extension_module_filter(ExtensionModuleFilter::NoLibraries);
    let groups = vec![
        group_of(vec![
            variant("withlib", "lib", false, true, &["ssl"], None, None),
            variant("withlib", "pure", false, false, &[], None, None),
        ]),
        group_of(vec![variant("onlylib", "lib", false, true, &["z"], None, None)]),
    ];
    let res = policy.resolve_python_extension_modules(&groups, "t");
    assert_eq!(names_and_variants(&res), vec![("withlib".to_string(), "pure".to_string())]);
}

#[test]
fn no_gpl_admission_rule() {
    let mut policy = PythonPackagingPolicy::default();
    policy.set_extension_module_filter(ExtensionModuleFilter::NoGPL);
    let groups = vec![
        // No linked libraries: admitted.
        group_of(vec![variant("plain", "v", false, false, &[], None, None)]),
        // Public domain beats a GPL-labeled license list: admitted.
        group_of(vec![variant(
            "pd",
            "v",
            false,
            false,
            &["gdbm"],
            Some(&["GPL-3.0"]),
            Some(true),
        )]),
        // Every license allow-listed: admitted.
        group_of(vec![variant("mit", "v", false, false, &["m"], Some(&["MIT"]), None)]),
        // A GPL license: excluded.
        group_of(vec![variant("gpl", "v", false, false, &["g"], Some(&["GPL-3.0"]), None)]),
        // Linked libraries and no license evidence at all: excluded.
        group_of(vec![variant("dark", "v", false, false, &["d"], None, None)]),
    ];
    let res = policy.resolve_python_extension_modules(&groups, "t");
    assert_eq!(
        names_and_variants(&res),
        vec![
            ("plain".to_string(), "v".to_string()),
            ("pd".to_string(), "v".to_string()),
            ("mit".to_string(), "v".to_string()),
        ]
    );
}

#[test]
fn mixed_license_list_is_excluded() {
    let mut policy = PythonPackagingPolicy::default();
    policy.set_extension_module_filter(ExtensionModuleFilter::NoGPL);
    let groups = vec![group_of(vec![variant(
        "mixed",
        "v",
        false,
        false,
        &["x"],
        Some(&["MIT", "GPL-2.0"]),
        None,
    )])];
    let res = policy.resolve_python_extension_modules(&groups, "t");
    assert!(res.is_empty());
}

#[test]
fn resolution_is_deterministic() {
    let build = || {
        let mut policy = PythonPackagingPolicy::default();
        policy.set_extension_module_filter(ExtensionModuleFilter::All);
        policy.set_preferred_extension_module_variant("foo", "v2");
        let groups = vec![
            group_of(vec![
                variant("foo", "v1", true, false, &[], None, None),
                variant("foo", "v2", false, false, &[], Some(&["MIT"]), None),
            ]),
            group_of(vec![variant("bar", "only", false, true, &["ssl"], None, None)]),
        ];
        (policy, groups)
    };
    let (p1, g1) = build();
    let (p2, g2) = build();
    let r1 = p1.resolve_python_extension_modules(&g1, "t");
    let r2 = p2.resolve_python_extension_modules(&g2, "t");
    assert_eq!(names_and_variants(&r1), names_and_variants(&r2));
    assert_eq!(r1.len(), r2.len());
    for (a, b) in r1.iter().zip(r2.iter()) {
        assert_eq!(a.name, b.name);
        assert_eq!(a.variant, b.variant);
        assert_eq!(a.minimally_required, b.minimally_required);
        assert_eq!(a.requires_libraries, b.requires_libraries);
        assert_eq!(a.link_libraries, b.link_libraries);
        assert_eq!(a.licenses, b.licenses);
        assert_eq!(a.license_public_domain, b.license_public_domain);
    }
}

#[test]
fn group_accessors_and_clones() {
    let mut g = PythonExtensionModuleVariants::new();
    assert!(g.is_empty());
    g.push(variant("foo", "v1", true, false, &[], None, None));
    g.push(variant("foo", "v2", false, true, &["ssl"], None, None));
    assert!(!g.is_empty());
    assert_eq!(g.len(), 2);
    assert_eq!(g.default_variant().variant, "v1");
    assert_eq!(g.get(1).variant, "v2");
    assert!(g.get(0).is_minimally_required());
    assert!(g.get(1).requires_libraries());
    let copy = g.get(1).clone();
    assert_eq!(copy.name, "foo");
    assert_eq!(copy.link_libraries, vec!["ssl".to_string()]);

    let mut policy = PythonPackagingPolicy::default();
    policy.register_broken_extension("t", "foo");
    policy.set_preferred_extension_module_variant("bar", "v2");
    let other = policy.clone();
    assert_eq!(*other.get_extension_module_filter(), ExtensionModuleFilter::All);
    let groups = vec![group_of(vec![variant("foo", "v1", true, false, &[], None, None)])];
    assert!(other.resolve_python_extension_modules(&groups, "t").is_empty());
}

#[test]
fn output_preserves_group_order() {
    let mut policy = PythonPackagingPolicy::default();
    policy.set_extension_module_filter(ExtensionModuleFilter::Minimal);
    let groups = vec![
        group_of(vec![variant("a", "v", true, false, &[], None, None)]),
        group_of(vec![variant("b", "v", true, false, &[], None, None)]),
        group_of(vec![variant("c", "v", true, false, &[], None, None)]),
    ];
    let res = policy.resolve_python_extension_modules(&groups, "t");
    assert_eq!(
        names_and_variants(&res),
        vec![
            ("a".to_string(), "v".to_string()),
            ("b".to_string(), "v".to_string()),
            ("c".to_string(), "v".to_string()),
        ]
    );
}
