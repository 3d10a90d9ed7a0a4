//! The resource-inclusion predicate, held against its table for every
//! combination of the three toggles and the test flag.

use python_packaging::policy::PythonPackagingPolicy;
use python_packaging::resource::PythonResource;
use python_packaging::values::{ExtensionModuleFilter, PythonResourcesPolicy};

fn policy_with(sources: bool, resources: bool, tests: bool) -> PythonPackagingPolicy {
    let mut policy = PythonPackagingPolicy::default();
    policy.set_include_distribution_sources(sources);
    policy.set_include_distribution_resources(resources);
    policy.set_include_test(tests);
    policy
}

#[test]
fn predicate_matches_table_for_every_toggle_combination() {
    for &sources in &[false, true] {
        for &resources in &[false, true] {
            for &tests in &[false, true] {
                for &is_test in &[false, true] {
                    let policy = policy_with(sources, resources, tests);
                    assert_eq!(
                        policy.filter_python_resource(&PythonResource::ModuleSource { is_test }),
                        sources && (tests || !is_test)
                    );
                    assert_eq!(
                        policy.filter_python_resource(&PythonResource::ModuleBytecodeRequest {
                            is_test
                        }),
                        tests || !is_test
                    );
                    assert!(!policy
                        .filter_python_resource(&PythonResource::ModuleBytecode { is_test }));
                    assert_eq!(
                        policy.filter_python_resource(&PythonResource::Resource { is_test }),
                        resources && (tests || !is_test)
                    );
                    assert!(
                        !policy.filter_python_resource(&PythonResource::DistributionResource)
                    );
                    assert!(!policy
                        .filter_python_resource(&PythonResource::ExtensionModuleDynamicLibrary));
                    assert!(!policy.filter_python_resource(
                        &PythonResource::ExtensionModuleStaticallyLinked
                    ));
                    assert!(!policy.filter_python_resource(&PythonResource::PathExtension));
                    assert!(!policy.filter_python_resource(&PythonResource::EggFile));
                }
            }
        }
    }
}

#[test]
fn default_policy_settings() {
    let policy = PythonPackagingPolicy::default();
    assert_eq!(*policy.get_extension_module_filter(), ExtensionModuleFilter::All);
    assert_eq!(*policy.get_resources_policy(), PythonResourcesPolicy::InMemoryOnly);
    // Sources are in by default; resource files and tests are not.
    assert!(policy.filter_python_resource(&PythonResource::ModuleSource { is_test: false }));
    assert!(!policy.filter_python_resource(&PythonResource::ModuleSource { is_test: true }));
    assert!(!policy.filter_python_resource(&PythonResource::Resource { is_test: false }));
}
