//! The packaging policy: inclusion toggles, the per-resource inclusion
//! predicate, and the extension-module variant resolution pass.

use vstd::prelude::*;

use crate::resource::{
    admitted_no_gpl, lemma_minimal_subset, lemma_no_gpl_subset, lemma_spec_choose_contains,
    lemma_views_of_push, minimal_subset, no_gpl_subset, no_libraries_subset, spec_choose, views_of,
    ExtensionModuleModel, PythonExtensionModule, PythonExtensionModuleVariants, PythonResource,
};
use crate::strutil::{clone_string_pairs, lemma_pairs_view, pairs_view, str_eq};
use crate::values::{ExtensionModuleFilter, PlacementModel, PythonResourcesPolicy};

verus! {

/// The mathematical content of a packaging policy.
pub struct PolicyModel {
    /// How aggressively extension modules are included.
    pub extension_module_filter: ExtensionModuleFilter,
    /// Appended (extension name, variant name) preferences; the most recently
    /// appended entry for a name wins.
    pub preferred_extension_module_variants: Seq<(Seq<char>, Seq<char>)>,
    /// Where resources are placed by default.
    pub resources_policy: PlacementModel,
    /// Whether distribution module sources are included.
    pub include_distribution_sources: bool,
    /// Whether distribution resource files are included.
    pub include_distribution_resources: bool,
    /// Whether test-only resources are included.
    pub include_test: bool,
    /// Appended (target triple, extension name) denylist entries.
    pub broken_extensions: Seq<(Seq<char>, Seq<char>)>,
}

/// Defines how Python resources should be packaged.
#[derive(Debug)]
pub struct PythonPackagingPolicy {
    /// Which extension modules should be included.
    extension_module_filter: ExtensionModuleFilter,
    /// Preferred variants of extension modules, keyed by extension name.
    preferred_extension_module_variants: Vec<(String, String)>,
    /// Where resources should be packaged by default.
    resources_policy: PythonResourcesPolicy,
    /// Whether source modules from the Python distribution are taken.
    include_distribution_sources: bool,
    /// Whether package resource files are taken.
    include_distribution_resources: bool,
    /// Whether test files are taken.
    include_test: bool,
    /// Pairs of target triple and extension known broken for that triple.
    broken_extensions: Vec<(String, String)>,
}

impl View for PythonPackagingPolicy {
    type V = PolicyModel;

    closed spec fn view(&self) -> PolicyModel {
        PolicyModel {
            extension_module_filter: self.extension_module_filter,
            preferred_extension_module_variants: pairs_view(
                self.preferred_extension_module_variants@,
            ),
            resources_policy: self.resources_policy@,
            include_distribution_sources: self.include_distribution_sources,
            include_distribution_resources: self.include_distribution_resources,
            include_test: self.include_test,
            broken_extensions: pairs_view(self.broken_extensions@),
        }
    }
}

impl Clone for PythonPackagingPolicy {
    /// Copies carry the very same model: strategies, toggles, preferences
    /// and denylist entries all survive unchanged.
    fn clone(&self) -> (r: Self)
        ensures
            r@ == self@,
    {
        PythonPackagingPolicy {
            extension_module_filter: self.extension_module_filter,
            preferred_extension_module_variants: clone_string_pairs(
                &self.preferred_extension_module_variants,
            ),
            resources_policy: self.resources_policy.clone(),
            include_distribution_sources: self.include_distribution_sources,
            include_distribution_resources: self.include_distribution_resources,
            include_test: self.include_test,
            broken_extensions: clone_string_pairs(&self.broken_extensions),
        }
    }
}

impl Default for PythonPackagingPolicy {
    /// The defaults: every extension module, in-memory placement, sources
    /// included, resource files and tests excluded, no preferences and no
    /// denylist entries.
    fn default() -> (r: Self)
        ensures
            r@.extension_module_filter == ExtensionModuleFilter::All,
            r@.preferred_extension_module_variants == Seq::<(Seq<char>, Seq<char>)>::empty(),
            r@.resources_policy == PlacementModel::InMemoryOnly,
            r@.include_distribution_sources == true,
            r@.include_distribution_resources == false,
            r@.include_test == false,
            r@.broken_extensions == Seq::<(Seq<char>, Seq<char>)>::empty(),
    {
        PythonPackagingPolicy {
            extension_module_filter: ExtensionModuleFilter::All,
            preferred_extension_module_variants: Vec::new(),
            resources_policy: PythonResourcesPolicy::InMemoryOnly,
            include_distribution_sources: true,
            include_distribution_resources: false,
            include_test: false,
            broken_extensions: Vec::new(),
        }
    }
}

/// The per-kind inclusion rule: module sources follow the source toggle,
/// bytecode requests are always eligible, resource files follow the resource
/// toggle — each gated by the test toggle for test-only items — and every
/// other kind is never admitted here.
pub open spec fn spec_filter_resource(m: PolicyModel, resource: PythonResource) -> bool {
    match resource {
        PythonResource::ModuleSource { is_test } => {
            if !m.include_test && is_test {
                false
            } else {
                m.include_distribution_sources
            }
        },
        PythonResource::ModuleBytecodeRequest { is_test } => m.include_test || !is_test,
        PythonResource::ModuleBytecode { is_test: _ } => false,
        PythonResource::Resource { is_test } => {
            if m.include_distribution_resources {
                m.include_test || !is_test
            } else {
                false
            }
        },
        PythonResource::DistributionResource => false,
        PythonResource::ExtensionModuleDynamicLibrary => false,
        PythonResource::ExtensionModuleStaticallyLinked => false,
        PythonResource::PathExtension => false,
        PythonResource::EggFile => false,
    }
}

/// The extension name is registered broken for the target triple.
pub open spec fn spec_is_broken(
    m: PolicyModel,
    target_triple: Seq<char>,
    name: Seq<char>,
) -> bool {
    exists|i: int|
        0 <= i < m.broken_extensions.len() && m.broken_extensions[i] == (target_triple, name)
}

/// What one group of variants contributes to the resolution output: nothing
/// if the group's extension is broken for the target; otherwise one choice
/// from the minimally required subset when that subset is inhabited, followed
/// by whatever the selection strategy adds.
pub open spec fn spec_resolve_group(
    m: PolicyModel,
    g: Seq<ExtensionModuleModel>,
    target_triple: Seq<char>,
) -> Seq<ExtensionModuleModel>
    recommends
        g.len() > 0,
{
    if spec_is_broken(m, target_triple, g.first().name) {
        Seq::empty()
    } else {
        let prefs = m.preferred_extension_module_variants;
        let base = if minimal_subset(g).len() > 0 {
            seq![spec_choose(minimal_subset(g), prefs)]
        } else {
            Seq::empty()
        };
        let extra = match m.extension_module_filter {
            ExtensionModuleFilter::Minimal => Seq::empty(),
            ExtensionModuleFilter::All => seq![spec_choose(g, prefs)],
            ExtensionModuleFilter::NoLibraries => {
                if no_libraries_subset(g).len() > 0 {
                    seq![spec_choose(no_libraries_subset(g), prefs)]
                } else {
                    Seq::empty()
                }
            },
            ExtensionModuleFilter::NoGPL => {
                if no_gpl_subset(g).len() > 0 {
                    seq![spec_choose(no_gpl_subset(g), prefs)]
                } else {
                    Seq::empty()
                }
            },
        };
        base + extra
    }
}

/// The whole resolution output: each group's contribution, in input order.
pub open spec fn spec_resolve(
    m: PolicyModel,
    groups: Seq<PythonExtensionModuleVariants>,
    target_triple: Seq<char>,
) -> Seq<ExtensionModuleModel>
    decreases groups.len(),
{
    if groups.len() == 0 {
        Seq::empty()
    } else {
        spec_resolve(m, groups.drop_last(), target_triple) + spec_resolve_group(
            m,
            groups.last()@,
            target_triple,
        )
    }
}

impl PythonPackagingPolicy {
    /// Obtain the active extension module filter for this instance.
    pub fn get_extension_module_filter(&self) -> (r: &ExtensionModuleFilter)
        ensures
            *r == self@.extension_module_filter,
    {
        &self.extension_module_filter
    }

    /// Set the extension module filter to use.
    pub fn set_extension_module_filter(&mut self, filter: ExtensionModuleFilter)
        ensures
            final(self)@ == (PolicyModel { extension_module_filter: filter, ..old(self)@ }),
    {
        self.extension_module_filter = filter;
    }

    /// Denote the preferred variant for an extension module; a later setting
    /// for the same extension overrides an earlier one.
    pub fn set_preferred_extension_module_variant(&mut self, extension: &str, variant: &str)
        ensures
            final(self)@ == (PolicyModel {
                preferred_extension_module_variants: old(
                    self,
                )@.preferred_extension_module_variants.push((extension@, variant@)),
                ..old(self)@
            }),
    {
        let entry = (extension.to_owned(), variant.to_owned());
        self.preferred_extension_module_variants.push(entry);
        proof {
            assert(self.preferred_extension_module_variants@.drop_last() =~= old(
                self,
            ).preferred_extension_module_variants@);
        }
    }

    /// Obtain the active resources policy for this instance.
    pub fn get_resources_policy(&self) -> (r: &PythonResourcesPolicy)
        ensures
            r@ == self@.resources_policy,
    {
        &self.resources_policy
    }

    /// Set the resource loading policy.
    pub fn set_resources_policy(&mut self, policy: PythonResourcesPolicy)
        ensures
            final(self)@ == (PolicyModel { resources_policy: policy@, ..old(self)@ }),
    {
        self.resources_policy = policy;
    }

    /// Set whether a Python distribution's module source code is taken.
    pub fn set_include_distribution_sources(&mut self, value: bool)
        ensures
            final(self)@ == (PolicyModel { include_distribution_sources: value, ..old(self)@ }),
    {
        self.include_distribution_sources = value;
    }

    /// Set whether package resources from the Python distribution are taken.
    pub fn set_include_distribution_resources(&mut self, value: bool)
        ensures
            final(self)@ == (PolicyModel {
                include_distribution_resources: value,
                ..old(self)@
            }),
    {
        self.include_distribution_resources = value;
    }

    /// Set whether Python modules that define tests are taken.
    pub fn set_include_test(&mut self, value: bool)
        ensures
            final(self)@ == (PolicyModel { include_test: value, ..old(self)@ }),
    {
        self.include_test = value;
    }

    /// Mark an extension as broken on a target platform, preventing it from
    /// ever being selected there; repeated registration is tolerated.
    pub fn register_broken_extension(&mut self, target_triple: &str, extension: &str)
        ensures
            final(self)@ == (PolicyModel {
                broken_extensions: old(self)@.broken_extensions.push((target_triple@, extension@)),
                ..old(self)@
            }),
    {
        let entry = (target_triple.to_owned(), extension.to_owned());
        self.broken_extensions.push(entry);
        proof {
            assert(self.broken_extensions@.drop_last() =~= old(self).broken_extensions@);
        }
    }

    /// Determine if a Python resource is applicable to the current policy,
    /// exactly as the table of `spec_filter_resource` says.
    pub fn filter_python_resource(&self, resource: &PythonResource) -> (r: bool)
        ensures
            r == spec_filter_resource(self@, *resource),
    {
        match resource {
            PythonResource::ModuleSource { is_test } => {
                if !self.include_test && *is_test {
                    false
                } else {
                    self.include_distribution_sources
                }
            },
            PythonResource::ModuleBytecodeRequest { is_test } => self.include_test || !*is_test,
            PythonResource::ModuleBytecode { is_test: _ } => false,
            PythonResource::Resource { is_test } => {
                if self.include_distribution_resources {
                    self.include_test || !*is_test
                } else {
                    false
                }
            },
            PythonResource::DistributionResource => false,
            PythonResource::ExtensionModuleDynamicLibrary => false,
            PythonResource::ExtensionModuleStaticallyLinked => false,
            PythonResource::PathExtension => false,
            PythonResource::EggFile => false,
        }
    }

    /// The extension name is registered broken for the target triple.
    fn is_broken_extension(&self, target_triple: &str, name: &str) -> (r: bool)
        ensures
            r == spec_is_broken(self@, target_triple@, name@),
    {
        proof {
            lemma_pairs_view(self.broken_extensions@);
        }
        let n = self.broken_extensions.len();
        let mut i: usize = 0;
        while i < n
            invariant
                i <= n,
                n == self.broken_extensions@.len(),
                self@.broken_extensions.len() == n,
                forall|j: int|
                    0 <= j < n ==> self@.broken_extensions[j] == (
                        (#[trigger] self.broken_extensions@[j]).0@,
                        self.broken_extensions@[j].1@,
                    ),
                forall|j: int|
                    0 <= j < i ==> (#[trigger] self@.broken_extensions[j]) != (
                        target_triple@,
                        name@,
                    ),
            decreases n - i,
        {
            let entry = &self.broken_extensions[i];
            if str_eq(entry.0.as_str(), target_triple) && str_eq(entry.1.as_str(), name) {
                proof {
                    assert(self@.broken_extensions[i as int] == (target_triple@, name@));
                }
                return true;
            }
            i += 1;
        }
        false
    }

    /// Append what one group contributes under this policy.
    fn resolve_group(
        &self,
        group: &PythonExtensionModuleVariants,
        target_triple: &str,
        res: &mut Vec<PythonExtensionModule>,
    )
        requires
            group@.len() > 0,
        ensures
            views_of(final(res)@) == views_of(old(res)@) + spec_resolve_group(
                self@,
                group@,
                target_triple@,
            ),
    {
        let ghost m = self@;
        let ghost g = group@;
        let ghost pre = views_of(old(res)@);
        let ghost out = spec_resolve_group(m, g, target_triple@);
        let default = group.default_variant();
        if self.is_broken_extension(target_triple, default.name.as_str()) {
            proof {
                assert(views_of(res@) =~= pre + out);
            }
            return;
        }
        let ghost prefs = m.preferred_extension_module_variants;
        let ghost base = if minimal_subset(g).len() > 0 {
            seq![spec_choose(minimal_subset(g), prefs)]
        } else {
            Seq::<ExtensionModuleModel>::empty()
        };
        let min_subset = group.filter_minimal();
        if !min_subset.is_empty() {
            let chosen = min_subset.choose_variant(&self.preferred_extension_module_variants);
            let ghost r0 = res@;
            res.push(chosen.clone());
            proof {
                lemma_views_of_push(r0, res@.last());
                assert(views_of(res@) =~= pre + base);
            }
        } else {
            proof {
                assert(views_of(res@) =~= pre + base);
            }
        }
        match self.extension_module_filter {
            ExtensionModuleFilter::Minimal => {
                proof {
                    assert(views_of(res@) =~= pre + out);
                }
            },
            ExtensionModuleFilter::All => {
                let chosen = group.choose_variant(&self.preferred_extension_module_variants);
                let ghost r1 = res@;
                res.push(chosen.clone());
                proof {
                    lemma_views_of_push(r1, res@.last());
                    assert(views_of(res@) =~= pre + out);
                }
            },
            ExtensionModuleFilter::NoLibraries => {
                let sub = group.filter_no_libraries();
                if !sub.is_empty() {
                    let chosen = sub.choose_variant(&self.preferred_extension_module_variants);
                    let ghost r1 = res@;
                    res.push(chosen.clone());
                    proof {
                        lemma_views_of_push(r1, res@.last());
                        assert(views_of(res@) =~= pre + out);
                    }
                } else {
                    proof {
                        assert(views_of(res@) =~= pre + out);
                    }
                }
            },
            ExtensionModuleFilter::NoGPL => {
                let sub = group.filter_no_gpl();
                if !sub.is_empty() {
                    let chosen = sub.choose_variant(&self.preferred_extension_module_variants);
                    let ghost r1 = res@;
                    res.push(chosen.clone());
                    proof {
                        lemma_views_of_push(r1, res@.last());
                        assert(views_of(res@) =~= pre + out);
                    }
                } else {
                    proof {
                        assert(views_of(res@) =~= pre + out);
                    }
                }
            },
        }
    }

    /// Resolve the extension modules that comply with the policy: for each
    /// group, in input order, the minimally required choice when one exists,
    /// then whatever the selection strategy adds for that group.
    pub fn resolve_python_extension_modules(
        &self,
        extensions_variants: &Vec<PythonExtensionModuleVariants>,
        target_triple: &str,
    ) -> (r: Vec<PythonExtensionModule>)
        requires
            forall|i: int|
                0 <= i < extensions_variants@.len() ==> (#[trigger] extensions_variants@[i])@.len()
                    > 0,
        ensures
            views_of(r@) == spec_resolve(self@, extensions_variants@, target_triple@),
    {
        let mut res: Vec<PythonExtensionModule> = Vec::new();
        proof {
            assert(extensions_variants@.take(0) =~= Seq::<PythonExtensionModuleVariants>::empty());
        }
        let n = extensions_variants.len();
        let mut i: usize = 0;
        while i < n
            invariant
                i <= n,
                n == extensions_variants@.len(),
                forall|j: int|
                    0 <= j < n ==> (#[trigger] extensions_variants@[j])@.len() > 0,
                views_of(res@) == spec_resolve(
                    self@,
                    extensions_variants@.take(i as int),
                    target_triple@,
                ),
            decreases n - i,
        {
            self.resolve_group(&extensions_variants[i], target_triple, &mut res);
            proof {
                assert(extensions_variants@.take(i as int + 1).drop_last() =~= extensions_variants@.take(
                    i as int,
                ));
                assert(extensions_variants@.take(i as int + 1).last() == extensions_variants@[i as int]);
            }
            i += 1;
        }
        proof {
            assert(extensions_variants@.take(n as int) =~= extensions_variants@);
        }
        res
    }
}

/// Denylist precedence: a group whose extension name is registered broken for
/// the target triple contributes nothing, whatever the selection strategy.
pub proof fn lemma_broken_group_yields_nothing(
    m: PolicyModel,
    g: Seq<ExtensionModuleModel>,
    target_triple: Seq<char>,
)
    requires
        g.len() > 0,
        spec_is_broken(m, target_triple, g.first().name),
    ensures
        spec_resolve_group(m, g, target_triple) == Seq::<ExtensionModuleModel>::empty(),
{
}

/// A group holding a minimally required variant always contributes at least
/// one entry when it is not denylisted, and the leading entry is drawn from
/// the minimally required subset; under the minimal strategy it is the only
/// entry.
pub proof fn lemma_minimal_always_included(
    m: PolicyModel,
    g: Seq<ExtensionModuleModel>,
    target_triple: Seq<char>,
)
    requires
        g.len() > 0,
        !spec_is_broken(m, target_triple, g.first().name),
        exists|i: int| 0 <= i < g.len() && (#[trigger] g[i]).minimally_required,
    ensures
        spec_resolve_group(m, g, target_triple).len() >= 1,
        spec_resolve_group(m, g, target_triple)[0].minimally_required,
        minimal_subset(g).contains(spec_resolve_group(m, g, target_triple)[0]),
        g.contains(spec_resolve_group(m, g, target_triple)[0]),
        m.extension_module_filter == ExtensionModuleFilter::Minimal ==> spec_resolve_group(
            m,
            g,
            target_triple,
        ).len() == 1,
{
    lemma_minimal_subset(g);
    let prefs = m.preferred_extension_module_variants;
    let chosen = spec_choose(minimal_subset(g), prefs);
    lemma_spec_choose_contains(minimal_subset(g), prefs);
    let i = choose|i: int| 0 <= i < minimal_subset(g).len() && minimal_subset(g)[i] == chosen;
    assert(minimal_subset(g)[i].minimally_required && g.contains(minimal_subset(g)[i]));
    assert(spec_resolve_group(m, g, target_triple)[0] == chosen);
}

/// Under the all-inclusive strategy the unconditional minimal pass and the
/// strategy pass both append, so a group with a minimally required variant
/// contributes two entries — possibly the same variant twice.
pub proof fn lemma_all_strategy_appends_twice(
    m: PolicyModel,
    g: Seq<ExtensionModuleModel>,
    target_triple: Seq<char>,
)
    requires
        g.len() > 0,
        m.extension_module_filter == ExtensionModuleFilter::All,
        !spec_is_broken(m, target_triple, g.first().name),
        minimal_subset(g).len() > 0,
    ensures
        spec_resolve_group(m, g, target_triple) == seq![
            spec_choose(minimal_subset(g), m.preferred_extension_module_variants),
            spec_choose(g, m.preferred_extension_module_variants),
        ],
{
    assert(spec_resolve_group(m, g, target_triple) =~= seq![
        spec_choose(minimal_subset(g), m.preferred_extension_module_variants),
        spec_choose(g, m.preferred_extension_module_variants),
    ]);
}

/// Under the copyleft-exclusion strategy a group without minimally required
/// variants contributes only variants that pass the license admission rule.
pub proof fn lemma_no_gpl_strategy_admits_only(
    m: PolicyModel,
    g: Seq<ExtensionModuleModel>,
    target_triple: Seq<char>,
)
    requires
        g.len() > 0,
        m.extension_module_filter == ExtensionModuleFilter::NoGPL,
        !spec_is_broken(m, target_triple, g.first().name),
        minimal_subset(g).len() == 0,
    ensures
        forall|i: int|
            0 <= i < spec_resolve_group(m, g, target_triple).len() ==> admitted_no_gpl(
                #[trigger] spec_resolve_group(m, g, target_triple)[i],
            ) && g.contains(spec_resolve_group(m, g, target_triple)[i]),
{
    lemma_no_gpl_subset(g);
    let prefs = m.preferred_extension_module_variants;
    if no_gpl_subset(g).len() > 0 {
        lemma_spec_choose_contains(no_gpl_subset(g), prefs);
        let chosen = spec_choose(no_gpl_subset(g), prefs);
        let i = choose|i: int| 0 <= i < no_gpl_subset(g).len() && no_gpl_subset(g)[i] == chosen;
        assert(admitted_no_gpl(no_gpl_subset(g)[i]) && g.contains(no_gpl_subset(g)[i]));
        assert(spec_resolve_group(m, g, target_triple) =~= seq![chosen]);
    } else {
        assert(spec_resolve_group(m, g, target_triple) =~= Seq::<ExtensionModuleModel>::empty());
    }
}

/// Determinism: the resolution output is a function of the policy model, the
/// group views and the target triple alone.
pub proof fn lemma_resolve_deterministic(
    m: PolicyModel,
    groups: Seq<PythonExtensionModuleVariants>,
    target_triple: Seq<char>,
    r1: Seq<ExtensionModuleModel>,
    r2: Seq<ExtensionModuleModel>,
)
    requires
        r1 == spec_resolve(m, groups, target_triple),
        r2 == spec_resolve(m, groups, target_triple),
    ensures
        r1 == r2,
{
}

} // verus!
