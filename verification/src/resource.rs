//! Resources of a Python distribution and groups of interchangeable
//! extension-module variants.

use vstd::prelude::*;

use crate::licensing::all_licenses_allowed;
use crate::strutil::{assoc_get, assoc_lookup, clone_string_vec, pairs_view, str_eq, strings_view};

verus! {

/// A resource discovered in a Python distribution, reduced to what the
/// inclusion predicate reads: its kind, and whether it only serves tests.
#[derive(Clone, Copy, Debug, PartialEq, Eq, Structural)]
pub enum PythonResource {
    ModuleSource { is_test: bool },
    ModuleBytecodeRequest { is_test: bool },
    ModuleBytecode { is_test: bool },
    Resource { is_test: bool },
    DistributionResource,
    ExtensionModuleDynamicLibrary,
    ExtensionModuleStaticallyLinked,
    PathExtension,
    EggFile,
}

/// The mathematical content of one extension-module variant.
pub struct ExtensionModuleModel {
    /// Logical extension name, shared by all variants of one group.
    pub name: Seq<char>,
    /// Name of this concrete variant, used by preferred-variant hints.
    pub variant: Seq<char>,
    /// The runtime is assumed non-functional without this variant.
    pub minimally_required: bool,
    /// The variant needs external shared libraries at run time.
    pub requires_libraries: bool,
    /// Libraries the variant links against.
    pub link_libraries: Seq<Seq<char>>,
    /// Explicit license identifiers, if any are declared.
    pub licenses: Option<Seq<Seq<char>>>,
    /// Explicit public-domain marker, if declared.
    pub license_public_domain: Option<bool>,
}

/// One concrete implementation of a native extension module.
#[derive(Debug)]
pub struct PythonExtensionModule {
    /// Logical extension name, shared by all variants of one group.
    pub name: String,
    /// Name of this concrete variant, used by preferred-variant hints.
    pub variant: String,
    /// The runtime is assumed non-functional without this variant.
    pub minimally_required: bool,
    /// The variant needs external shared libraries at run time.
    pub requires_libraries: bool,
    /// Libraries the variant links against.
    pub link_libraries: Vec<String>,
    /// Explicit license identifiers, if any are declared.
    pub licenses: Option<Vec<String>>,
    /// Explicit public-domain marker, if declared.
    pub license_public_domain: Option<bool>,
}

impl View for PythonExtensionModule {
    type V = ExtensionModuleModel;

    open spec fn view(&self) -> ExtensionModuleModel {
        ExtensionModuleModel {
            name: self.name@,
            variant: self.variant@,
            minimally_required: self.minimally_required,
            requires_libraries: self.requires_libraries,
            link_libraries: strings_view(self.link_libraries@),
            licenses: match self.licenses {
                Some(ls) => Some(strings_view(ls@)),
                None => None,
            },
            license_public_domain: self.license_public_domain,
        }
    }
}

impl Clone for PythonExtensionModule {
    /// Copies carry the very same model: name, variant, flags and licensing
    /// metadata all survive unchanged.
    fn clone(&self) -> (r: Self)
        ensures
            r@ == self@,
    {
        PythonExtensionModule {
            name: self.name.clone(),
            variant: self.variant.clone(),
            minimally_required: self.minimally_required,
            requires_libraries: self.requires_libraries,
            link_libraries: clone_string_vec(&self.link_libraries),
            licenses: match &self.licenses {
                Some(ls) => Some(clone_string_vec(ls)),
                None => None,
            },
            license_public_domain: self.license_public_domain,
        }
    }
}

impl PythonExtensionModule {
    /// The variant is necessary for a functioning runtime regardless of the
    /// selection strategy.
    pub fn is_minimally_required(&self) -> (r: bool)
        ensures
            r == self@.minimally_required,
    {
        self.minimally_required
    }

    /// The variant needs external shared libraries at run time.
    pub fn requires_libraries(&self) -> (r: bool)
        ensures
            r == self@.requires_libraries,
    {
        self.requires_libraries
    }
}

/// The sequence of models of a sequence of extension modules.
pub open spec fn views_of(v: Seq<PythonExtensionModule>) -> Seq<ExtensionModuleModel>
    decreases v.len(),
{
    if v.len() == 0 {
        Seq::empty()
    } else {
        views_of(v.drop_last()).push(v.last()@)
    }
}

pub proof fn lemma_views_of_push(v: Seq<PythonExtensionModule>, em: PythonExtensionModule)
    ensures
        views_of(v.push(em)) == views_of(v).push(em@),
{
    assert(v.push(em).drop_last() =~= v);
}

pub proof fn lemma_views_of(v: Seq<PythonExtensionModule>)
    ensures
        views_of(v).len() == v.len(),
        forall|i: int| 0 <= i < v.len() ==> views_of(v)[i] == v[i]@,
    decreases v.len(),
{
    if v.len() > 0 {
        lemma_views_of(v.drop_last());
    }
}

/// The first variant carrying the wanted variant name, if any.
pub open spec fn first_with_variant(c: Seq<ExtensionModuleModel>, wanted: Seq<char>) -> Option<
    ExtensionModuleModel,
>
    decreases c.len(),
{
    if c.len() == 0 {
        None
    } else if c.first().variant == wanted {
        Some(c.first())
    } else {
        first_with_variant(c.drop_first(), wanted)
    }
}

pub proof fn lemma_first_with_variant_contains(c: Seq<ExtensionModuleModel>, wanted: Seq<char>)
    ensures
        match first_with_variant(c, wanted) {
            Some(em) => c.contains(em) && em.variant == wanted,
            None => true,
        },
    decreases c.len(),
{
    if c.len() > 0 && c.first().variant != wanted {
        lemma_first_with_variant_contains(c.drop_first(), wanted);
        match first_with_variant(c.drop_first(), wanted) {
            Some(em) => {
                let i = choose|i: int|
                    0 <= i < c.drop_first().len() && c.drop_first()[i] == em;
                assert(c[i + 1] == em);
            },
            None => {},
        }
    }
}

/// Deterministic, name-preference-aware variant choice: the default variant
/// is the first of the candidate list; if the preference map names a variant
/// for the group and a candidate carries that variant name, the first such
/// candidate is chosen instead.
pub open spec fn spec_choose(
    c: Seq<ExtensionModuleModel>,
    preferred: Seq<(Seq<char>, Seq<char>)>,
) -> ExtensionModuleModel
    recommends
        c.len() > 0,
{
    match assoc_lookup(preferred, c.first().name) {
        None => c.first(),
        Some(wanted) => match first_with_variant(c, wanted) {
            Some(em) => em,
            None => c.first(),
        },
    }
}

/// Whatever the preferences, the chosen variant is one of the candidates.
pub proof fn lemma_spec_choose_contains(
    c: Seq<ExtensionModuleModel>,
    preferred: Seq<(Seq<char>, Seq<char>)>,
)
    requires
        c.len() > 0,
    ensures
        c.contains(spec_choose(c, preferred)),
{
    assert(c.contains(c.first()));
    match assoc_lookup(preferred, c.first().name) {
        Some(wanted) => {
            lemma_first_with_variant_contains(c, wanted);
        },
        None => {},
    }
}

/// The variants of the group that are minimally required.
pub open spec fn minimal_subset(g: Seq<ExtensionModuleModel>) -> Seq<ExtensionModuleModel>
    decreases g.len(),
{
    if g.len() == 0 {
        Seq::empty()
    } else if g.last().minimally_required {
        minimal_subset(g.drop_last()).push(g.last())
    } else {
        minimal_subset(g.drop_last())
    }
}

pub proof fn lemma_minimal_subset(g: Seq<ExtensionModuleModel>)
    ensures
        forall|i: int|
            0 <= i < minimal_subset(g).len() ==> (#[trigger] minimal_subset(g)[i]).minimally_required
                && g.contains(minimal_subset(g)[i]),
        (minimal_subset(g).len() > 0) <==> (exists|i: int|
            0 <= i < g.len() && (#[trigger] g[i]).minimally_required),
    decreases g.len(),
{
    if g.len() > 0 {
        lemma_minimal_subset(g.drop_last());
        assert forall|i: int| 0 <= i < minimal_subset(g.drop_last()).len() implies g.contains(
            #[trigger] minimal_subset(g.drop_last())[i],
        ) by {
            let x = minimal_subset(g.drop_last())[i];
            let j = choose|j: int| 0 <= j < g.drop_last().len() && g.drop_last()[j] == x;
            assert(g[j] == x);
        }
        assert(g.contains(g.last()));
        if exists|i: int| 0 <= i < g.len() && (#[trigger] g[i]).minimally_required {
            let i = choose|i: int| 0 <= i < g.len() && (#[trigger] g[i]).minimally_required;
            if i < g.len() - 1 {
                assert(g.drop_last()[i].minimally_required);
            }
        }
    }
}

/// The variants of the group that need no external shared libraries.
pub open spec fn no_libraries_subset(g: Seq<ExtensionModuleModel>) -> Seq<ExtensionModuleModel>
    decreases g.len(),
{
    if g.len() == 0 {
        Seq::empty()
    } else if !g.last().requires_libraries {
        no_libraries_subset(g.drop_last()).push(g.last())
    } else {
        no_libraries_subset(g.drop_last())
    }
}

/// The license admission rule of the copyleft-exclusion strategy, first match
/// wins: nothing linked is harmless; an explicit public-domain marker always
/// admits; an explicit license list admits only if every entry is
/// allow-listed; absence of any license evidence denies.
pub open spec fn admitted_no_gpl(em: ExtensionModuleModel) -> bool {
    if em.link_libraries.len() == 0 {
        true
    } else if em.license_public_domain == Some(true) {
        true
    } else {
        match em.licenses {
            Some(ls) => all_licenses_allowed(ls),
            None => false,
        }
    }
}

/// The admission rule, spelled out clause by clause: a variant with nothing
/// linked is admitted; an explicit public-domain marker admits despite any
/// license list; otherwise an explicit license list decides, and admission
/// holds exactly when every entry is allow-listed — so absent any license
/// evidence the variant is excluded.
pub proof fn lemma_no_gpl_admission(em: ExtensionModuleModel)
    ensures
        em.link_libraries.len() == 0 ==> admitted_no_gpl(em),
        em.license_public_domain == Some(true) ==> admitted_no_gpl(em),
        (em.link_libraries.len() > 0 && em.license_public_domain != Some(true)) ==> (
        admitted_no_gpl(em) <==> (em.licenses matches Some(ls) && all_licenses_allowed(ls))),
{
}

/// The variants of the group admitted by the license rule.
pub open spec fn no_gpl_subset(g: Seq<ExtensionModuleModel>) -> Seq<ExtensionModuleModel>
    decreases g.len(),
{
    if g.len() == 0 {
        Seq::empty()
    } else if admitted_no_gpl(g.last()) {
        no_gpl_subset(g.drop_last()).push(g.last())
    } else {
        no_gpl_subset(g.drop_last())
    }
}

pub proof fn lemma_no_gpl_subset(g: Seq<ExtensionModuleModel>)
    ensures
        forall|i: int|
            0 <= i < no_gpl_subset(g).len() ==> admitted_no_gpl(#[trigger] no_gpl_subset(g)[i])
                && g.contains(no_gpl_subset(g)[i]),
        (no_gpl_subset(g).len() > 0) <==> (exists|i: int|
            0 <= i < g.len() && admitted_no_gpl(#[trigger] g[i])),
    decreases g.len(),
{
    if g.len() > 0 {
        lemma_no_gpl_subset(g.drop_last());
        assert forall|i: int| 0 <= i < no_gpl_subset(g.drop_last()).len() implies g.contains(
            #[trigger] no_gpl_subset(g.drop_last())[i],
        ) by {
            let x = no_gpl_subset(g.drop_last())[i];
            let j = choose|j: int| 0 <= j < g.drop_last().len() && g.drop_last()[j] == x;
            assert(g[j] == x);
        }
        assert(g.contains(g.last()));
        if exists|i: int| 0 <= i < g.len() && admitted_no_gpl(#[trigger] g[i]) {
            let i = choose|i: int| 0 <= i < g.len() && admitted_no_gpl(#[trigger] g[i]);
            if i < g.len() - 1 {
                assert(admitted_no_gpl(g.drop_last()[i]));
            }
        }
    }
}

/// Whether the variant passes the license admission rule.
pub fn gpl_admitted(em: &PythonExtensionModule) -> (r: bool)
    ensures
        r == admitted_no_gpl(em@),
{
    proof {
        crate::strutil::lemma_strings_view(em.link_libraries@);
    }
    if em.link_libraries.len() == 0 {
        true
    } else if matches!(em.license_public_domain, Some(true)) {
        true
    } else {
        match &em.licenses {
            Some(ls) => crate::licensing::licenses_allowed(ls),
            None => false,
        }
    }
}

/// An ordered group of interchangeable variants of one extension module.
#[derive(Debug)]
pub struct PythonExtensionModuleVariants {
    variants: Vec<PythonExtensionModule>,
}

impl View for PythonExtensionModuleVariants {
    type V = Seq<ExtensionModuleModel>;

    closed spec fn view(&self) -> Seq<ExtensionModuleModel> {
        views_of(self.variants@)
    }
}

impl PythonExtensionModuleVariants {
    /// An empty group.
    pub fn new() -> (r: Self)
        ensures
            r@ == Seq::<ExtensionModuleModel>::empty(),
    {
        PythonExtensionModuleVariants { variants: Vec::new() }
    }

    /// Append a variant to the group.
    pub fn push(&mut self, em: PythonExtensionModule)
        ensures
            final(self)@ == old(self)@.push(em@),
    {
        proof {
            assert(self.variants@.push(em).drop_last() =~= self.variants@);
        }
        self.variants.push(em);
    }

    pub fn len(&self) -> (r: usize)
        ensures
            r == self@.len(),
    {
        proof {
            lemma_views_of(self.variants@);
        }
        self.variants.len()
    }

    pub fn is_empty(&self) -> (r: bool)
        ensures
            r == (self@.len() == 0),
    {
        proof {
            lemma_views_of(self.variants@);
        }
        self.variants.len() == 0
    }

    /// The variant at a position of the group.
    pub fn get(&self, i: usize) -> (r: &PythonExtensionModule)
        requires
            i < self@.len(),
        ensures
            r@ == self@[i as int],
    {
        proof {
            lemma_views_of(self.variants@);
        }
        &self.variants[i]
    }

    /// The designated default variant: the first of the group.
    pub fn default_variant(&self) -> (r: &PythonExtensionModule)
        requires
            self@.len() > 0,
        ensures
            r@ == self@.first(),
    {
        proof {
            lemma_views_of(self.variants@);
        }
        &self.variants[0]
    }

    /// Pick one variant, deterministically and name-preference-aware: the
    /// preferred variant of the group's extension if it is present, the
    /// default variant otherwise.
    pub fn choose_variant<'a>(
        &'a self,
        preferred: &Vec<(String, String)>,
    ) -> (r: &'a PythonExtensionModule)
        requires
            self@.len() > 0,
        ensures
            r@ == spec_choose(self@, pairs_view(preferred@)),
    {
        proof {
            lemma_views_of(self.variants@);
        }
        let first = &self.variants[0];
        match assoc_get(preferred, first.name.as_str()) {
            None => &self.variants[0],
            Some(wanted) => {
                proof {
                    assert(self@.skip(0) =~= self@);
                }
                let n = self.variants.len();
                let mut j: usize = 0;
                while j < n
                    invariant
                        j <= n,
                        n == self.variants@.len(),
                        self@.len() == n,
                        n > 0,
                        forall|i: int| 0 <= i < n ==> self@[i] == self.variants@[i]@,
                        first.name@ == self@.first().name,
                        assoc_lookup(pairs_view(preferred@), self@.first().name) == Some(
                            wanted@,
                        ),
                        first_with_variant(self@, wanted@) == first_with_variant(
                            self@.skip(j as int),
                            wanted@,
                        ),
                    decreases n - j,
                {
                    proof {
                        assert(self@.skip(j as int).first() == self@[j as int]);
                    }
                    if str_eq(self.variants[j].variant.as_str(), wanted.as_str()) {
                        proof {
                            assert(self@[j as int].variant == wanted@);
                            assert(first_with_variant(self@.skip(j as int), wanted@) == Some(
                                self@[j as int],
                            ));
                            assert(self@.first().name == first.name@);
                        }
                        return &self.variants[j];
                    }
                    proof {
                        assert(self@.skip(j as int).drop_first() =~= self@.skip(j as int + 1));
                    }
                    j += 1;
                }
                proof {
                    assert(self@.skip(n as int) =~= Seq::<ExtensionModuleModel>::empty());
                }
                &self.variants[0]
            },
        }
    }

    /// The sub-group of minimally required variants, in group order.
    pub fn filter_minimal(&self) -> (r: Self)
        ensures
            r@ == minimal_subset(self@),
    {
        proof {
            lemma_views_of(self.variants@);
        }
        let mut r = PythonExtensionModuleVariants::new();
        let n = self.variants.len();
        let mut i: usize = 0;
        while i < n
            invariant
                i <= n,
                n == self.variants@.len(),
                self@.len() == n,
                forall|j: int| 0 <= j < n ==> self@[j] == self.variants@[j]@,
                r@ == minimal_subset(self@.take(i as int)),
            decreases n - i,
        {
            proof {
                assert(self@.take(i as int + 1).drop_last() =~= self@.take(i as int));
                assert(self@.take(i as int + 1).last() == self@[i as int]);
            }
            if self.variants[i].minimally_required {
                r.push(self.variants[i].clone());
            }
            i += 1;
        }
        proof {
            assert(self@.take(n as int) =~= self@);
        }
        r
    }

    /// The sub-group of variants needing no external shared libraries.
    pub fn filter_no_libraries(&self) -> (r: Self)
        ensures
            r@ == no_libraries_subset(self@),
    {
        proof {
            lemma_views_of(self.variants@);
        }
        let mut r = PythonExtensionModuleVariants::new();
        let n = self.variants.len();
        let mut i: usize = 0;
        while i < n
            invariant
                i <= n,
                n == self.variants@.len(),
                self@.len() == n,
                forall|j: int| 0 <= j < n ==> self@[j] == self.variants@[j]@,
                r@ == no_libraries_subset(self@.take(i as int)),
            decreases n - i,
        {
            proof {
                assert(self@.take(i as int + 1).drop_last() =~= self@.take(i as int));
                assert(self@.take(i as int + 1).last() == self@[i as int]);
            }
            if !self.variants[i].requires_libraries {
                r.push(self.variants[i].clone());
            }
            i += 1;
        }
        proof {
            assert(self@.take(n as int) =~= self@);
        }
        r
    }

    /// The sub-group of variants admitted by the license rule.
    pub fn filter_no_gpl(&self) -> (r: Self)
        ensures
            r@ == no_gpl_subset(self@),
    {
        proof {
            lemma_views_of(self.variants@);
        }
        let mut r = PythonExtensionModuleVariants::new();
        let n = self.variants.len();
        let mut i: usize = 0;
        while i < n
            invariant
                i <= n,
                n == self.variants@.len(),
                self@.len() == n,
                forall|j: int| 0 <= j < n ==> self@[j] == self.variants@[j]@,
                r@ == no_gpl_subset(self@.take(i as int)),
            decreases n - i,
        {
            proof {
                assert(self@.take(i as int + 1).drop_last() =~= self@.take(i as int));
                assert(self@.take(i as int + 1).last() == self@[i as int]);
            }
            if gpl_admitted(&self.variants[i]) {
                r.push(self.variants[i].clone());
            }
            i += 1;
        }
        proof {
            assert(self@.take(n as int) =~= self@);
        }
        r
    }
}

} // verus!
