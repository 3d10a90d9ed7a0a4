//! The two closed configuration values of a packaging policy and their
//! textual forms.

use vstd::prelude::*;
use vstd::string::{StrSliceExecFns, StringExecFns};

use crate::strutil::{spec_starts_with, str_eq, str_starts_with};

verus! {

/// Why a configuration text was rejected.
#[derive(Debug)]
pub enum PolicyError {
    /// The text matches none of the recognized resource-placement forms.
    InvalidPolicyValue(String),
    /// The text matches none of the recognized selection-strategy literals.
    InvalidFilterValue(String),
}

/// The mathematical content of a resource-placement choice.
pub enum PlacementModel {
    InMemoryOnly,
    FilesystemRelativeOnly(Seq<char>),
    PreferInMemoryFallbackFilesystemRelative(Seq<char>),
}

/// Where Python resources may be loaded from at run time.
#[derive(Debug)]
pub enum PythonResourcesPolicy {
    /// Only allow resources to be loaded from memory.
    InMemoryOnly,
    /// Only allow resources to be loaded from a filesystem path relative to
    /// the binary; the payload is the path prefix to install resources into.
    FilesystemRelativeOnly(String),
    /// Prefer loading from memory and fall back to filesystem-relative
    /// loading; the payload is the path prefix to install resources into.
    PreferInMemoryFallbackFilesystemRelative(String),
}

impl View for PythonResourcesPolicy {
    type V = PlacementModel;

    open spec fn view(&self) -> PlacementModel {
        match self {
            PythonResourcesPolicy::InMemoryOnly => PlacementModel::InMemoryOnly,
            PythonResourcesPolicy::FilesystemRelativeOnly(prefix) => {
                PlacementModel::FilesystemRelativeOnly(prefix@)
            },
            PythonResourcesPolicy::PreferInMemoryFallbackFilesystemRelative(prefix) => {
                PlacementModel::PreferInMemoryFallbackFilesystemRelative(prefix@)
            },
        }
    }
}

impl Clone for PythonResourcesPolicy {
    fn clone(&self) -> (r: Self)
        ensures
            r == *self,
    {
        match self {
            PythonResourcesPolicy::InMemoryOnly => PythonResourcesPolicy::InMemoryOnly,
            PythonResourcesPolicy::FilesystemRelativeOnly(prefix) => {
                PythonResourcesPolicy::FilesystemRelativeOnly(prefix.clone())
            },
            PythonResourcesPolicy::PreferInMemoryFallbackFilesystemRelative(prefix) => {
                PythonResourcesPolicy::PreferInMemoryFallbackFilesystemRelative(prefix.clone())
            },
        }
    }
}

impl PartialEq for PythonResourcesPolicy {
    fn eq(&self, other: &Self) -> (r: bool) {
        match (self, other) {
            (PythonResourcesPolicy::InMemoryOnly, PythonResourcesPolicy::InMemoryOnly) => true,
            (
                PythonResourcesPolicy::FilesystemRelativeOnly(a),
                PythonResourcesPolicy::FilesystemRelativeOnly(b),
            ) => str_eq(a.as_str(), b.as_str()),
            (
                PythonResourcesPolicy::PreferInMemoryFallbackFilesystemRelative(a),
                PythonResourcesPolicy::PreferInMemoryFallbackFilesystemRelative(b),
            ) => str_eq(a.as_str(), b.as_str()),
            _ => false,
        }
    }
}

impl vstd::std_specs::cmp::PartialEqSpecImpl for PythonResourcesPolicy {
    open spec fn obeys_eq_spec() -> bool {
        true
    }

    open spec fn eq_spec(&self, other: &Self) -> bool {
        self@ == other@
    }
}

/// The canonical text of a placement choice.
pub open spec fn placement_text(p: PlacementModel) -> Seq<char> {
    match p {
        PlacementModel::InMemoryOnly => "in-memory-only"@,
        PlacementModel::FilesystemRelativeOnly(prefix) => "filesystem-relative-only:"@ + prefix,
        PlacementModel::PreferInMemoryFallbackFilesystemRelative(prefix) => {
            "prefer-in-memory-fallback-filesystem-relative:"@ + prefix
        },
    }
}

/// The text matches one of the three recognized placement forms.
pub open spec fn placement_parseable(s: Seq<char>) -> bool {
    ||| s == "in-memory-only"@
    ||| spec_starts_with(s, "filesystem-relative-only:"@)
    ||| spec_starts_with(s, "prefer-in-memory-fallback-filesystem-relative:"@)
}

/// Reading the text `s` yields the placement `p`: the exact literal maps to
/// the in-memory form, and either recognized prefix maps to its form with the
/// remainder of the text as path prefix.
pub open spec fn placement_of(s: Seq<char>, p: PlacementModel) -> bool {
    if s == "in-memory-only"@ {
        p == PlacementModel::InMemoryOnly
    } else if spec_starts_with(s, "filesystem-relative-only:"@) {
        p == PlacementModel::FilesystemRelativeOnly(
            s.skip("filesystem-relative-only:"@.len() as int),
        )
    } else if spec_starts_with(s, "prefer-in-memory-fallback-filesystem-relative:"@) {
        p == PlacementModel::PreferInMemoryFallbackFilesystemRelative(
            s.skip("prefer-in-memory-fallback-filesystem-relative:"@.len() as int),
        )
    } else {
        false
    }
}

impl PythonResourcesPolicy {
    /// Read a placement choice from its textual form; any unrecognized text
    /// is rejected with the offending string.
    pub fn parse(value: &str) -> (r: Result<PythonResourcesPolicy, PolicyError>)
        ensures
            placement_parseable(value@) <==> r is Ok,
            r matches Ok(p) ==> placement_of(value@, p@),
            r matches Err(e) ==> (e matches PolicyError::InvalidPolicyValue(t) && t@ == value@),
    {
        if str_eq(value, "in-memory-only") {
            Ok(PythonResourcesPolicy::InMemoryOnly)
        } else if str_starts_with(value, "filesystem-relative-only:") {
            let plen = "filesystem-relative-only:".unicode_len();
            let vlen = value.unicode_len();
            let prefix = value.substring_char(plen, vlen);
            proof {
                assert(value@.subrange(plen as int, vlen as int) =~= value@.skip(plen as int));
            }
            Ok(PythonResourcesPolicy::FilesystemRelativeOnly(prefix.to_owned()))
        } else if str_starts_with(value, "prefer-in-memory-fallback-filesystem-relative:") {
            let plen = "prefer-in-memory-fallback-filesystem-relative:".unicode_len();
            let vlen = value.unicode_len();
            let prefix = value.substring_char(plen, vlen);
            proof {
                assert(value@.subrange(plen as int, vlen as int) =~= value@.skip(plen as int));
            }
            Ok(PythonResourcesPolicy::PreferInMemoryFallbackFilesystemRelative(prefix.to_owned()))
        } else {
            Err(PolicyError::InvalidPolicyValue(value.to_owned()))
        }
    }

    /// Write the placement choice in its canonical textual form, the exact
    /// inverse of `parse`.
    pub fn as_text(&self) -> (r: String)
        ensures
            r@ == placement_text(self@),
    {
        match self {
            PythonResourcesPolicy::InMemoryOnly => "in-memory-only".to_owned(),
            PythonResourcesPolicy::FilesystemRelativeOnly(prefix) => {
                let mut s = "filesystem-relative-only:".to_owned();
                s.append(prefix.as_str());
                s
            },
            PythonResourcesPolicy::PreferInMemoryFallbackFilesystemRelative(prefix) => {
                let mut s = "prefer-in-memory-fallback-filesystem-relative:".to_owned();
                s.append(prefix.as_str());
                s
            },
        }
    }
}

/// Round trip: the canonical text of every placement choice parses, and it
/// parses back to that very choice, whatever the path prefix holds.
pub proof fn lemma_placement_round_trip(p: PlacementModel)
    ensures
        placement_parseable(placement_text(p)),
        forall|q: PlacementModel| placement_of(placement_text(p), q) ==> q == p,
{
    reveal_strlit("in-memory-only");
    reveal_strlit("filesystem-relative-only:");
    reveal_strlit("prefer-in-memory-fallback-filesystem-relative:");
    let s = placement_text(p);
    match p {
        PlacementModel::InMemoryOnly => {},
        PlacementModel::FilesystemRelativeOnly(prefix) => {
            assert(s.len() == 25 + prefix.len());
            assert(s.subrange(0, 25) =~= "filesystem-relative-only:"@);
            assert(s.skip(25) =~= prefix);
        },
        PlacementModel::PreferInMemoryFallbackFilesystemRelative(prefix) => {
            assert(s.len() == 46 + prefix.len());
            if spec_starts_with(s, "filesystem-relative-only:"@) {
                assert(s.subrange(0, 25)[0] == s[0]);
                assert(s[0] == 'p');
                assert(false);
            }
            assert(s.subrange(0, 46) =~= "prefer-in-memory-fallback-filesystem-relative:"@);
            assert(s.skip(46) =~= prefix);
        },
    }
}

/// How aggressively extension modules are included.
#[derive(Clone, Copy, Debug, PartialEq, Eq, Structural)]
pub enum ExtensionModuleFilter {
    /// Only the minimally required variants.
    Minimal,
    /// Every available extension module.
    All,
    /// Only variants that need no external shared libraries.
    NoLibraries,
    /// Only variants admitted by the non-copyleft license rule.
    NoGPL,
}

/// Which strategy a text names, if any.
pub open spec fn filter_of(s: Seq<char>) -> Option<ExtensionModuleFilter> {
    if s == "minimal"@ {
        Some(ExtensionModuleFilter::Minimal)
    } else if s == "all"@ {
        Some(ExtensionModuleFilter::All)
    } else if s == "no-libraries"@ {
        Some(ExtensionModuleFilter::NoLibraries)
    } else if s == "no-gpl"@ {
        Some(ExtensionModuleFilter::NoGPL)
    } else {
        None
    }
}

impl ExtensionModuleFilter {
    /// Read a selection strategy from one of its four literals; any other
    /// text is rejected with the offending string.
    pub fn parse(value: &str) -> (r: Result<ExtensionModuleFilter, PolicyError>)
        ensures
            match filter_of(value@) {
                Some(f) => r == Ok::<ExtensionModuleFilter, PolicyError>(f),
                None => (r matches Err(e) && e matches PolicyError::InvalidFilterValue(t) && t@
                    == value@),
            },
    {
        if str_eq(value, "minimal") {
            Ok(ExtensionModuleFilter::Minimal)
        } else if str_eq(value, "all") {
            Ok(ExtensionModuleFilter::All)
        } else if str_eq(value, "no-libraries") {
            Ok(ExtensionModuleFilter::NoLibraries)
        } else if str_eq(value, "no-gpl") {
            Ok(ExtensionModuleFilter::NoGPL)
        } else {
            Err(PolicyError::InvalidFilterValue(value.to_owned()))
        }
    }
}

} // verus!
