//! Allow-list of license identifiers that are safe under the
//! copyleft-exclusion selection strategy.

use vstd::prelude::*;

use crate::strutil::{str_eq, strings_view};

verus! {

/// Whether a license identifier belongs to the non-copyleft allow-list.
///
/// The list is a closed set: an identifier not named here is presumed
/// copyleft, a deliberately conservative posture.
pub open spec fn is_non_gpl_license(s: Seq<char>) -> bool {
    ||| s == "Apache-2.0"@
    ||| s == "BSD-2-Clause"@
    ||| s == "BSD-3-Clause"@
    ||| s == "ISC"@
    ||| s == "MIT"@
    ||| s == "Python-2.0"@
    ||| s == "Unlicense"@
    ||| s == "Zlib"@
}

/// Membership test against the non-copyleft allow-list.
pub fn license_allowed(license: &str) -> (r: bool)
    ensures
        r == is_non_gpl_license(license@),
{
    str_eq(license, "Apache-2.0") || str_eq(license, "BSD-2-Clause") || str_eq(
        license,
        "BSD-3-Clause",
    ) || str_eq(license, "ISC") || str_eq(license, "MIT") || str_eq(license, "Python-2.0")
        || str_eq(license, "Unlicense") || str_eq(license, "Zlib")
}

/// Every identifier in the list is on the allow-list.
pub open spec fn all_licenses_allowed(ls: Seq<Seq<char>>) -> bool {
    forall|i: int| 0 <= i < ls.len() ==> is_non_gpl_license(#[trigger] ls[i])
}

/// Whether every license of an explicit license list is allow-listed.
pub fn licenses_allowed(ls: &Vec<String>) -> (r: bool)
    ensures
        r == all_licenses_allowed(strings_view(ls@)),
{
    proof {
        crate::strutil::lemma_strings_view(ls@);
    }
    let mut i: usize = 0;
    while i < ls.len()
        invariant
            i <= ls@.len(),
            strings_view(ls@).len() == ls@.len(),
            forall|j: int| 0 <= j < ls@.len() ==> strings_view(ls@)[j] == ls@[j]@,
            forall|j: int| 0 <= j < i ==> is_non_gpl_license(#[trigger] strings_view(ls@)[j]),
        decreases ls@.len() - i,
    {
        if !license_allowed(ls[i].as_str()) {
            proof {
                assert(!is_non_gpl_license(strings_view(ls@)[i as int]));
            }
            return false;
        }
        i += 1;
    }
    true
}

} // verus!
