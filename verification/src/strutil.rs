//! Small verified helpers for strings and for association lists of strings.

use vstd::prelude::*;
use vstd::string::StrSliceExecFns;

verus! {

/// `p` is a prefix of `s`.
pub open spec fn spec_starts_with(s: Seq<char>, p: Seq<char>) -> bool {
    p.len() <= s.len() && s.subrange(0, p.len() as int) == p
}

/// Character-for-character string equality.
pub fn str_eq(a: &str, b: &str) -> (r: bool)
    ensures
        r == (a@ == b@),
{
    let alen = a.unicode_len();
    let blen = b.unicode_len();
    if alen != blen {
        return false;
    }
    let mut i: usize = 0;
    while i < alen
        invariant
            i <= alen,
            alen == a@.len(),
            alen == b@.len(),
            forall|j: int| 0 <= j < i ==> a@[j] == b@[j],
        decreases alen - i,
    {
        if a.get_char(i) != b.get_char(i) {
            return false;
        }
        i += 1;
    }
    proof {
        assert(a@ =~= b@);
    }
    true
}

/// Whether `s` begins with the prefix `p`.
pub fn str_starts_with(s: &str, p: &str) -> (r: bool)
    ensures
        r == spec_starts_with(s@, p@),
{
    let plen = p.unicode_len();
    let slen = s.unicode_len();
    if plen > slen {
        return false;
    }
    let mut i: usize = 0;
    while i < plen
        invariant
            i <= plen,
            plen == p@.len(),
            slen == s@.len(),
            plen <= slen,
            forall|j: int| 0 <= j < i ==> s@[j] == p@[j],
        decreases plen - i,
    {
        if s.get_char(i) != p.get_char(i) {
            proof {
                assert(s@.subrange(0, p@.len() as int)[i as int] == s@[i as int]);
            }
            return false;
        }
        i += 1;
    }
    proof {
        assert(s@.subrange(0, p@.len() as int) =~= p@);
    }
    true
}

/// The sequence of character sequences held by a vector of strings.
pub open spec fn strings_view(v: Seq<String>) -> Seq<Seq<char>>
    decreases v.len(),
{
    if v.len() == 0 {
        Seq::empty()
    } else {
        strings_view(v.drop_last()).push(v.last()@)
    }
}

pub proof fn lemma_strings_view(v: Seq<String>)
    ensures
        strings_view(v).len() == v.len(),
        forall|i: int| 0 <= i < v.len() ==> strings_view(v)[i] == v[i]@,
    decreases v.len(),
{
    if v.len() > 0 {
        lemma_strings_view(v.drop_last());
    }
}

/// Copy a vector of strings.
pub fn clone_string_vec(v: &Vec<String>) -> (r: Vec<String>)
    ensures
        r@ == v@,
{
    let mut r: Vec<String> = Vec::new();
    let mut i: usize = 0;
    while i < v.len()
        invariant
            i <= v@.len(),
            r@ == v@.take(i as int),
        decreases v@.len() - i,
    {
        r.push(v[i].clone());
        proof {
            assert(r@ =~= v@.take(i as int + 1));
        }
        i += 1;
    }
    proof {
        assert(v@.take(v@.len() as int) =~= v@);
    }
    r
}

/// Copy a vector of string pairs.
pub fn clone_string_pairs(v: &Vec<(String, String)>) -> (r: Vec<(String, String)>)
    ensures
        r@ == v@,
{
    let mut r: Vec<(String, String)> = Vec::new();
    let mut i: usize = 0;
    while i < v.len()
        invariant
            i <= v@.len(),
            r@ == v@.take(i as int),
        decreases v@.len() - i,
    {
        r.push((v[i].0.clone(), v[i].1.clone()));
        proof {
            assert(r@ =~= v@.take(i as int + 1));
        }
        i += 1;
    }
    proof {
        assert(v@.take(v@.len() as int) =~= v@);
    }
    r
}

/// The view of an association list of strings: each entry as a pair of
/// character sequences.
pub open spec fn pairs_view(v: Seq<(String, String)>) -> Seq<(Seq<char>, Seq<char>)>
    decreases v.len(),
{
    if v.len() == 0 {
        Seq::empty()
    } else {
        pairs_view(v.drop_last()).push((v.last().0@, v.last().1@))
    }
}

pub proof fn lemma_pairs_view(v: Seq<(String, String)>)
    ensures
        pairs_view(v).len() == v.len(),
        forall|i: int| 0 <= i < v.len() ==> pairs_view(v)[i] == (v[i].0@, v[i].1@),
    decreases v.len(),
{
    if v.len() > 0 {
        lemma_pairs_view(v.drop_last());
    }
}

/// Look a key up in an association list; the most recently appended entry for
/// a key wins, so appending acts as an overwrite.
pub open spec fn assoc_lookup(m: Seq<(Seq<char>, Seq<char>)>, key: Seq<char>) -> Option<Seq<char>>
    decreases m.len(),
{
    if m.len() == 0 {
        None
    } else if m.last().0 == key {
        Some(m.last().1)
    } else {
        assoc_lookup(m.drop_last(), key)
    }
}

/// Find the value for `key` among string pairs, preferring the most recently
/// appended entry.
pub fn assoc_get<'a>(entries: &'a Vec<(String, String)>, key: &str) -> (r: Option<&'a String>)
    ensures
        match r {
            Some(v) => assoc_lookup(pairs_view(entries@), key@) == Some(v@),
            None => assoc_lookup(pairs_view(entries@), key@) is None,
        },
{
    proof {
        lemma_pairs_view(entries@);
        assert(entries@.take(entries@.len() as int) =~= entries@);
    }
    let mut i: usize = entries.len();
    while i > 0
        invariant
            i <= entries@.len(),
            assoc_lookup(pairs_view(entries@), key@) == assoc_lookup(
                pairs_view(entries@.take(i as int)),
                key@,
            ),
        decreases i,
    {
        proof {
            lemma_pairs_view(entries@.take(i as int));
            lemma_pairs_view(entries@.take(i as int - 1));
            assert(entries@.take(i as int).drop_last() =~= entries@.take(i as int - 1));
            assert(pairs_view(entries@.take(i as int)).last() == (
                entries@[i as int - 1].0@,
                entries@[i as int - 1].1@,
            ));
        }
        let entry = &entries[i - 1];
        if str_eq(entry.0.as_str(), key) {
            return Some(&entry.1);
        }
        proof {
            assert(pairs_view(entries@.take(i as int)).drop_last() =~= pairs_view(
                entries@.take(i as int - 1),
            )) by {
                lemma_pairs_view(entries@.take(i as int));
                lemma_pairs_view(entries@.take(i as int - 1));
                assert(entries@.take(i as int).drop_last() =~= entries@.take(i as int - 1));
            }
        }
        i -= 1;
    }
    proof {
        assert(entries@.take(0) =~= Seq::<(String, String)>::empty());
    }
    None
}

} // verus!
