//! Observations of the machine that the verified logic takes as input:
//! which paths exist, what they canonicalize to, and the clock.
//!
//! The probes here read the file system and the clock; nothing can be
//! promised of what they return.  The functions that use the observations
//! take them as plain values and are verified for every value.

use vstd::prelude::*;

use crate::domain::string_views;
use crate::text::str_eq;

verus! {

/// What the file system said about a set of paths.
#[derive(Debug, PartialEq, Eq)]
pub struct PathFacts {
    /// The paths that exist.
    pub existing: Vec<String>,
    /// Canonical forms, as (path, canonical path) pairs; a path without a
    /// pair is its own canonical form.
    pub canonical: Vec<(String, String)>,
}

pub open spec fn pair_views(v: Seq<(String, String)>) -> Seq<(Seq<char>, Seq<char>)> {
    v.map_values(|p: (String, String)| (p.0@, p.1@))
}

/// The value of the first pair whose key is `k`.
pub open spec fn lookup_first(ps: Seq<(Seq<char>, Seq<char>)>, k: Seq<char>) -> Option<Seq<char>>
    decreases ps.len(),
{
    if ps.len() == 0 {
        None
    } else if ps[0].0 == k {
        Some(ps[0].1)
    } else {
        lookup_first(ps.drop_first(), k)
    }
}

impl PathFacts {
    pub open spec fn has_path(&self, p: Seq<char>) -> bool {
        string_views(self.existing@).contains(p)
    }

    pub open spec fn canon(&self, p: Seq<char>) -> Seq<char> {
        match lookup_first(pair_views(self.canonical@), p) {
            Some(c) => c,
            None => p,
        }
    }

    /// Whether `p` exists.
    pub fn path_exists(&self, p: &str) -> (r: bool)
        ensures
            r == self.has_path(p@),
    {
        contains_string(&self.existing, p)
    }

    /// The canonical form of `p`.
    pub fn canonical_of(&self, p: &str) -> (r: String)
        ensures
            r@ == self.canon(p@),
    {
        match lookup_string(&self.canonical, p) {
            Some(c) => c,
            None => p.to_owned(),
        }
    }
}

/// Whether `s` is among `v`.
pub fn contains_string(v: &Vec<String>, s: &str) -> (r: bool)
    ensures
        r == string_views(v@).contains(s@),
{
    let mut i: usize = 0;
    while i < v.len()
        invariant
            i <= v@.len(),
            forall|j: int| 0 <= j < i ==> v@[j]@ != s@,
        decreases v@.len() - i,
    {
        if str_eq(v[i].as_str(), s) {
            assert(string_views(v@)[i as int] == s@);
            return true;
        }
        i = i + 1;
    }
    assert forall|j: int| 0 <= j < string_views(v@).len() implies string_views(v@)[j] != s@ by {
        assert(string_views(v@)[j] == v@[j]@);
    }
    false
}

/// The value of the first pair whose key is `k`.
pub fn lookup_string(v: &Vec<(String, String)>, k: &str) -> (r: Option<String>)
    ensures
        match lookup_first(pair_views(v@), k@) {
            Some(x) => r matches Some(s) && s@ == x,
            None => r is None,
        },
{
    let mut i: usize = 0;
    assert(pair_views(v@).skip(0) =~= pair_views(v@));
    while i < v.len()
        invariant
            i <= v@.len(),
            lookup_first(pair_views(v@), k@) == lookup_first(pair_views(v@).skip(i as int), k@),
        decreases v@.len() - i,
    {
        let ghost rest = pair_views(v@).skip(i as int);
        assert(rest[0] == (v@[i as int].0@, v@[i as int].1@));
        if str_eq(v[i].0.as_str(), k) {
            return Some(v[i].1.clone());
        }
        assert(rest.drop_first() =~= pair_views(v@).skip(i + 1));
        i = i + 1;
    }
    assert(pair_views(v@).skip(i as int).len() == 0);
    None
}

/// Whether `path` exists on this machine.
///
/// Trusted: `Path::exists`; what it returns depends on the file system.
#[verifier::external_body]
pub(crate) fn path_exists(path: &str) -> bool {
    std::path::Path::new(path).exists()
}

/// The canonical form of `path`, or `path` itself when it cannot be
/// canonicalized.
///
/// Trusted: `Path::canonicalize`; what it returns depends on the file system.
#[verifier::external_body]
pub fn canonical_or_self(path: &str) -> String {
    match std::path::Path::new(path).canonicalize() {
        Ok(p) => p.to_string_lossy().into_owned(),
        Err(_) => path.to_string(),
    }
}

/// Seconds since the Unix epoch, or 0 when the clock reads before it.
///
/// Trusted: `SystemTime::now`; what it returns depends on the clock.
#[verifier::external_body]
pub(crate) fn now_unix() -> i64 {
    match std::time::SystemTime::now().duration_since(std::time::UNIX_EPOCH) {
        Ok(d) => d.as_secs() as i64,
        Err(_) => 0,
    }
}

/// Whether `facts` observes exactly `paths`: one canonical pair per path,
/// keyed by that path, in order, and no path outside them said to exist.
pub open spec fn observes(facts: PathFacts, paths: Seq<Seq<char>>) -> bool {
    &&& pair_views(facts.canonical@).map_values(|p: (Seq<char>, Seq<char>)| p.0) == paths
    &&& forall|k: int| 0 <= k < facts.existing@.len() ==> paths.contains(#[trigger] facts.existing@[k]@)
}

/// Observes existence and canonical form of each of `paths`: which of
/// them exist, and one canonical form for each, in order.
pub fn observe_paths(paths: &Vec<String>) -> (r: PathFacts)
    ensures
        observes(r, string_views(paths@)),
        r.canonical@.len() == paths@.len(),
        forall|i: int| 0 <= i < paths@.len() ==> (#[trigger] r.canonical@[i]).0@ == paths@[i]@,
        forall|k: int| 0 <= k < r.existing@.len() ==> string_views(paths@).contains(#[trigger] r.existing@[k]@),
{
    let mut existing: Vec<String> = Vec::new();
    let mut canonical: Vec<(String, String)> = Vec::new();
    let mut i: usize = 0;
    while i < paths.len()
        invariant
            i <= paths@.len(),
            canonical@.len() == i,
            forall|j: int| 0 <= j < i ==> (#[trigger] canonical@[j]).0@ == paths@[j]@,
            forall|k: int| 0 <= k < existing@.len() ==> string_views(paths@).contains(#[trigger] existing@[k]@),
        decreases paths@.len() - i,
    {
        let p = paths[i].as_str();
        if path_exists(p) {
            let ghost before = existing@;
            existing.push(p.to_owned());
            assert(string_views(paths@)[i as int] == paths@[i as int]@);
            assert forall|k: int| 0 <= k < existing@.len() implies string_views(paths@).contains(#[trigger] existing@[k]@) by {
                if k < before.len() {
                    assert(existing@[k] == before[k]);
                }
            }
        }
        canonical.push((p.to_owned(), canonical_or_self(p)));
        i = i + 1;
    }
    let r = PathFacts { existing, canonical };
    assert(pair_views(r.canonical@).map_values(|p: (Seq<char>, Seq<char>)| p.0) =~= string_views(paths@));
    r
}

} // verus!
