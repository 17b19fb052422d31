//! The persisted record of last-used settings. The record is a pure cache:
//! a per-run override always takes precedence over it, and the merged result
//! is written back so every run remembers the user's latest intent.

use vstd::prelude::*;

verus! {

/// The remembered settings, each independently optional. Absence means
/// "never supplied", not an error.
#[derive(Debug)]
pub struct Cache {
    pub repo: Option<String>,
    pub branch: Option<String>,
    pub target_dir: Option<String>,
    pub template: Option<String>,
}

/// The mathematical value of a [`Cache`]: each field as an optional
/// sequence of characters.
#[verifier::ext_equal]
pub struct CacheView {
    pub repo: Option<Seq<char>>,
    pub branch: Option<Seq<char>>,
    pub target_dir: Option<Seq<char>>,
    pub template: Option<Seq<char>>,
}

/// The value of one optional string field.
pub open spec fn opt_str_view(o: Option<String>) -> Option<Seq<char>> {
    match o {
        Some(s) => Some(s@),
        None => None,
    }
}

impl View for Cache {
    type V = CacheView;

    open spec fn view(&self) -> CacheView {
        CacheView {
            repo: opt_str_view(self.repo),
            branch: opt_str_view(self.branch),
            target_dir: opt_str_view(self.target_dir),
            template: opt_str_view(self.template),
        }
    }
}

/// The record with every field unset.
pub open spec fn empty_cache_view() -> CacheView {
    CacheView { repo: None, branch: None, target_dir: None, template: None }
}

impl Cache {
    /// The record a first run starts from, and the one a malformed or missing
    /// backing file falls back to: every field unset.
    pub fn empty() -> (r: Cache)
        ensures
            r@ == empty_cache_view(),
    {
        Cache { repo: None, branch: None, target_dir: None, template: None }
    }
}

impl Default for Cache {
    /// The empty record: what a first run, or a cleared store, starts from.
    fn default() -> (r: Self)
        ensures
            r@ == empty_cache_view(),
    {
        Cache::empty()
    }
}

/// Duplicates one optional string field, keeping its value.
pub fn clone_opt_string(o: &Option<String>) -> (r: Option<String>)
    ensures
        opt_str_view(r) == opt_str_view(*o),
{
    match o {
        Some(s) => Some(s.clone()),
        None => None,
    }
}

impl Clone for Cache {
    /// Duplicates the record, keeping every field's value.
    fn clone(&self) -> (r: Self)
        ensures
            r@ == self@,
    {
        Cache {
            repo: clone_opt_string(&self.repo),
            branch: clone_opt_string(&self.branch),
            target_dir: clone_opt_string(&self.target_dir),
            template: clone_opt_string(&self.template),
        }
    }
}

} // verus!
