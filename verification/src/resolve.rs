//! The settings resolver: merges per-run overrides with the remembered
//! record, applying fixed defaults, and yields both the effective settings
//! and the updated record to persist.

use vstd::prelude::*;

use crate::cache::{clone_opt_string, opt_str_view, Cache};
use crate::errors::TemplateError;

verus! {

/// The effective per-run settings beside the repository URL: the branch to
/// acquire and the directory to materialize into.
#[derive(Debug)]
pub struct OrderInfo {
    pub branch: String,
    pub target_dir: String,
}

/// The value of an optional borrowed string.
pub open spec fn opt_ref_view(o: Option<&String>) -> Option<Seq<char>> {
    match o {
        Some(s) => Some(s@),
        None => None,
    }
}

/// How one field resolves: the override if present, else the cached value if
/// present, else the fixed default.
pub open spec fn resolved_field(
    override_v: Option<Seq<char>>,
    cached: Option<Seq<char>>,
    default_v: Seq<char>,
) -> Seq<char> {
    if override_v is Some {
        override_v->0
    } else if cached is Some {
        cached->0
    } else {
        default_v
    }
}

/// Resolution precedence, spelled out: an override beats a cached value,
/// a cached value beats the default, and the default is taken only when
/// neither is present.
pub proof fn lemma_resolution_precedence(
    override_v: Option<Seq<char>>,
    cached: Option<Seq<char>>,
    default_v: Seq<char>,
)
    ensures
        override_v is Some ==> resolved_field(override_v, cached, default_v) == override_v->0,
        override_v is None && cached is Some ==> resolved_field(override_v, cached, default_v)
            == cached->0,
        override_v is None && cached is None ==> resolved_field(override_v, cached, default_v)
            == default_v,
{
}

/// Picks one field's effective value from override, cached value and default.
fn resolve_field(
    override_v: Option<&String>,
    cached: &Option<String>,
    default_v: &str,
) -> (r: String)
    ensures
        r@ == resolved_field(opt_ref_view(override_v), opt_str_view(*cached), default_v@),
{
    match override_v {
        Some(s) => s.clone(),
        None => match cached {
            Some(s) => s.clone(),
            None => default_v.to_owned(),
        },
    }
}

/// Resolves branch and destination from overrides and the remembered record,
/// and returns beside them the record updated with the resolved values, for
/// the caller to persist before acquisition begins.
///
/// The branch defaults to `main`; the destination defaults to the current
/// working directory, written `./`. The repository and template fields of the
/// record are left as they were.
pub fn resolve_order_info(
    branch_override: Option<&String>,
    target_override: Option<&String>,
    cache: &Cache,
) -> (r: (OrderInfo, Cache))
    ensures
        r.0.branch@ == resolved_field(opt_ref_view(branch_override), cache@.branch, "main"@),
        r.0.target_dir@ == resolved_field(opt_ref_view(target_override), cache@.target_dir, "./"@),
        r.1@.branch == Some(r.0.branch@),
        r.1@.target_dir == Some(r.0.target_dir@),
        r.1@.repo == cache@.repo,
        r.1@.template == cache@.template,
{
    let branch = resolve_field(branch_override, &cache.branch, "main");
    let target_dir = resolve_field(target_override, &cache.target_dir, "./");
    let updated = Cache {
        repo: clone_opt_string(&cache.repo),
        branch: Some(branch.clone()),
        target_dir: Some(target_dir.clone()),
        template: clone_opt_string(&cache.template),
    };
    (OrderInfo { branch, target_dir }, updated)
}

/// Resolves the repository URL: the override if present (remembered at once),
/// else the cached value, else a [`TemplateError::MissingRepoUrl`] failure —
/// this field has no default.
///
/// On success the second component is the record to persist: updated with the
/// override when one was given, untouched when the cached value was used.
pub fn get_repo_url(
    repo_override: Option<&String>,
    cache: &Cache,
) -> (r: Result<(String, Cache), TemplateError>)
    ensures
        repo_override is Some ==> (r matches Ok(p) && p.0@ == opt_ref_view(repo_override)->0
            && p.1@.repo == Some(p.0@) && p.1@.branch == cache@.branch && p.1@.target_dir
            == cache@.target_dir && p.1@.template == cache@.template),
        repo_override is None && cache@.repo is Some ==> (r matches Ok(p) && Some(p.0@)
            == cache@.repo && p.1@ == cache@),
        repo_override is None && cache@.repo is None ==> r == Err::<
            (String, Cache),
            TemplateError,
        >(TemplateError::MissingRepoUrl),
{
    match repo_override {
        Some(url) => {
            let updated = Cache {
                repo: Some(url.clone()),
                branch: clone_opt_string(&cache.branch),
                target_dir: clone_opt_string(&cache.target_dir),
                template: clone_opt_string(&cache.template),
            };
            Ok((url.clone(), updated))
        },
        None => match &cache.repo {
            Some(url) => Ok((url.clone(), cache.clone())),
            None => Err(TemplateError::MissingRepoUrl),
        },
    }
}

} // verus!
