//! Decisions around the external clone capability: the argument list a clone
//! invocation is built from, and how its reported outcome is interpreted.
//! Running the external program is the shell's job; it hands the outcome back
//! here as plain values.

use vstd::prelude::*;

use crate::errors::TemplateError;

verus! {

/// The argument list for acquiring one branch of a repository into a target
/// path: `clone --branch <branch> <repository> <target>`.
pub fn clone_args(repo_url: &str, branch: &str, target_path: &str) -> (r: Vec<String>)
    ensures
        r@.len() == 5,
        r@[0]@ == "clone"@,
        r@[1]@ == "--branch"@,
        r@[2]@ == branch@,
        r@[3]@ == repo_url@,
        r@[4]@ == target_path@,
{
    let mut args: Vec<String> = Vec::new();
    args.push("clone".to_owned());
    args.push("--branch".to_owned());
    args.push(branch.to_owned());
    args.push(repo_url.to_owned());
    args.push(target_path.to_owned());
    args
}

/// The argument list for the one-shot acquisition of a catalog entry:
/// `clone <repository> <target>`, on the default branch.
pub fn direct_clone_args(repo_url: &str, target_path: &str) -> (r: Vec<String>)
    ensures
        r@.len() == 3,
        r@[0]@ == "clone"@,
        r@[1]@ == repo_url@,
        r@[2]@ == target_path@,
{
    let mut args: Vec<String> = Vec::new();
    args.push("clone".to_owned());
    args.push(repo_url.to_owned());
    args.push(target_path.to_owned());
    args
}

/// Interprets the reported completion of the external clone capability:
/// success passes, failure becomes a [`TemplateError::GitCloneError`] carrying
/// the capability's diagnostic text verbatim.
pub fn clone_outcome(success: bool, stderr: &str) -> (r: Result<(), TemplateError>)
    ensures
        success <==> r is Ok,
        !success ==> (r matches Err(e) && e matches TemplateError::GitCloneError(d) && d@
            == stderr@),
{
    if success {
        Ok(())
    } else {
        Err(TemplateError::GitCloneError(stderr.to_owned()))
    }
}

} // verus!
