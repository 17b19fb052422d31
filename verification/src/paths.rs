//! Path arithmetic on plain strings: joining a base directory with a child
//! name, the destination a run materializes into, and the fixed location of
//! the configuration file under the per-user home.

use vstd::prelude::*;

verus! {

/// Joining a base directory and a child name with a single separator:
/// a separator is inserted unless the base already ends with one.
pub open spec fn spec_join(base: Seq<char>, child: Seq<char>) -> Seq<char> {
    if base.len() > 0 && base.last() == '/' {
        base + child
    } else {
        base + "/"@ + child
    }
}

/// Joins a base directory and a child name with a single separator.
pub fn join_path(base: &str, child: &str) -> (r: String)
    ensures
        r@ == spec_join(base@, child@),
{
    let n = base.unicode_len();
    let mut out = base.to_owned();
    if n == 0 || base.get_char(n - 1) != '/' {
        out.append("/");
    }
    out.append(child);
    out
}

/// The folder a clone lands in: the base destination joined with the name the
/// user typed, or with the default name when the input was left empty.
pub fn get_target_path(default_path: &str, default_name: &str, input: &str) -> (r: String)
    ensures
        input@.len() == 0 ==> r@ == spec_join(default_path@, default_name@),
        input@.len() > 0 ==> r@ == spec_join(default_path@, input@),
{
    if input.unicode_len() == 0 {
        join_path(default_path, default_name)
    } else {
        join_path(default_path, input)
    }
}

/// The location of a file of this tool under the per-user home directory:
/// inside the fixed `.tmpl-cli` configuration folder.
pub fn config_file_path(home: &str, file: &str) -> (r: String)
    ensures
        r@ == spec_join(spec_join(home@, ".tmpl-cli"@), file@),
{
    let dir = join_path(home, ".tmpl-cli");
    join_path(dir.as_str(), file)
}

} // verus!
