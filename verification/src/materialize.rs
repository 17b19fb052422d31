//! The materializer: recursively duplicates a chosen source directory tree
//! into a destination, honoring an optional rename override, creating
//! intermediate destination directories on demand, overwriting same-named
//! files and leaving unrelated destination entries in place.
//!
//! The filesystem is modelled as a value: a tree of named files and
//! directories. The shell reads the real source tree into this model, calls
//! [`copy_template`], and writes the resulting tree back; every decision the
//! walk makes — which destination path each entry lands at, which conflicts
//! are errors, which error each failure is — is made and proved here.

use vstd::pervasive::VecAdditionalExecFns;
use vstd::prelude::*;

use crate::errors::TemplateError;
use crate::jsontext::str_eq;

verus! {

/// One named child of a directory in the filesystem model.
#[derive(Debug, PartialEq, Eq)]
pub struct FsEntry {
    pub name: String,
    pub node: FsTree,
}

/// A filesystem subtree: a file with its bytes, or a directory with its
/// named children.
#[derive(Debug, PartialEq, Eq)]
pub enum FsTree {
    File { data: Vec<u8> },
    Dir { entries: Vec<FsEntry> },
}

/// The mathematical value of a subtree.
pub enum TreeV {
    FileV { data: Seq<u8> },
    DirV { entries: Seq<(Seq<char>, TreeV)> },
}

/// The mathematical value of an [`FsTree`].
pub open spec fn tree_view(t: FsTree) -> TreeV
    decreases t, 1int,
{
    match t {
        FsTree::File { data } => TreeV::FileV { data: data@ },
        FsTree::Dir { entries } => TreeV::DirV {
            entries: entries_view(entries, entries.len() as int),
        },
    }
}

/// The mathematical values of the first `n` children of a directory.
pub open spec fn entries_view(entries: Vec<FsEntry>, n: int) -> Seq<(Seq<char>, TreeV)>
    decreases entries, 0int, n,
{
    if n <= 0 || n > entries.len() {
        Seq::empty()
    } else {
        entries_view(entries, n - 1).push(
            (entries[n - 1].name@, tree_view(entries[n - 1].node)),
        )
    }
}

/// The length and elements of a directory's value, spelled out.
pub proof fn lemma_entries_view(entries: Vec<FsEntry>, n: int)
    requires
        0 <= n <= entries.len(),
    ensures
        entries_view(entries, n).len() == n,
        forall|i: int|
            0 <= i < n ==> entries_view(entries, n)[i] == (
                entries[i].name@,
                tree_view(entries[i].node),
            ),
    decreases n,
{
    if n > 0 {
        lemma_entries_view(entries, n - 1);
    }
}

/// The place of the first child with the given name at or after `i`, or
/// `-1` when there is none.
pub open spec fn find_from(es: Seq<(Seq<char>, TreeV)>, name: Seq<char>, i: int) -> int
    decreases es.len() - i,
{
    if i < 0 || i >= es.len() {
        -1
    } else if es[i].0 == name {
        i
    } else {
        find_from(es, name, i + 1)
    }
}

/// The place of the first child with the given name, or `-1`.
pub open spec fn find_entry(es: Seq<(Seq<char>, TreeV)>, name: Seq<char>) -> int {
    find_from(es, name, 0)
}

/// The first child with the given name, if any.
pub open spec fn lookup_entry(es: Seq<(Seq<char>, TreeV)>, name: Seq<char>) -> Option<TreeV> {
    if find_entry(es, name) >= 0 {
        Some(es[find_entry(es, name)].1)
    } else {
        None
    }
}

/// The children with the first child of the given name replaced, or with a
/// new child appended when none had the name.
pub open spec fn set_entry(es: Seq<(Seq<char>, TreeV)>, name: Seq<char>, node: TreeV) -> Seq<
    (Seq<char>, TreeV),
> {
    if find_entry(es, name) >= 0 {
        es.update(find_entry(es, name), (name, node))
    } else {
        es.push((name, node))
    }
}

/// The node at the given path below a node, following the path's segments
/// from place `i` on.
pub open spec fn lookup_path(t: TreeV, path: Seq<Seq<char>>, i: int) -> Option<TreeV>
    decreases path.len() - i,
{
    if i < 0 || i >= path.len() {
        Some(t)
    } else {
        match t {
            TreeV::FileV { .. } => None,
            TreeV::DirV { entries } => match lookup_entry(entries, path[i]) {
                Some(c) => lookup_path(c, path, i + 1),
                None => None,
            },
        }
    }
}

/// The node at the given path below a node.
pub open spec fn lookup(t: TreeV, path: Seq<Seq<char>>) -> Option<TreeV> {
    lookup_path(t, path, 0)
}

/// Why a copy fails, with the path it fails at: the source is missing or
/// not a directory; a destination directory cannot be made because a file
/// stands at its path; a file cannot be written because a directory stands
/// at its path.
pub enum CopyErrV {
    MissingV { path: Seq<Seq<char>> },
    TargetV { path: Seq<Seq<char>> },
    CopyV { path: Seq<Seq<char>> },
}

/// The outcome of copying one source node onto what the destination holds
/// at the same path: files overwrite files and fill empty places, but a
/// file never replaces a directory nor a directory a file.
pub open spec fn merge_node(src: TreeV, dest: Option<TreeV>, at: Seq<Seq<char>>) -> Result<
    TreeV,
    CopyErrV,
>
    decreases src, 1int,
{
    match src {
        TreeV::FileV { data } => match dest {
            Some(TreeV::DirV { .. }) => Err(CopyErrV::CopyV { path: at }),
            _ => Ok(TreeV::FileV { data }),
        },
        TreeV::DirV { entries } => match dest {
            Some(TreeV::FileV { .. }) => Err(CopyErrV::TargetV { path: at }),
            Some(TreeV::DirV { entries: des }) => match merge_entries(entries, 0, des, at) {
                Ok(nes) => Ok(TreeV::DirV { entries: nes }),
                Err(e) => Err(e),
            },
            None => match merge_entries(entries, 0, Seq::empty(), at) {
                Ok(nes) => Ok(TreeV::DirV { entries: nes }),
                Err(e) => Err(e),
            },
        },
    }
}

/// The outcome of copying the source children from place `i` on into the
/// destination children, one after the other, first failure wins.
pub open spec fn merge_entries(
    src_es: Seq<(Seq<char>, TreeV)>,
    i: int,
    des: Seq<(Seq<char>, TreeV)>,
    at: Seq<Seq<char>>,
) -> Result<Seq<(Seq<char>, TreeV)>, CopyErrV>
    decreases src_es, 0int, src_es.len() - i,
{
    if i < 0 || i >= src_es.len() {
        Ok(des)
    } else {
        match merge_node(src_es[i].1, lookup_entry(des, src_es[i].0), at.push(src_es[i].0)) {
            Ok(nn) => merge_entries(src_es, i + 1, set_entry(des, src_es[i].0, nn), at),
            Err(e) => Err(e),
        }
    }
}

/// The outcome of placing the source children at the path `rel` (from
/// place `i` on) below a node: intermediate directories are created on
/// demand, existing ones are entered, and a file in the way is a
/// [`CopyErrV::TargetV`] failure.
pub open spec fn place(
    node: TreeV,
    rel: Seq<Seq<char>>,
    i: int,
    at: Seq<Seq<char>>,
    src_es: Seq<(Seq<char>, TreeV)>,
) -> Result<TreeV, CopyErrV>
    decreases rel.len() - i,
{
    match node {
        TreeV::FileV { .. } => Err(CopyErrV::TargetV { path: at }),
        TreeV::DirV { entries: des } => {
            if i < 0 || i >= rel.len() {
                match merge_entries(src_es, 0, des, at) {
                    Ok(nes) => Ok(TreeV::DirV { entries: nes }),
                    Err(e) => Err(e),
                }
            } else {
                let child = match lookup_entry(des, rel[i]) {
                    Some(c) => c,
                    None => TreeV::DirV { entries: Seq::empty() },
                };
                match place(child, rel, i + 1, at.push(rel[i]), src_es) {
                    Ok(nc) => Ok(TreeV::DirV { entries: set_entry(des, rel[i], nc) }),
                    Err(e) => Err(e),
                }
            }
        },
    }
}

/// The outcome of a whole copy: the source path must name a directory,
/// whose children are then placed at the effective destination path.
pub open spec fn spec_copy(root: TreeV, source: Seq<Seq<char>>, eff: Seq<Seq<char>>) -> Result<
    TreeV,
    CopyErrV,
> {
    match lookup(root, source) {
        Some(TreeV::DirV { entries }) => place(root, eff, 0, Seq::empty(), entries),
        _ => Err(CopyErrV::MissingV { path: source }),
    }
}

/// Whether a directory's children carry pairwise distinct names, as the
/// children of a real directory do.
pub open spec fn distinct_names(es: Seq<(Seq<char>, TreeV)>) -> bool {
    forall|i: int, j: int| 0 <= i < j < es.len() ==> es[i].0 != es[j].0
}

/// Whether a subtree is a faithful directory image: every directory's
/// children carry distinct names, at every depth.
pub open spec fn wf_tree(t: TreeV) -> bool
    decreases t, 1int,
{
    match t {
        TreeV::FileV { .. } => true,
        TreeV::DirV { entries } => distinct_names(entries) && wf_children(entries, 0),
    }
}

/// Whether the children from place `i` on are all faithful images.
pub open spec fn wf_children(es: Seq<(Seq<char>, TreeV)>, i: int) -> bool
    decreases es, 0int, es.len() - i,
{
    if i < 0 || i >= es.len() {
        true
    } else {
        wf_tree(es[i].1) && wf_children(es, i + 1)
    }
}

/// A name that no child from `i` on carries is not found there.
proof fn lemma_find_from_absent(es: Seq<(Seq<char>, TreeV)>, name: Seq<char>, i: int)
    requires
        forall|j: int| i <= j < es.len() ==> es[j].0 != name,
    ensures
        find_from(es, name, i) == -1,
    decreases es.len() - i,
{
    if 0 <= i < es.len() {
        lemma_find_from_absent(es, name, i + 1);
    }
}

/// Copying a faithful subtree onto an empty place reproduces it exactly.
pub proof fn lemma_merge_none(src: TreeV, at: Seq<Seq<char>>)
    requires
        wf_tree(src),
    ensures
        merge_node(src, None, at) == Ok::<TreeV, CopyErrV>(src),
    decreases src, 1int,
{
    match src {
        TreeV::FileV { .. } => {},
        TreeV::DirV { entries } => {
            assert(entries.take(0) =~= Seq::<(Seq<char>, TreeV)>::empty());
            lemma_merge_entries_fresh(entries, 0, at);
            assert(entries.take(entries.len() as int) =~= entries);
        },
    }
}

/// Copying faithful children one by one onto exactly the already-copied
/// ones extends them in order.
proof fn lemma_merge_entries_fresh(es: Seq<(Seq<char>, TreeV)>, i: int, at: Seq<Seq<char>>)
    requires
        0 <= i <= es.len(),
        distinct_names(es),
        wf_children(es, i),
    ensures
        merge_entries(es, i, es.take(i), at) == Ok::<Seq<(Seq<char>, TreeV)>, CopyErrV>(es),
    decreases es, 0int, es.len() - i,
{
    if i < es.len() {
        let acc = es.take(i);
        assert(forall|j: int| 0 <= j < acc.len() ==> acc[j] == es[j]);
        lemma_find_from_absent(acc, es[i].0, 0);
        assert(lookup_entry(acc, es[i].0) is None);
        lemma_merge_none(es[i].1, at.push(es[i].0));
        let pair = es[i];
        assert(pair == (pair.0, pair.1));
        assert(set_entry(acc, es[i].0, es[i].1) =~= es.take(i + 1));
        lemma_merge_entries_fresh(es, i + 1, at);
    } else {
        assert(es.take(i) =~= es);
    }
}

/// The chain of fresh directories from `rel[i]` on, ending in the given
/// node.
pub open spec fn dirs_to(rel: Seq<Seq<char>>, i: int, leaf: TreeV) -> TreeV
    decreases rel.len() - i,
{
    if i < 0 || i >= rel.len() {
        leaf
    } else {
        TreeV::DirV { entries: seq![(rel[i], dirs_to(rel, i + 1, leaf))] }
    }
}

/// Placing faithful children below an empty directory builds exactly the
/// chain of fresh directories with the copied children at its end.
proof fn lemma_place_fresh(
    rel: Seq<Seq<char>>,
    i: int,
    at: Seq<Seq<char>>,
    src_es: Seq<(Seq<char>, TreeV)>,
)
    requires
        0 <= i <= rel.len(),
        distinct_names(src_es),
        wf_children(src_es, 0),
    ensures
        place(TreeV::DirV { entries: Seq::empty() }, rel, i, at, src_es) == Ok::<
            TreeV,
            CopyErrV,
        >(dirs_to(rel, i, TreeV::DirV { entries: src_es })),
    decreases rel.len() - i,
{
    let empty_dir = TreeV::DirV { entries: Seq::<(Seq<char>, TreeV)>::empty() };
    if i >= rel.len() {
        assert(src_es.take(0) =~= Seq::<(Seq<char>, TreeV)>::empty());
        lemma_merge_entries_fresh(src_es, 0, at);
    } else {
        lemma_find_from_absent(Seq::<(Seq<char>, TreeV)>::empty(), rel[i], 0);
        assert(lookup_entry(Seq::<(Seq<char>, TreeV)>::empty(), rel[i]) is None);
        lemma_place_fresh(rel, i + 1, at.push(rel[i]), src_es);
        let nc = dirs_to(rel, i + 1, TreeV::DirV { entries: src_es });
        assert(set_entry(Seq::<(Seq<char>, TreeV)>::empty(), rel[i], nc) =~= seq![(rel[i], nc)]);
    }
}

/// Walking the chain of fresh directories along its own path ends at the
/// node it was built around.
proof fn lemma_lookup_dirs_to(rel: Seq<Seq<char>>, i: int, leaf: TreeV)
    requires
        0 <= i <= rel.len(),
    ensures
        lookup_path(dirs_to(rel, i, leaf), rel, i) == Some(leaf),
    decreases rel.len() - i,
{
    if i < rel.len() {
        let es = seq![(rel[i], dirs_to(rel, i + 1, leaf))];
        assert(find_entry(es, rel[i]) == 0);
        lemma_lookup_dirs_to(rel, i + 1, leaf);
    }
}

/// Copy fidelity: copying a faithful source tree into an empty destination
/// succeeds, and what then stands at the destination path is a tree equal
/// to the source — same shape, same names, same bytes.
pub proof fn lemma_copy_fidelity(rel: Seq<Seq<char>>, src_es: Seq<(Seq<char>, TreeV)>)
    requires
        distinct_names(src_es),
        wf_children(src_es, 0),
    ensures
        ({
            let r = place(
                TreeV::DirV { entries: Seq::empty() },
                rel,
                0,
                Seq::empty(),
                src_es,
            );
            r matches Ok(t) && lookup(t, rel) == Some(TreeV::DirV { entries: src_es })
        }),
{
    lemma_place_fresh(rel, 0, Seq::empty(), src_es);
    lemma_lookup_dirs_to(rel, 0, TreeV::DirV { entries: src_es });
}

/// Rename override: with a rename path given, the copied content stands
/// under the rename path, and nothing stands under the bypassed destination
/// path when the two part ways at their first segment.
pub proof fn lemma_rename_override(
    rename_path: Seq<Seq<char>>,
    dest_path: Seq<Seq<char>>,
    src_es: Seq<(Seq<char>, TreeV)>,
)
    requires
        distinct_names(src_es),
        wf_children(src_es, 0),
        rename_path.len() > 0,
        dest_path.len() > 0,
        rename_path[0] != dest_path[0],
    ensures
        ({
            let r = place(
                TreeV::DirV { entries: Seq::empty() },
                rename_path,
                0,
                Seq::empty(),
                src_es,
            );
            r matches Ok(t) && lookup(t, rename_path) == Some(TreeV::DirV { entries: src_es })
                && lookup(t, dest_path) is None
        }),
{
    lemma_place_fresh(rename_path, 0, Seq::empty(), src_es);
    lemma_lookup_dirs_to(rename_path, 0, TreeV::DirV { entries: src_es });
    let t = dirs_to(rename_path, 0, TreeV::DirV { entries: src_es });
    let es = seq![(rename_path[0], dirs_to(rename_path, 1, TreeV::DirV { entries: src_es }))];
    lemma_find_from_absent(es, dest_path[0], 1);
    assert(find_entry(es, dest_path[0]) == -1);
}

/// Copy fidelity at the entry point: on a filesystem holding one source
/// directory, a whole copy to a destination that parts ways with the
/// source at the first segment succeeds; the destination path then holds a
/// tree equal to the source, and the source itself stands untouched.
pub proof fn lemma_copy_template_fidelity(
    sname: Seq<char>,
    src_es: Seq<(Seq<char>, TreeV)>,
    eff: Seq<Seq<char>>,
)
    requires
        distinct_names(src_es),
        wf_children(src_es, 0),
        eff.len() > 0,
        eff[0] != sname,
    ensures
        ({
            let root = TreeV::DirV {
                entries: seq![(sname, TreeV::DirV { entries: src_es })],
            };
            spec_copy(root, seq![sname], eff) matches Ok(t) && lookup(t, eff) == Some(
                TreeV::DirV { entries: src_es },
            ) && lookup(t, seq![sname]) == Some(TreeV::DirV { entries: src_es })
        }),
{
    let src = TreeV::DirV { entries: src_es };
    let root_es = seq![(sname, src)];
    let root = TreeV::DirV { entries: root_es };
    let source = seq![sname];
    assert(find_entry(root_es, sname) == 0);
    assert(source[0] == sname);
    assert(lookup_entry(root_es, sname) == Some(src));
    assert(lookup_path(src, source, 1) == Some(src));
    assert(lookup(root, source) == Some(src));
    lemma_find_from_absent(root_es, eff[0], 1);
    assert(find_entry(root_es, eff[0]) == -1);
    lemma_place_fresh(eff, 1, Seq::<Seq<char>>::empty().push(eff[0]), src_es);
    let nc = dirs_to(eff, 1, src);
    let t_es = set_entry(root_es, eff[0], nc);
    assert(t_es =~= root_es.push((eff[0], nc)));
    assert(spec_copy(root, source, eff) == Ok::<TreeV, CopyErrV>(TreeV::DirV { entries: t_es }));
    let t = TreeV::DirV { entries: t_es };
    assert(t_es[0].0 == sname);
    assert(t_es[1].0 == eff[0]);
    assert(find_from(t_es, eff[0], 1) == 1);
    assert(find_entry(t_es, eff[0]) == 1);
    lemma_lookup_dirs_to(eff, 1, src);
    assert(lookup(t, eff) == Some(src));
    assert(find_entry(t_es, sname) == 0);
    assert(lookup(t, source) == Some(src));
}

/// A found place names what was searched for.
proof fn lemma_find_from_correct(es: Seq<(Seq<char>, TreeV)>, name: Seq<char>, j: int)
    requires
        find_from(es, name, j) >= 0,
    ensures
        j <= find_from(es, name, j) < es.len(),
        es[find_from(es, name, j)].0 == name,
    decreases es.len() - j,
{
    if 0 <= j < es.len() && es[j].0 != name {
        lemma_find_from_correct(es, name, j + 1);
    }
}

/// Replacing the child of one name leaves the search for any other name
/// unchanged.
proof fn lemma_find_frame_update(
    es: Seq<(Seq<char>, TreeV)>,
    k: int,
    name: Seq<char>,
    node: TreeV,
    m: Seq<char>,
    j: int,
)
    requires
        0 <= k < es.len(),
        es[k].0 == name,
        m != name,
    ensures
        find_from(es.update(k, (name, node)), m, j) == find_from(es, m, j),
    decreases es.len() - j,
{
    if 0 <= j < es.len() {
        lemma_find_frame_update(es, k, name, node, m, j + 1);
    }
}

/// Appending a child of one name leaves the search for any other name
/// unchanged.
proof fn lemma_find_frame_push(
    es: Seq<(Seq<char>, TreeV)>,
    name: Seq<char>,
    node: TreeV,
    m: Seq<char>,
    j: int,
)
    requires
        m != name,
        0 <= j,
    ensures
        find_from(es.push((name, node)), m, j) == find_from(es, m, j),
    decreases es.len() + 1 - j,
{
    if j < es.len() + 1 {
        lemma_find_frame_push(es, name, node, m, j + 1);
    }
}

/// Setting the child of one name leaves the child of any other name
/// exactly as it was.
proof fn lemma_set_entry_frame(
    es: Seq<(Seq<char>, TreeV)>,
    name: Seq<char>,
    node: TreeV,
    m: Seq<char>,
)
    requires
        m != name,
    ensures
        lookup_entry(set_entry(es, name, node), m) == lookup_entry(es, m),
{
    let f = find_entry(es, name);
    if f >= 0 {
        lemma_find_from_correct(es, name, 0);
        lemma_find_frame_update(es, f, name, node, m, 0);
        let g = find_entry(es, m);
        if g >= 0 {
            lemma_find_from_correct(es, m, 0);
        }
    } else {
        lemma_find_frame_push(es, name, node, m, 0);
        let g = find_entry(es, m);
        if g >= 0 {
            lemma_find_from_correct(es, m, 0);
        }
    }
}

/// No destination-side deletion: a destination child whose name no source
/// child carries stands untouched after a successful copy of the children.
pub proof fn lemma_unrelated_entries_untouched(
    src_es: Seq<(Seq<char>, TreeV)>,
    i: int,
    des: Seq<(Seq<char>, TreeV)>,
    at: Seq<Seq<char>>,
    m: Seq<char>,
)
    requires
        0 <= i,
        forall|j: int| i <= j < src_es.len() ==> src_es[j].0 != m,
    ensures
        (match merge_entries(src_es, i, des, at) {
            Ok(nes) => lookup_entry(nes, m) == lookup_entry(des, m),
            Err(_) => true,
        }),
    decreases src_es.len() - i,
{
    if i < src_es.len() {
        match merge_node(src_es[i].1, lookup_entry(des, src_es[i].0), at.push(src_es[i].0)) {
            Ok(nn) => {
                lemma_set_entry_frame(des, src_es[i].0, nn, m);
                lemma_unrelated_entries_untouched(
                    src_es,
                    i + 1,
                    set_entry(des, src_es[i].0, nn),
                    at,
                    m,
                );
            },
            Err(_) => {},
        }
    }
}

/// The mathematical value of an optional borrowed subtree.
pub open spec fn opt_tree_view(d: Option<&FsTree>) -> Option<TreeV> {
    match d {
        Some(t) => Some(tree_view(*t)),
        None => None,
    }
}

/// How a model failure renders as an error of the tool: the failing path,
/// joined with separators, under the matching variant.
pub open spec fn err_matches(e: CopyErrV, re: TemplateError) -> bool {
    match e {
        CopyErrV::MissingV { path } => re matches TemplateError::InvalidTemplate(s) && s@
            == joined(path),
        CopyErrV::TargetV { path } => re matches TemplateError::TargetError(s) && s@ == joined(
            path,
        ),
        CopyErrV::CopyV { path } => re matches TemplateError::CopyError(s) && s@ == joined(path),
    }
}

/// The first `k` segments of a path, joined by separators.
pub open spec fn joined_upto(p: Seq<Seq<char>>, k: int) -> Seq<char>
    decreases k,
{
    if k <= 0 {
        Seq::empty()
    } else if k == 1 {
        p[0]
    } else {
        joined_upto(p, k - 1) + "/"@ + p[k - 1]
    }
}

/// A path's segments joined by separators.
pub open spec fn joined(p: Seq<Seq<char>>) -> Seq<char> {
    joined_upto(p, p.len() as int)
}

/// Joins a path's segments into one string with separators.
fn join_segs_exec(v: &Vec<String>) -> (r: String)
    ensures
        r@ == joined(v.deep_view()),
{
    let mut out = String::new();
    let mut i: usize = 0;
    proof {
        assert(out@ =~= joined_upto(v.deep_view(), 0));
    }
    while i < v.len()
        invariant
            i <= v@.len(),
            v.deep_view().len() == v@.len(),
            out@ == joined_upto(v.deep_view(), i as int),
        decreases v@.len() - i,
    {
        if i > 0 {
            out.append("/");
        }
        out.append(v[i].as_str());
        proof {
            assert(v.deep_view()[i as int] == v@[i as int]@);
            if i == 0 {
                assert(out@ =~= joined_upto(v.deep_view(), 1));
            }
        }
        i = i + 1;
    }
    out
}

/// A path extended by one more segment.
fn push_seg(at: &Vec<String>, s: &String) -> (r: Vec<String>)
    ensures
        r.deep_view() == at.deep_view().push(s@),
{
    let mut out: Vec<String> = Vec::new();
    let mut i: usize = 0;
    while i < at.len()
        invariant
            i <= at@.len(),
            out@.len() == i,
            forall|j: int| 0 <= j < i ==> out@[j]@ == at@[j]@,
        decreases at@.len() - i,
    {
        out.push(at[i].clone());
        i = i + 1;
    }
    out.push(s.clone());
    proof {
        assert(out.deep_view() =~= at.deep_view().push(s@));
    }
    out
}

/// A fresh copy of a file's bytes.
fn clone_bytes(v: &Vec<u8>) -> (r: Vec<u8>)
    ensures
        r@ == v@,
{
    let mut out: Vec<u8> = Vec::new();
    let mut i: usize = 0;
    while i < v.len()
        invariant
            i <= v@.len(),
            out@ == v@.take(i as int),
        decreases v@.len() - i,
    {
        out.push(v[i]);
        proof {
            assert(v@.take(i as int).push(v@[i as int]) =~= v@.take(i as int + 1));
        }
        i = i + 1;
    }
    proof {
        assert(v@.take(v@.len() as int) =~= v@);
    }
    out
}

/// A fresh subtree with the same value.
fn clone_tree(t: &FsTree) -> (r: FsTree)
    ensures
        tree_view(r) == tree_view(*t),
    decreases *t, 1int,
{
    match t {
        FsTree::File { data } => FsTree::File { data: clone_bytes(data) },
        FsTree::Dir { entries } => FsTree::Dir { entries: clone_entries(entries) },
    }
}

/// Fresh children with the same values.
fn clone_entries(es: &Vec<FsEntry>) -> (r: Vec<FsEntry>)
    ensures
        r@.len() == es@.len(),
        entries_view(r, r@.len() as int) == entries_view(*es, es@.len() as int),
    decreases *es, 0int,
{
    let mut out: Vec<FsEntry> = Vec::new();
    let mut i: usize = 0;
    while i < es.len()
        invariant
            i <= es@.len(),
            out@.len() == i,
            forall|j: int|
                0 <= j < i ==> out@[j].name@ == es@[j].name@ && tree_view(out@[j].node)
                    == tree_view(es@[j].node),
        decreases es@.len() - i,
    {
        let e = &es[i];
        out.push(FsEntry { name: e.name.clone(), node: clone_tree(&e.node) });
        i = i + 1;
    }
    proof {
        lemma_entries_view(out, out@.len() as int);
        lemma_entries_view(*es, es@.len() as int);
        assert(entries_view(out, out@.len() as int) =~= entries_view(*es, es@.len() as int));
    }
    out
}

/// The place of the first child with the given name, if any.
fn find_entry_exec(es: &Vec<FsEntry>, name: &str) -> (r: Option<usize>)
    ensures
        (match r {
            Some(k) => k < es@.len() && find_entry(entries_view(*es, es@.len() as int), name@)
                == k as int,
            None => find_entry(entries_view(*es, es@.len() as int), name@) == -1,
        }),
{
    let ghost v = entries_view(*es, es@.len() as int);
    proof {
        lemma_entries_view(*es, es@.len() as int);
    }
    let mut j: usize = 0;
    while j < es.len()
        invariant
            j <= es@.len(),
            v == entries_view(*es, es@.len() as int),
            v.len() == es@.len(),
            forall|t: int| 0 <= t < es@.len() ==> v[t] == (es@[t].name@, tree_view(es@[t].node)),
            find_from(v, name@, 0) == find_from(v, name@, j as int),
        decreases es@.len() - j,
    {
        if str_eq(es[j].name.as_str(), name) {
            proof {
                assert(v[j as int].0 == name@);
                assert(find_from(v, name@, j as int) == j as int);
            }
            return Some(j);
        }
        proof {
            assert(v[j as int].0 != name@);
        }
        j = j + 1;
    }
    proof {
        assert(find_from(v, name@, j as int) == -1);
    }
    None
}

/// The children with the first child of the given name replaced, or with a
/// new child appended when none had the name.
fn set_entry_exec(des: Vec<FsEntry>, name: &String, node: FsTree) -> (r: Vec<FsEntry>)
    ensures
        entries_view(r, r@.len() as int) == set_entry(
            entries_view(des, des@.len() as int),
            name@,
            tree_view(node),
        ),
{
    proof {
        lemma_entries_view(des, des@.len() as int);
    }
    let idx = find_entry_exec(&des, name.as_str());
    let mut d = des;
    match idx {
        Some(k) => {
            d.set(k, FsEntry { name: name.clone(), node });
            proof {
                lemma_entries_view(d, d@.len() as int);
                assert(entries_view(d, d@.len() as int) =~= set_entry(
                    entries_view(des, des@.len() as int),
                    name@,
                    tree_view(node),
                ));
            }
        },
        None => {
            d.push(FsEntry { name: name.clone(), node });
            proof {
                lemma_entries_view(d, d@.len() as int);
                assert(entries_view(d, d@.len() as int) =~= set_entry(
                    entries_view(des, des@.len() as int),
                    name@,
                    tree_view(node),
                ));
            }
        },
    }
    d
}

/// Copies one source node onto what the destination holds at the same
/// path, as [`merge_node`] describes.
fn merge_node_exec(src: &FsTree, dest: Option<&FsTree>, at: &Vec<String>) -> (r: Result<
    FsTree,
    TemplateError,
>)
    ensures
        (match merge_node(tree_view(*src), opt_tree_view(dest), at.deep_view()) {
            Ok(t) => (r matches Ok(rt) && tree_view(rt) == t),
            Err(e) => (r matches Err(re) && err_matches(e, re)),
        }),
    decreases *src, 1int,
{
    match src {
        FsTree::File { data } => match dest {
            Some(d) => match d {
                FsTree::Dir { .. } => Err(TemplateError::CopyError(join_segs_exec(at))),
                FsTree::File { .. } => Ok(FsTree::File { data: clone_bytes(data) }),
            },
            None => Ok(FsTree::File { data: clone_bytes(data) }),
        },
        FsTree::Dir { entries } => {
            let des: Vec<FsEntry> = match dest {
                Some(d) => match d {
                    FsTree::File { .. } => {
                        return Err(TemplateError::TargetError(join_segs_exec(at)));
                    },
                    FsTree::Dir { entries: des0 } => clone_entries(des0),
                },
                None => Vec::new(),
            };
            proof {
                assert(entries_view(des, des@.len() as int).len() == des@.len()) by {
                    lemma_entries_view(des, des@.len() as int);
                }
                if dest is None {
                    assert(entries_view(des, 0) =~= Seq::<(Seq<char>, TreeV)>::empty());
                }
            }
            match merge_entries_exec(entries, 0, des, at) {
                Ok(nes) => Ok(FsTree::Dir { entries: nes }),
                Err(e) => Err(e),
            }
        },
    }
}

/// Copies the source children from place `i` on into the destination
/// children, as [`merge_entries`] describes.
fn merge_entries_exec(src_es: &Vec<FsEntry>, i: usize, des: Vec<FsEntry>, at: &Vec<String>) -> (r:
    Result<Vec<FsEntry>, TemplateError>)
    requires
        i <= src_es@.len(),
    ensures
        (match merge_entries(
            entries_view(*src_es, src_es@.len() as int),
            i as int,
            entries_view(des, des@.len() as int),
            at.deep_view(),
        ) {
            Ok(nes) => (r matches Ok(rv) && entries_view(rv, rv@.len() as int) == nes),
            Err(e) => (r matches Err(re) && err_matches(e, re)),
        }),
    decreases *src_es, 0int, src_es@.len() - i,
{
    let ghost sv = entries_view(*src_es, src_es@.len() as int);
    proof {
        lemma_entries_view(*src_es, src_es@.len() as int);
    }
    if i >= src_es.len() {
        return Ok(des);
    }
    let e = &src_es[i];
    let at2 = push_seg(at, &e.name);
    let idx = find_entry_exec(&des, e.name.as_str());
    let ghost dv = entries_view(des, des@.len() as int);
    proof {
        lemma_entries_view(des, des@.len() as int);
        assert(sv[i as int] == (e.name@, tree_view(e.node)));
    }
    let merged = match idx {
        Some(k) => {
            proof {
                assert(lookup_entry(dv, e.name@) == Some(tree_view(des@[k as int].node)));
            }
            merge_node_exec(&e.node, Some(&des[k].node), &at2)
        },
        None => {
            proof {
                assert(lookup_entry(dv, e.name@) is None);
            }
            merge_node_exec(&e.node, None, &at2)
        },
    };
    match merged {
        Ok(nn) => {
            let des2 = set_entry_exec(des, &e.name, nn);
            merge_entries_exec(src_es, i + 1, des2, at)
        },
        Err(er) => Err(er),
    }
}

/// Places the source children at the path `rel` (from place `i` on) below
/// a node, as [`place`] describes.
fn place_exec(node: &FsTree, rel: &Vec<String>, i: usize, at: &Vec<String>, src_es: &Vec<
    FsEntry,
>) -> (r: Result<FsTree, TemplateError>)
    requires
        i <= rel@.len(),
    ensures
        (match place(
            tree_view(*node),
            rel.deep_view(),
            i as int,
            at.deep_view(),
            entries_view(*src_es, src_es@.len() as int),
        ) {
            Ok(t) => (r matches Ok(rt) && tree_view(rt) == t),
            Err(e) => (r matches Err(re) && err_matches(e, re)),
        }),
    decreases rel@.len() - i,
{
    match node {
        FsTree::File { .. } => Err(TemplateError::TargetError(join_segs_exec(at))),
        FsTree::Dir { entries: des } => {
            proof {
                lemma_entries_view(*des, des@.len() as int);
            }
            if i >= rel.len() {
                let d2 = clone_entries(des);
                match merge_entries_exec(src_es, 0, d2, at) {
                    Ok(nes) => Ok(FsTree::Dir { entries: nes }),
                    Err(e) => Err(e),
                }
            } else {
                let seg = &rel[i];
                proof {
                    assert(rel.deep_view()[i as int] == seg@);
                }
                let at2 = push_seg(at, seg);
                let idx = find_entry_exec(des, seg.as_str());
                let sub = match idx {
                    Some(k) => {
                        proof {
                            assert(lookup_entry(entries_view(*des, des@.len() as int), seg@)
                                == Some(tree_view(des@[k as int].node)));
                        }
                        place_exec(&des[k].node, rel, i + 1, &at2, src_es)
                    },
                    None => {
                        let fresh = FsTree::Dir { entries: Vec::new() };
                        proof {
                            assert(lookup_entry(entries_view(*des, des@.len() as int), seg@)
                                is None);
                            assert(tree_view(fresh) == TreeV::DirV {
                                entries: Seq::<(Seq<char>, TreeV)>::empty(),
                            }) by {
                                assert(entries_view(fresh->Dir_entries, 0) =~= Seq::<
                                    (Seq<char>, TreeV),
                                >::empty());
                            }
                        }
                        place_exec(&fresh, rel, i + 1, &at2, src_es)
                    },
                };
                match sub {
                    Ok(nc) => {
                        let d2 = clone_entries(des);
                        let d3 = set_entry_exec(d2, seg, nc);
                        Ok(FsTree::Dir { entries: d3 })
                    },
                    Err(e) => Err(e),
                }
            }
        },
    }
}

/// The node at the given path below a node, if any.
fn lookup_path_exec<'a>(root: &'a FsTree, path: &Vec<String>) -> (r: Option<&'a FsTree>)
    ensures
        (match lookup(tree_view(*root), path.deep_view()) {
            Some(t) => (r matches Some(n) && tree_view(*n) == t),
            None => r is None,
        }),
{
    let mut cur: &'a FsTree = root;
    let mut i: usize = 0;
    loop
        invariant
            i <= path@.len(),
            path.deep_view().len() == path@.len(),
            lookup_path(tree_view(*root), path.deep_view(), 0) == lookup_path(
                tree_view(*cur),
                path.deep_view(),
                i as int,
            ),
        decreases path@.len() - i,
    {
        if i == path.len() {
            return Some(cur);
        }
        match cur {
            FsTree::File { .. } => {
                return None;
            },
            FsTree::Dir { entries: des } => {
                proof {
                    lemma_entries_view(*des, des@.len() as int);
                    assert(path.deep_view()[i as int] == path@[i as int]@);
                }
                match find_entry_exec(des, path[i].as_str()) {
                    Some(k) => {
                        proof {
                            assert(lookup_entry(
                                entries_view(*des, des@.len() as int),
                                path@[i as int]@,
                            ) == Some(tree_view(des@[k as int].node)));
                        }
                        cur = &des[k].node;
                        i = i + 1;
                    },
                    None => {
                        return None;
                    },
                }
            },
        }
    }
}

/// Duplicates the source directory tree into the destination: the source
/// path must name a directory of the filesystem, its children land at the
/// rename path when one is given and at the destination path otherwise,
/// intermediate directories are created on demand, same-named files are
/// overwritten, and unrelated destination entries stay in place. On
/// failure the filesystem value is returned unchanged to the caller's
/// hands — an error carries no partial tree.
pub fn copy_template(
    root: &FsTree,
    source: &Vec<String>,
    dest: &Vec<String>,
    rename: Option<&Vec<String>>,
) -> (r: Result<FsTree, TemplateError>)
    ensures
        (match spec_copy(
            tree_view(*root),
            source.deep_view(),
            match rename {
                Some(rn) => rn.deep_view(),
                None => dest.deep_view(),
            },
        ) {
            Ok(t) => (r matches Ok(rt) && tree_view(rt) == t),
            Err(e) => (r matches Err(re) && err_matches(e, re)),
        }),
{
    let found = lookup_path_exec(root, source);
    match found {
        Some(node) => match node {
            FsTree::Dir { entries: src_es } => {
                let eff: &Vec<String> = match rename {
                    Some(rn) => rn,
                    None => dest,
                };
                let empty_at: Vec<String> = Vec::new();
                proof {
                    assert(empty_at.deep_view() =~= Seq::<Seq<char>>::empty());
                }
                place_exec(root, eff, 0, &empty_at, src_es)
            },
            FsTree::File { .. } => Err(TemplateError::InvalidTemplate(join_segs_exec(source))),
        },
        None => Err(TemplateError::InvalidTemplate(join_segs_exec(source))),
    }
}

} // verus!
