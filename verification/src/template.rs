//! The template catalog: which immediate children of an acquired workspace
//! count as templates, and how a single one is selected.

use vstd::prelude::*;

use crate::errors::TemplateError;
use crate::jsontext::str_eq;

verus! {

/// One immediate child of the acquired workspace, as the shell reports it:
/// its name and whether it is a directory.
pub struct DirEntry {
    pub name: String,
    pub is_dir: bool,
}

/// Whether one child qualifies as a template: a directory not named after
/// the version-control metadata folder.
pub open spec fn qualifies(e: DirEntry) -> bool {
    e.is_dir && e.name@ != ".git"@
}

/// The names contributed by one child: its own name if it qualifies,
/// nothing otherwise.
pub open spec fn name_of(e: DirEntry) -> Seq<Seq<char>> {
    if qualifies(e) {
        seq![e.name@]
    } else {
        Seq::empty()
    }
}

/// The template names among the first `i` children, in listing order.
pub open spec fn template_names_upto(entries: Seq<DirEntry>, i: int) -> Seq<Seq<char>>
    decreases i,
{
    if i <= 0 {
        Seq::empty()
    } else {
        template_names_upto(entries, i - 1) + name_of(entries[i - 1])
    }
}

/// The template names of a workspace listing: the names of its qualifying
/// children, in listing order.
pub open spec fn template_names(entries: Seq<DirEntry>) -> Seq<Seq<char>> {
    template_names_upto(entries, entries.len() as int)
}

/// Catalog exclusion, both ways: the version-control metadata name never
/// appears among the template names, and every directory child under any
/// other name does.
pub proof fn lemma_catalog_exclusion(entries: Seq<DirEntry>)
    ensures
        forall|j: int|
            0 <= j < template_names(entries).len() ==> template_names(entries)[j] != ".git"@,
        forall|i: int|
            0 <= i < entries.len() && entries[i].is_dir && entries[i].name@ != ".git"@
                ==> template_names(entries).contains(entries[i].name@),
{
    lemma_template_names_upto(entries, entries.len() as int);
}

/// Catalog exclusion, stated for every prefix of the listing.
proof fn lemma_template_names_upto(entries: Seq<DirEntry>, k: int)
    requires
        k <= entries.len(),
    ensures
        forall|j: int|
            0 <= j < template_names_upto(entries, k).len() ==> template_names_upto(entries, k)[j]
                != ".git"@,
        forall|i: int|
            0 <= i < k && entries[i].is_dir && entries[i].name@ != ".git"@
                ==> template_names_upto(entries, k).contains(entries[i].name@),
    decreases k,
{
    if k > 0 {
        lemma_template_names_upto(entries, k - 1);
        let prev = template_names_upto(entries, k - 1);
        let cur = template_names_upto(entries, k);
        assert forall|i: int|
            0 <= i < k && entries[i].is_dir && entries[i].name@ != ".git"@ implies cur.contains(
            entries[i].name@,
        ) by {
            if i < k - 1 {
                let w = choose|w: int| 0 <= w < prev.len() && prev[w] == entries[i].name@;
                assert(cur[w] == entries[i].name@);
            } else {
                assert(cur[prev.len() as int] == entries[i].name@);
            }
        }
    }
}

/// Enumerates the templates of an acquired workspace: the names of its
/// directory children, the version-control metadata folder excluded, in
/// listing order. A workspace without a single qualifying child is a
/// terminal condition: [`TemplateError::TemplateNotFound`].
pub fn get_template_list(entries: &Vec<DirEntry>) -> (r: Result<Vec<String>, TemplateError>)
    ensures
        template_names(entries@).len() > 0 ==> (r matches Ok(ts) && ts.deep_view()
            == template_names(entries@)),
        template_names(entries@).len() == 0 ==> r == Err::<Vec<String>, TemplateError>(
            TemplateError::TemplateNotFound,
        ),
{
    let mut out: Vec<String> = Vec::new();
    let mut i: usize = 0;
    proof {
        assert(out.deep_view() =~= template_names_upto(entries@, 0));
    }
    while i < entries.len()
        invariant
            i <= entries@.len(),
            out.deep_view() == template_names_upto(entries@, i as int),
        decreases entries@.len() - i,
    {
        let e = &entries[i];
        if e.is_dir && !str_eq(e.name.as_str(), ".git") {
            out.push(e.name.clone());
            proof {
                assert(out.deep_view() =~= template_names_upto(entries@, i as int + 1));
            }
        } else {
            proof {
                assert(name_of(entries@[i as int]) =~= Seq::<Seq<char>>::empty());
                assert(out.deep_view() =~= template_names_upto(entries@, i as int + 1));
            }
        }
        i = i + 1;
    }
    if out.len() == 0 {
        proof {
            assert(template_names(entries@).len() == 0);
        }
        Err(TemplateError::TemplateNotFound)
    } else {
        Ok(out)
    }
}

/// Resolves an explicitly requested template against the enumerated names:
/// an exact, case-sensitive match is returned unchanged; any other request
/// fails with [`TemplateError::InvalidTemplate`] carrying the request.
pub fn select_template(requested: &String, templates: &Vec<String>) -> (r: Result<
    String,
    TemplateError,
>)
    ensures
        templates.deep_view().contains(requested@) ==> (r matches Ok(s) && s@ == requested@),
        !templates.deep_view().contains(requested@) ==> (r matches Err(e) && e matches
            TemplateError::InvalidTemplate(n) && n@ == requested@),
{
    let mut i: usize = 0;
    while i < templates.len()
        invariant
            i <= templates@.len(),
            forall|j: int| 0 <= j < i ==> templates.deep_view()[j] != requested@,
        decreases templates@.len() - i,
    {
        if str_eq(templates[i].as_str(), requested.as_str()) {
            proof {
                assert(templates.deep_view()[i as int] == requested@);
            }
            return Ok(requested.clone());
        }
        i = i + 1;
    }
    proof {
        assert(!templates.deep_view().contains(requested@));
    }
    Err(TemplateError::InvalidTemplate(requested.clone()))
}

/// The template at a chosen place in the enumerated names: what an external
/// single-choice prompt's answer resolves to.
pub fn template_at(templates: &Vec<String>, choice: usize) -> (r: String)
    requires
        choice < templates@.len(),
    ensures
        r@ == templates.deep_view()[choice as int],
{
    templates[choice].clone()
}

} // verus!
