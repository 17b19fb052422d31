//! The catalog-index flow: a hierarchical index of categories, each an
//! ordered list of items with a name, a description and a repository link.
//! The index is read-only input; this module holds every decision of the
//! flow — where the index comes from, what the prompts offer, and what the
//! chosen item hands to acquisition.

use vstd::prelude::*;

use crate::jsontext::{match_prefix, starts_with};
use crate::paths::{get_target_path, spec_join};

verus! {

/// One entry of the catalog: a project with its repository link.
#[derive(Debug, PartialEq, Eq)]
pub struct CatalogItem {
    pub name: String,
    pub desc: String,
    pub link: String,
}

/// One category of the catalog, with its ordered items.
#[derive(Debug, PartialEq, Eq)]
pub struct CatalogCategory {
    pub name: String,
    pub items: Vec<CatalogItem>,
}

/// Where the catalog document comes from: a remote URL, the fixed local
/// file when no source is given, or nothing usable.
#[derive(Debug, PartialEq, Eq)]
pub enum SourceKind {
    Remote,
    LocalDefault,
    Invalid,
}

/// Classifies the index source: an explicit source must be a recognized
/// URL; no source at all means the fixed local file.
pub fn classify_json_source(source: Option<&String>) -> (r: SourceKind)
    ensures
        source is None ==> r == SourceKind::LocalDefault,
        (match source {
            Some(s) => {
                if starts_with(s@, "http://"@) || starts_with(s@, "https://"@) {
                    r == SourceKind::Remote
                } else {
                    r == SourceKind::Invalid
                }
            },
            None => true,
        }),
{
    match source {
        None => SourceKind::LocalDefault,
        Some(s) => {
            proof {
                assert(s@.skip(0) =~= s@);
            }
            if match_prefix(s.as_str(), 0, "http://") || match_prefix(s.as_str(), 0, "https://") {
                SourceKind::Remote
            } else {
                SourceKind::Invalid
            }
        },
    }
}

/// The category names, in index order: what the category prompt offers.
pub fn category_names(index: &Vec<CatalogCategory>) -> (r: Vec<String>)
    ensures
        r@.len() == index@.len(),
        forall|i: int| 0 <= i < index@.len() ==> r@[i]@ == index@[i].name@,
{
    let mut out: Vec<String> = Vec::new();
    let mut i: usize = 0;
    while i < index.len()
        invariant
            i <= index@.len(),
            out@.len() == i,
            forall|j: int| 0 <= j < i ==> out@[j]@ == index@[j].name@,
        decreases index@.len() - i,
    {
        out.push(index[i].name.clone());
        i = i + 1;
    }
    out
}

/// One item as the item prompt displays it: its name, a space, its
/// description.
pub open spec fn choice_line(item: CatalogItem) -> Seq<char> {
    item.name@ + " "@ + item.desc@
}

/// The display lines for a category's items, in item order.
pub fn format_choices(items: &Vec<CatalogItem>) -> (r: Vec<String>)
    ensures
        r@.len() == items@.len(),
        forall|i: int| 0 <= i < items@.len() ==> r@[i]@ == choice_line(items@[i]),
{
    let mut out: Vec<String> = Vec::new();
    let mut i: usize = 0;
    while i < items.len()
        invariant
            i <= items@.len(),
            out@.len() == i,
            forall|j: int| 0 <= j < i ==> out@[j]@ == choice_line(items@[j]),
        decreases items@.len() - i,
    {
        let line = items[i].name.clone().concat(" ").concat(items[i].desc.as_str());
        proof {
            assert(line@ =~= choice_line(items@[i as int]));
        }
        out.push(line);
        i = i + 1;
    }
    out
}

/// What follows the category choice: with no items, the flow reports so
/// and ends without invoking acquisition; otherwise the item prompt is put
/// up over the display lines.
#[derive(Debug, PartialEq, Eq)]
pub enum CategoryPlan {
    NoItems,
    Choose(Vec<String>),
}

/// Decides the step after a category is chosen: an empty item list ends
/// the flow with a report and without acquisition; a non-empty one goes to
/// the item prompt, first entry as default.
pub fn plan_category(items: &Vec<CatalogItem>) -> (r: CategoryPlan)
    ensures
        items@.len() == 0 ==> r == CategoryPlan::NoItems,
        items@.len() > 0 ==> (r matches CategoryPlan::Choose(cs) && cs@.len() == items@.len()
            && forall|i: int| 0 <= i < items@.len() ==> cs@[i]@ == choice_line(items@[i])),
{
    if items.len() == 0 {
        CategoryPlan::NoItems
    } else {
        CategoryPlan::Choose(format_choices(items))
    }
}

/// What the chosen item hands to acquisition: its repository link, and the
/// destination computed from the resolved target directory, the item's
/// name as the default folder, and the folder name the user typed.
pub fn item_target(item: &CatalogItem, target_dir: &str, folder_input: &str) -> (r: (
    String,
    String,
))
    ensures
        r.0@ == item.link@,
        folder_input@.len() == 0 ==> r.1@ == spec_join(target_dir@, item.name@),
        folder_input@.len() > 0 ==> r.1@ == spec_join(target_dir@, folder_input@),
{
    let path = get_target_path(target_dir, item.name.as_str(), folder_input);
    (item.link.clone(), path)
}

} // verus!
