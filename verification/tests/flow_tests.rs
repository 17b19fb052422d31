use tmpl_cli::catalog::{
    category_names, classify_json_source, format_choices, item_target, plan_category,
    CatalogCategory, CatalogItem, CategoryPlan, SourceKind,
};
use tmpl_cli::errors::TemplateError;
use tmpl_cli::git::{clone_args, clone_outcome, direct_clone_args};
use tmpl_cli::materialize::{copy_template, FsEntry, FsTree};
use tmpl_cli::template::{get_template_list, select_template, template_at, DirEntry};

fn entry(name: &str, is_dir: bool) -> DirEntry {
    DirEntry { name: name.to_string(), is_dir }
}

fn file(data: &[u8]) -> FsTree {
    FsTree::File { data: data.to_vec() }
}

fn dir(entries: Vec<(&str, FsTree)>) -> FsTree {
    FsTree::Dir {
        entries: entries
            .into_iter()
            .map(|(name, node)| FsEntry { name: name.to_string(), node })
            .collect(),
    }
}

fn child<'a>(t: &'a FsTree, name: &str) -> Option<&'a FsTree> {
    match t {
        FsTree::Dir { entries } => entries.iter().find(|e| e.name == name).map(|e| &e.node),
        FsTree::File { .. } => None,
    }
}

fn names(vs: &[&str]) -> Vec<String> {
    vs.iter().map(|s| s.to_string()).collect()
}

#[test]
fn enumeration_excludes_metadata_and_files() {
    let listing = vec![
        entry("A", true),
        entry("B", true),
        entry(".git", true),
        entry("notes.txt", false),
    ];
    let templates = get_template_list(&listing).unwrap();
    assert_eq!(templates, names(&["A", "B"]));
}

#[test]
fn enumeration_of_bare_workspace_fails() {
    let empty: Vec<DirEntry> = Vec::new();
    assert_eq!(get_template_list(&empty).unwrap_err(), TemplateError::TemplateNotFound);
    let only_metadata = vec![entry(".git", true), entry("README", false)];
    assert_eq!(
        get_template_list(&only_metadata).unwrap_err(),
        TemplateError::TemplateNotFound
    );
}

#[test]
fn selection_takes_exact_match() {
    let templates = names(&["A", "B", "C"]);
    let chosen = select_template(&"B".to_string(), &templates).unwrap();
    assert_eq!(chosen, "B");
}

#[test]
fn selection_rejects_unknown_name() {
    let templates = names(&["A", "B", "C"]);
    let e = select_template(&"Z".to_string(), &templates).unwrap_err();
    assert_eq!(e, TemplateError::InvalidTemplate("Z".to_string()));
    assert_eq!(e.message(), "Template directory not found: Z");
}

#[test]
fn selection_is_case_sensitive() {
    let templates = names(&["Web", "api"]);
    assert!(select_template(&"web".to_string(), &templates).is_err());
}

#[test]
fn selection_by_prompt_answer() {
    let templates = names(&["A", "B", "C"]);
    assert_eq!(template_at(&templates, 0), "A");
    assert_eq!(template_at(&templates, 2), "C");
}

#[test]
fn copy_reproduces_nested_tree() {
    let source_tree = dir(vec![
        ("a.txt", file(b"hello")),
        (
            "sub",
            dir(vec![("b.bin", file(&[1, 2, 3])), ("deeper", dir(vec![("c", file(b""))]))]),
        ),
    ]);
    let root = dir(vec![("tpl", source_tree)]);
    let result = copy_template(&root, &names(&["tpl"]), &names(&["out", "proj"]), None).unwrap();
    let placed = child(child(&result, "out").unwrap(), "proj").unwrap();
    assert_eq!(placed, child(&root, "tpl").unwrap());
}

#[test]
fn copy_with_rename_bypasses_destination() {
    let root = dir(vec![("tpl", dir(vec![("a", file(b"x"))]))]);
    let renamed = names(&["renamed"]);
    let result =
        copy_template(&root, &names(&["tpl"]), &names(&["dest"]), Some(&renamed)).unwrap();
    assert_eq!(child(&result, "renamed"), child(&root, "tpl"));
    assert!(child(&result, "dest").is_none());
}

#[test]
fn copy_of_missing_source_fails_without_mutation() {
    let root = dir(vec![("tpl", dir(vec![]))]);
    let before = dir(vec![("tpl", dir(vec![]))]);
    let e = copy_template(&root, &names(&["nosuch"]), &names(&["dest"]), None).unwrap_err();
    assert_eq!(e, TemplateError::InvalidTemplate("nosuch".to_string()));
    assert_eq!(root, before);
}

#[test]
fn copy_of_file_source_fails() {
    let root = dir(vec![("tpl", file(b"not a dir"))]);
    let e = copy_template(&root, &names(&["tpl"]), &names(&["dest"]), None).unwrap_err();
    assert_eq!(e, TemplateError::InvalidTemplate("tpl".to_string()));
}

#[test]
fn copy_overwrites_files_and_keeps_unrelated_entries() {
    let root = dir(vec![
        ("tpl", dir(vec![("a.txt", file(b"new"))])),
        ("dest", dir(vec![("a.txt", file(b"old")), ("keep.txt", file(b"kept"))])),
    ]);
    let result = copy_template(&root, &names(&["tpl"]), &names(&["dest"]), None).unwrap();
    let dest = child(&result, "dest").unwrap();
    assert_eq!(child(dest, "a.txt"), Some(&file(b"new")));
    assert_eq!(child(dest, "keep.txt"), Some(&file(b"kept")));
}

#[test]
fn copy_conflicts_surface_as_the_right_errors() {
    let dir_over_file = dir(vec![
        ("tpl", dir(vec![("x", dir(vec![]))])),
        ("dest", dir(vec![("x", file(b""))])),
    ]);
    let e = copy_template(&dir_over_file, &names(&["tpl"]), &names(&["dest"]), None).unwrap_err();
    assert_eq!(e, TemplateError::TargetError("dest/x".to_string()));

    let file_over_dir = dir(vec![
        ("tpl", dir(vec![("x", file(b""))])),
        ("dest", dir(vec![("x", dir(vec![]))])),
    ]);
    let e = copy_template(&file_over_dir, &names(&["tpl"]), &names(&["dest"]), None).unwrap_err();
    assert_eq!(e, TemplateError::CopyError("dest/x".to_string()));

    let file_in_the_way = dir(vec![("tpl", dir(vec![])), ("dest", file(b""))]);
    let e =
        copy_template(&file_in_the_way, &names(&["tpl"]), &names(&["dest", "d2"]), None).unwrap_err();
    assert_eq!(e, TemplateError::TargetError("dest".to_string()));
}

#[test]
fn copy_creates_intermediate_directories() {
    let root = dir(vec![("tpl", dir(vec![("a", file(b"x"))]))]);
    let result =
        copy_template(&root, &names(&["tpl"]), &names(&["a", "b", "c"]), None).unwrap();
    let placed = child(child(child(&result, "a").unwrap(), "b").unwrap(), "c").unwrap();
    assert_eq!(placed, child(&root, "tpl").unwrap());
}

#[test]
fn copy_error_paths_are_joined_with_separators() {
    let root = dir(vec![
        ("tpl", dir(vec![("sub", dir(vec![("x", dir(vec![]))]))])),
        ("dest", dir(vec![("sub", dir(vec![("x", file(b""))]))])),
    ]);
    let e = copy_template(&root, &names(&["tpl"]), &names(&["dest"]), None).unwrap_err();
    assert_eq!(e, TemplateError::TargetError("dest/sub/x".to_string()));
    assert_eq!(e.message(), "Target directory creation failed: dest/sub/x");
}

#[test]
fn copy_into_existing_empty_directory() {
    let root = dir(vec![
        ("tpl", dir(vec![("a", file(b"x"))])),
        ("dest", dir(vec![])),
    ]);
    let result = copy_template(&root, &names(&["tpl"]), &names(&["dest"]), None).unwrap();
    assert_eq!(child(&result, "dest"), child(&root, "tpl"));
}

#[test]
fn clone_arguments_are_exact() {
    assert_eq!(
        clone_args("https://example.com/r.git", "main", "/tmp/ws/cloned_repo"),
        names(&["clone", "--branch", "main", "https://example.com/r.git", "/tmp/ws/cloned_repo"])
    );
    assert_eq!(
        direct_clone_args("https://example.com/r.git", "./proj"),
        names(&["clone", "https://example.com/r.git", "./proj"])
    );
}

#[test]
fn clone_outcome_carries_diagnostics_verbatim() {
    assert!(clone_outcome(true, "").is_ok());
    let e = clone_outcome(false, "fatal: repository not found").unwrap_err();
    assert_eq!(e, TemplateError::GitCloneError("fatal: repository not found".to_string()));
    assert_eq!(e.message(), "Git clone error: fatal: repository not found");
}

#[test]
fn source_classification() {
    assert_eq!(classify_json_source(None), SourceKind::LocalDefault);
    let https = "https://example.com/data.json".to_string();
    assert_eq!(classify_json_source(Some(&https)), SourceKind::Remote);
    let http = "http://example.com/data.json".to_string();
    assert_eq!(classify_json_source(Some(&http)), SourceKind::Remote);
    let other = "ftp://example.com/data.json".to_string();
    assert_eq!(classify_json_source(Some(&other)), SourceKind::Invalid);
    let path = "./data.json".to_string();
    assert_eq!(classify_json_source(Some(&path)), SourceKind::Invalid);
}

fn item(name: &str, desc: &str, link: &str) -> CatalogItem {
    CatalogItem { name: name.to_string(), desc: desc.to_string(), link: link.to_string() }
}

#[test]
fn empty_category_ends_without_acquisition() {
    let no_items: Vec<CatalogItem> = Vec::new();
    assert_eq!(plan_category(&no_items), CategoryPlan::NoItems);
}

#[test]
fn category_with_items_goes_to_the_prompt() {
    let items = vec![item("web", "a site", "u1"), item("cli", "a tool", "u2")];
    match plan_category(&items) {
        CategoryPlan::Choose(lines) => {
            assert_eq!(lines, names(&["web a site", "cli a tool"]))
        },
        CategoryPlan::NoItems => panic!("items were offered"),
    }
    assert_eq!(format_choices(&items), names(&["web a site", "cli a tool"]));
}

#[test]
fn category_names_keep_index_order() {
    let index = vec![
        CatalogCategory { name: "frontend".to_string(), items: Vec::new() },
        CatalogCategory { name: "backend".to_string(), items: Vec::new() },
    ];
    assert_eq!(category_names(&index), names(&["frontend", "backend"]));
}

#[test]
fn chosen_item_hands_link_and_destination() {
    let it = item("web", "a site", "https://example.com/web.git");
    let (link, target) = item_target(&it, "./", "");
    assert_eq!(link, "https://example.com/web.git");
    assert_eq!(target, "./web");
    let (_, renamed) = item_target(&it, "./", "mine");
    assert_eq!(renamed, "./mine");
}
