use tmpl_cli::cache::Cache;
use tmpl_cli::codec::{decode_cache, encode_cache};
use tmpl_cli::errors::TemplateError;
use tmpl_cli::paths::{config_file_path, get_target_path, join_path};
use tmpl_cli::resolve::{get_repo_url, resolve_order_info};

fn cache_with(
    repo: Option<&str>,
    branch: Option<&str>,
    target_dir: Option<&str>,
    template: Option<&str>,
) -> Cache {
    Cache {
        repo: repo.map(|s| s.to_string()),
        branch: branch.map(|s| s.to_string()),
        target_dir: target_dir.map(|s| s.to_string()),
        template: template.map(|s| s.to_string()),
    }
}

fn assert_cache_eq(a: &Cache, b: &Cache) {
    assert_eq!(a.repo, b.repo);
    assert_eq!(a.branch, b.branch);
    assert_eq!(a.target_dir, b.target_dir);
    assert_eq!(a.template, b.template);
}

#[test]
fn resolve_override_beats_cache() {
    let cache = cache_with(None, Some("dev"), Some("/tmp/old"), None);
    let branch_override = "feature".to_string();
    let target_override = "/tmp/new".to_string();
    let (info, updated) =
        resolve_order_info(Some(&branch_override), Some(&target_override), &cache);
    assert_eq!(info.branch, "feature");
    assert_eq!(info.target_dir, "/tmp/new");
    assert_eq!(updated.branch.as_deref(), Some("feature"));
    assert_eq!(updated.target_dir.as_deref(), Some("/tmp/new"));
}

#[test]
fn resolve_cached_when_no_override() {
    let cache = cache_with(None, Some("dev"), Some("/tmp/old"), None);
    let (info, updated) = resolve_order_info(None, None, &cache);
    assert_eq!(info.branch, "dev");
    assert_eq!(info.target_dir, "/tmp/old");
    assert_eq!(updated.branch.as_deref(), Some("dev"));
    assert_eq!(updated.target_dir.as_deref(), Some("/tmp/old"));
}

#[test]
fn resolve_defaults_when_nothing_known() {
    let cache = Cache::empty();
    let (info, updated) = resolve_order_info(None, None, &cache);
    assert_eq!(info.branch, "main");
    assert_eq!(info.target_dir, "./");
    assert_eq!(updated.branch.as_deref(), Some("main"));
    assert_eq!(updated.target_dir.as_deref(), Some("./"));
}

#[test]
fn resolve_keeps_unrelated_fields() {
    let cache = cache_with(Some("url"), None, None, Some("tpl"));
    let (_, updated) = resolve_order_info(None, None, &cache);
    assert_eq!(updated.repo.as_deref(), Some("url"));
    assert_eq!(updated.template.as_deref(), Some("tpl"));
}

#[test]
fn repo_url_override_is_remembered() {
    let cache = cache_with(Some("old-url"), Some("dev"), None, None);
    let override_url = "new-url".to_string();
    let r = get_repo_url(Some(&override_url), &cache).unwrap();
    assert_eq!(r.0, "new-url");
    assert_eq!(r.1.repo.as_deref(), Some("new-url"));
    assert_eq!(r.1.branch.as_deref(), Some("dev"));
}

#[test]
fn repo_url_cached_leaves_cache_alone() {
    let cache = cache_with(Some("old-url"), None, None, None);
    let r = get_repo_url(None, &cache).unwrap();
    assert_eq!(r.0, "old-url");
    assert_cache_eq(&r.1, &cache);
}

#[test]
fn repo_url_missing_fails() {
    let cache = Cache::empty();
    let e = get_repo_url(None, &cache).unwrap_err();
    assert_eq!(e, TemplateError::MissingRepoUrl);
    assert_eq!(
        e.message(),
        "No repository URL provided and no cache found."
    );
}

#[test]
fn cache_round_trip_all_fields() {
    let cache = cache_with(
        Some("https://example.com/r.git"),
        Some("main"),
        Some("./out"),
        Some("web"),
    );
    let text = encode_cache(&cache);
    let back = decode_cache(text.as_str());
    assert_cache_eq(&back, &cache);
}

#[test]
fn cache_round_trip_each_field_independently() {
    let samples = [
        cache_with(Some("r"), None, None, None),
        cache_with(None, Some("b"), None, None),
        cache_with(None, None, Some("t"), None),
        cache_with(None, None, None, Some("x")),
        cache_with(Some("r"), None, Some("t"), None),
        cache_with(None, None, None, None),
    ];
    for cache in samples.iter() {
        let text = encode_cache(cache);
        let back = decode_cache(text.as_str());
        assert_cache_eq(&back, cache);
    }
}

#[test]
fn cache_round_trip_escaped_characters() {
    let cache = cache_with(Some("a\"b\\c\nd\te"), Some("\u{1}"), None, Some("päth"), );
    let text = encode_cache(&cache);
    let back = decode_cache(text.as_str());
    assert_cache_eq(&back, &cache);
}

#[test]
fn cache_encoding_exact_form() {
    let cache = cache_with(Some("x"), None, None, None);
    assert_eq!(encode_cache(&cache), "{\"repo\":\"x\"}");
    let both = cache_with(Some("x"), Some("y"), None, None);
    assert_eq!(encode_cache(&both), "{\"repo\":\"x\",\"branch\":\"y\"}");
    assert_eq!(encode_cache(&Cache::empty()), "{}");
}

#[test]
fn cache_decoding_reads_control_escapes() {
    let back = decode_cache("{\"repo\":\"a\\\"b\\\\c\\u000a\"}");
    assert_eq!(back.repo.as_deref(), Some("a\"b\\c\n"));
}

#[test]
fn cache_decoding_rejects_malformed_text() {
    for bad in ["", "x", "{", "nonsense", "{\"repo\":\"x\"", "{\"repo\":3}"] {
        let back = decode_cache(bad);
        assert_cache_eq(&back, &Cache::empty());
    }
}

#[test]
fn join_path_inserts_one_separator() {
    assert_eq!(join_path("/home/u", "x"), "/home/u/x");
    assert_eq!(join_path("./", "proj"), "./proj");
    assert_eq!(join_path("", "x"), "/x");
}

#[test]
fn target_path_uses_input_or_default() {
    assert_eq!(get_target_path("./", "web", ""), "./web");
    assert_eq!(get_target_path("./", "web", "mine"), "./mine");
    assert_eq!(get_target_path("/tmp", "web", ""), "/tmp/web");
}

#[test]
fn config_path_is_under_the_fixed_folder() {
    assert_eq!(
        config_file_path("/home/u", ".template_cli_cache.json"),
        "/home/u/.tmpl-cli/.template_cli_cache.json"
    );
}

#[test]
fn error_messages_render_as_single_lines() {
    assert_eq!(
        TemplateError::GitCloneError("boom".to_string()).message(),
        "Git clone error: boom"
    );
    assert_eq!(
        TemplateError::InvalidTemplate("Z".to_string()).message(),
        "Template directory not found: Z"
    );
    assert_eq!(
        TemplateError::TargetError("p".to_string()).message(),
        "Target directory creation failed: p"
    );
    assert_eq!(
        TemplateError::CopyError("p".to_string()).message(),
        "Copying error: p"
    );
    assert_eq!(
        TemplateError::IoError("e".to_string()).message(),
        "I/O error: e"
    );
    assert_eq!(
        TemplateError::TemplateNotFound.message(),
        "Template directory not found on remote"
    );
    assert_eq!(TemplateError::InvalidTargetPath.message(), "Invalid target path");
    assert_eq!(TemplateError::HomeDirNotFound.message(), "Home directory not found");
    assert_eq!(
        TemplateError::ConfigDirCreationFailed("d".to_string()).message(),
        "Failed to create configuration directory: d"
    );
    assert_eq!(
        TemplateError::InvalidJsonFormat("j".to_string()).message(),
        "Invalid JSON format: j"
    );
    assert_eq!(
        TemplateError::InvalidSourceUrl("u".to_string()).message(),
        "Invalid source URL: u"
    );
}
