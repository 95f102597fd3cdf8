use nuphus::tool::ToolResult;
use nuphus::tool_cache::{
    cache_file_path, cache_key, default_store_path, extract_path, is_file_tool, is_web_tool,
    normalize_path, path_matches, written_path, Entry, Project, ToolCache,
};

fn project(root: &str) -> Project {
    Project {
        root: root.to_string(),
        separator: '/',
    }
}

fn make_result(data: &str) -> ToolResult {
    ToolResult {
        success: true,
        output: Some(data.to_string()),
        error: None,
        exit_code: Some(0),
    }
}

fn url(address: &str) -> String {
    format!("{{\"url\":\"{address}\"}}")
}

/// Keeps what a page gave at a time.
fn keep(c: &mut ToolCache, address: &str, data: &str, now: u64) {
    c.set(
        None,
        false,
        "web_extract",
        &url(address),
        None,
        now,
        make_result(data),
    );
}

/// What is kept of a page at a time.
fn ask(c: &mut ToolCache, address: &str, now: u64) -> Option<ToolResult> {
    c.get(None, "web_extract", &url(address), now, None)
}

#[test]
fn test_cache_key_deterministic() {
    let a = cache_key(None, "Read", r#"{"path":"/tmp/x"}"#);
    let b = cache_key(None, "Read", r#"{"path":"/tmp/x"}"#);
    assert_eq!(a, b);
}

#[test]
fn test_cache_key_differs() {
    let a = cache_key(None, "Read", r#"{"path":"/tmp/x"}"#);
    let b = cache_key(None, "Read", r#"{"path":"/tmp/y"}"#);
    assert_ne!(a, b);
}

#[test]
fn workbench_cache_is_scoped_to_project_context() {
    let root = "/tmp/cache-scope";
    let first = project(&format!("{root}/first"));
    let second = project(&format!("{root}/second"));
    let mut cache = ToolCache::new();
    let params = url("https://example.com");
    assert_eq!(
        extract_path(Some(&first), true, r#"{"path":"README.md"}"#),
        Some(format!("{root}/first/README.md"))
    );
    let key = |p: &Project| cache_key(Some(p), "Read", r#"{"path":"README.md"}"#);
    assert_ne!(key(&first), key(&second));
    cache.set(
        Some(&first),
        false,
        "web_extract",
        &params,
        None,
        100,
        make_result("first project"),
    );
    assert!(cache
        .get(Some(&second), "web_extract", &params, 100, None)
        .is_none());
    assert_eq!(
        cache
            .get(Some(&first), "web_extract", &params, 100, None)
            .unwrap()
            .output
            .as_deref(),
        Some("first project")
    );
}

#[test]
fn test_basic_set_get() {
    let mut c = ToolCache::new();
    keep(&mut c, "https://example.com/test", "hello", 1000);
    let got = ask(&mut c, "https://example.com/test", 1000);
    assert!(got.is_some());
    assert_eq!(got.unwrap().output.as_deref(), Some("hello"));
}

#[test]
fn test_cache_miss() {
    let mut c = ToolCache::new();
    assert!(c
        .get(None, "Read", r#"{"path":"/tmp/nonexistent.txt"}"#, 5, None)
        .is_none());
}

#[test]
fn test_lru_eviction() {
    let mut c = ToolCache::new();
    c.max = 3;
    for i in 0..5 {
        keep(
            &mut c,
            &format!("https://example.com/{i}.html"),
            &format!("data{i}"),
            1000,
        );
    }
    assert!(ask(&mut c, "https://example.com/0.html", 1000).is_none());
    assert!(ask(&mut c, "https://example.com/1.html", 1000).is_none());
    assert!(ask(&mut c, "https://example.com/2.html", 1000).is_some());
    assert!(ask(&mut c, "https://example.com/3.html", 1000).is_some());
    assert!(ask(&mut c, "https://example.com/4.html", 1000).is_some());
}

#[test]
fn test_web_ttl_expires() {
    let mut c = ToolCache::new();
    keep(&mut c, "https://example.com", "content", 1000);
    assert!(ask(&mut c, "https://example.com", 1000).is_some());
    assert!(ask(&mut c, "https://example.com", 1060).is_some());
    assert!(ask(&mut c, "https://example.com", 1120).is_none());
    assert_eq!(c.len(), 0);
}

#[test]
fn test_invalidate_path() {
    let mut c = ToolCache::new();
    keep(&mut c, "https://example.com/main", "code", 1000);
    keep(&mut c, "https://example.com/lib", "lib", 1000);
    keep(&mut c, "https://example.com/note", "note", 1000);
    c.invalidate(None, false, "https://example.com/main");
    assert!(ask(&mut c, "https://example.com/main", 1000).is_some());
    assert!(ask(&mut c, "https://example.com/lib", 1000).is_some());
    assert!(ask(&mut c, "https://example.com/note", 1000).is_some());
}

#[test]
fn test_persist_and_reload() {
    let saved: Vec<(u64, Entry)> = {
        let mut c = ToolCache::new();
        keep(&mut c, "https://x.com/a", "aaa", 1000);
        keep(&mut c, "https://x.com/b", "bbb", 1000);
        c.persist()
    };
    let mut c = ToolCache::new();
    c.load(&saved, 1010);
    assert_eq!(c.len(), 2);
    let r1 = ask(&mut c, "https://x.com/a", 1010);
    assert!(r1.is_some());
    assert_eq!(r1.unwrap().output.as_deref(), Some("aaa"));
    let r2 = ask(&mut c, "https://x.com/b", 1010);
    assert!(r2.is_some());
    assert_eq!(r2.unwrap().output.as_deref(), Some("bbb"));
    let mut late = ToolCache::new();
    late.load(&saved, 2000);
    assert_eq!(late.len(), 0);
}

#[test]
fn test_file_cache_mtime_validation() {
    let mut c = ToolCache::new();
    let params = r#"{"path":"/tmp/test_cache_readme.txt"}"#;
    c.set(
        None,
        false,
        "Read",
        params,
        Some((77, 11)),
        1000,
        make_result("hello world"),
    );
    assert_eq!(
        c.file_of(None, "Read", params).as_deref(),
        Some("/tmp/test_cache_readme.txt")
    );
    let got = c.get(None, "Read", params, 1000, Some((77, 11)));
    assert!(got.is_some());
    assert_eq!(got.unwrap().output.as_deref(), Some("hello world"));
    assert!(c
        .get(None, "Read", params, 1000, Some((77, 16)))
        .is_none());
    assert!(c.file_of(None, "Read", params).is_none());
}

#[test]
fn file_that_is_gone_or_older_is_not_served() {
    for (now, stat) in [(1000, None), (1301, Some((77, 11))), (1000, Some((78, 11)))] {
        let mut c = ToolCache::new();
        c.set_read_from(
            None,
            "file_read",
            "p",
            Some("/f".to_string()),
            Some((77, 11)),
            1000,
            make_result("x"),
        );
        assert!(c.get(None, "file_read", "p", now, stat).is_none());
        assert_eq!(c.len(), 0);
    }
}

#[test]
fn result_of_another_tool_never_expires() {
    let mut c = ToolCache::new();
    c.set(None, false, "memory_stats", "{}", None, 0, make_result("m"));
    assert!(c.get(None, "memory_stats", "{}", u64::MAX, None).is_some());
    c.invalidate_tool("memory_stats");
    assert_eq!(c.len(), 0);
}

#[test]
fn change_of_a_folder_takes_out_what_lies_below() {
    let mut c = ToolCache::new();
    for (i, path) in ["/proj/src/a.rs", "/proj/b.rs", "/proj2/c.rs"].iter().enumerate() {
        c.set_read_from(
            None,
            "Read",
            &format!("{i}"),
            Some(path.to_string()),
            Some((1, 1)),
            10,
            make_result(path),
        );
    }
    c.invalidate(None, false, "/PROJ/");
    assert_eq!(c.len(), 1);
    assert!(c.get(None, "Read", "2", 10, Some((1, 1))).is_some());
    c.clear();
    assert_eq!(c.len(), 0);
}

#[test]
fn last_used_survives_eviction() {
    let mut c = ToolCache::new();
    c.max = 2;
    keep(&mut c, "a", "1", 10);
    keep(&mut c, "b", "2", 10);
    assert!(ask(&mut c, "a", 10).is_some());
    keep(&mut c, "c", "3", 10);
    assert!(ask(&mut c, "b", 10).is_none());
    assert!(ask(&mut c, "a", 10).is_some());
    keep(&mut c, "a", "4", 11);
    assert_eq!(c.len(), 2);
    assert_eq!(
        ask(&mut c, "a", 11).unwrap().output.as_deref(),
        Some("4")
    );
}

#[test]
fn test_normalize_path() {
    assert_eq!(
        normalize_path(r"C:\Users\test\file.rs"),
        "c:/users/test/file.rs"
    );
    assert_eq!(normalize_path("/users/test/file.rs"), "/users/test/file.rs");
    assert_eq!(normalize_path("/A/B//"), "/a/b");
}

#[test]
fn test_path_matches() {
    assert!(path_matches("/proj/main.rs", "/proj/main.rs"));
    assert!(path_matches("/proj/src/main.rs", "/proj"));
    assert!(path_matches("/proj/src/main.rs", "/proj/"));
    assert!(!path_matches("/proj2/main.rs", "/proj"));
}

#[test]
fn tools_are_told_apart_by_name() {
    assert!(is_file_tool("Read") && is_file_tool("search_code") && !is_file_tool("Reader"));
    assert!(is_web_tool("web_search") && !is_web_tool("Web"));
}

#[test]
fn file_is_read_from_the_parameters() {
    assert_eq!(written_path("{\"path\":\"/a\"}").as_deref(), Some("/a"));
    assert_eq!(written_path("{\"path\":1}"), None);
    assert_eq!(written_path("[]"), None);
    assert_eq!(extract_path(None, true, "{\"path\":\"a\"}").as_deref(), Some("a"));
    assert_eq!(extract_path(None, true, "{}"), None);
}

#[test]
fn relative_paths_lie_in_the_project() {
    let p = project("/proj");
    assert_eq!(cache_file_path(Some(&p), true, "src/a.rs"), "/proj/src/a.rs");
    assert_eq!(cache_file_path(Some(&p), false, "/etc/a"), "/etc/a");
    assert_eq!(cache_file_path(None, true, "src/a.rs"), "src/a.rs");
    assert_eq!(cache_file_path(Some(&project("/proj/")), true, "a"), "/proj/a");
    assert_eq!(cache_file_path(Some(&project("")), true, "a"), "a");
    let back = Project {
        root: "C:\\proj".to_string(),
        separator: '\\',
    };
    assert_eq!(cache_file_path(Some(&back), true, "a"), "C:\\proj\\a");
}

#[test]
fn change_of_a_relative_path_counts_in_its_project() {
    let p = project("/proj");
    let mut c = ToolCache::new();
    let params = r#"{"path":"src/a.rs"}"#;
    c.set(Some(&p), true, "Read", params, Some((1, 1)), 10, make_result("a"));
    assert_eq!(
        c.file_of(Some(&p), "Read", params).as_deref(),
        Some("/proj/src/a.rs")
    );
    c.invalidate(Some(&project("/other")), true, "src");
    assert_eq!(c.len(), 1);
    c.invalidate(Some(&p), true, "src");
    assert_eq!(c.len(), 0);
}

#[test]
fn cache_is_kept_with_the_project() {
    let place = default_store_path(None, Some("/p".to_string()));
    assert_eq!((place.base.as_str(), place.parts.join("/")), ("/p", ".nuphus/cache/tool_cache.json".to_string()));
    let bench = nuphus::profile::Place::whole("/b".to_string());
    let place = default_store_path(Some(bench), None);
    assert_eq!((place.base.as_str(), place.parts.join("/")), ("/b", "cache/tool_cache.json".to_string()));
}
