use nuphus::preferences::{
    normalize_session_group_order, normalize_session_sort_key, ProjectBookmark, StoredBookmark,
    StoredPreferences, UserPreferences, DEFAULT_SESSION_GROUP_COLLAPSED_LIMIT,
    SESSION_GROUP_ORDER_BOOKMARK, SESSION_GROUP_ORDER_RECENT, SESSION_SORT_KEY_CREATED,
    SESSION_SORT_KEY_UPDATED,
};

/// What a stored file says, member by member.
fn stored(json: &str) -> StoredPreferences {
    let v: serde_json::Value = serde_json::from_str(json).unwrap();
    let text = |name: &str| v.get(name).and_then(|m| m.as_str()).map(|s| s.to_string());
    StoredPreferences {
        language: text("language").unwrap(),
        project_dir: text("project_dir"),
        project_bookmarks: v
            .get("project_bookmarks")
            .and_then(|m| m.as_array())
            .map(|list| {
                list.iter()
                    .map(|b| StoredBookmark {
                        name: b["name"].as_str().unwrap().to_string(),
                        path: b["path"].as_str().unwrap().to_string(),
                        archived: b.get("archived").and_then(|a| a.as_bool()),
                    })
                    .collect()
            })
            .unwrap_or_default(),
        session_group_order: text("session_group_order"),
        session_sort_key: text("session_sort_key"),
        session_group_collapsed_limit: v
            .get("session_group_collapsed_limit")
            .and_then(|m| m.as_u64())
            .map(|n| n as u32),
        browser_cdp_url: text("browser_cdp_url"),
        browser_identity: None,
    }
}

#[test]
fn legacy_preferences_json_deserializes_with_defaults() {
    let legacy = r#"{
        "language": "zh-CN",
        "project_dir": "E:\\work\\A",
        "project_bookmarks": [{"name": "A", "path": "E:\\work\\A"}],
        "browser_cdp_url": null
    }"#;
    let prefs = UserPreferences::from_stored(stored(legacy));
    assert_eq!(
        prefs.session_group_collapsed_limit,
        DEFAULT_SESSION_GROUP_COLLAPSED_LIMIT
    );
    assert_eq!(prefs.session_group_limit(), 6);
    assert_eq!(prefs.project_dir, "E:\\work\\A");
    assert!(!prefs.project_bookmarks[0].archived);
    assert_eq!(prefs.project_bookmarks[0].name, "A");
    assert_eq!(prefs.session_group_order(), SESSION_GROUP_ORDER_BOOKMARK);
    assert_eq!(prefs.session_sort_key(), SESSION_SORT_KEY_UPDATED);
}

#[test]
fn sort_prefs_roundtrip_through_storage() {
    let prefs = UserPreferences {
        session_group_order: SESSION_GROUP_ORDER_RECENT.to_string(),
        session_sort_key: SESSION_SORT_KEY_CREATED.to_string(),
        ..Default::default()
    };
    let kept = prefs.to_stored();
    assert_eq!(kept.session_group_order.as_deref(), Some("recent"));
    assert_eq!(kept.session_sort_key.as_deref(), Some("created"));
    let back = UserPreferences::from_stored(kept);
    assert_eq!(back.session_group_order(), SESSION_GROUP_ORDER_RECENT);
    assert_eq!(back.session_sort_key(), SESSION_SORT_KEY_CREATED);
    assert_eq!(back, prefs);
}

#[test]
fn illegal_sort_prefs_fall_back_to_defaults() {
    assert_eq!(
        normalize_session_group_order(" Recent "),
        SESSION_GROUP_ORDER_RECENT
    );
    assert_eq!(
        normalize_session_sort_key("Created"),
        SESSION_SORT_KEY_CREATED
    );
    assert_eq!(
        normalize_session_group_order("bookmark"),
        SESSION_GROUP_ORDER_BOOKMARK
    );
    assert_eq!(
        normalize_session_sort_key("updated"),
        SESSION_SORT_KEY_UPDATED
    );
    for raw in ["", "  ", "newest", "recentt", "时间"] {
        assert_eq!(
            normalize_session_group_order(raw),
            SESSION_GROUP_ORDER_BOOKMARK
        );
    }
    for raw in ["", "  ", "create", "oldest", "updated_at"] {
        assert_eq!(normalize_session_sort_key(raw), SESSION_SORT_KEY_UPDATED);
    }
    let prefs = UserPreferences {
        session_group_order: "newest".to_string(),
        session_sort_key: String::new(),
        ..Default::default()
    };
    assert_eq!(prefs.session_group_order(), SESSION_GROUP_ORDER_BOOKMARK);
    assert_eq!(prefs.session_sort_key(), SESSION_SORT_KEY_UPDATED);
}

#[test]
fn zero_collapsed_limit_falls_back_to_default() {
    let prefs = UserPreferences {
        session_group_collapsed_limit: 0,
        ..Default::default()
    };
    assert_eq!(
        prefs.session_group_limit(),
        DEFAULT_SESSION_GROUP_COLLAPSED_LIMIT
    );
}

#[test]
fn archived_bookmark_is_stored_as_such() {
    let prefs = UserPreferences {
        project_bookmarks: vec![ProjectBookmark {
            name: "A".to_string(),
            path: "E:\\work\\A".to_string(),
            archived: true,
        }],
        ..Default::default()
    };
    let kept = prefs.to_stored();
    assert_eq!(kept.project_bookmarks[0].archived, Some(true));
    assert!(UserPreferences::from_stored(kept).project_bookmarks[0].archived);
}

#[test]
fn defaults_are_written_once() {
    let (prefs, write) = UserPreferences::load(false, None);
    assert!(write);
    assert_eq!(prefs.language, "zh-CN");
    let (broken, write) = UserPreferences::load(true, None);
    assert!(!write);
    assert_eq!(broken, prefs);
    let (read, write) = UserPreferences::load(true, Some(stored(r#"{"language":"en"}"#)));
    assert!(!write);
    assert_eq!(read.language, "en");
}

#[test]
fn failure_to_save_is_named() {
    let failed = || Err("denied".to_string());
    assert!(UserPreferences::save(Ok(()), Ok(()), Ok(())).is_ok());
    assert_eq!(
        UserPreferences::save(failed(), Ok(()), Ok(())).unwrap_err(),
        "create prefs dir failed: denied"
    );
    assert_eq!(
        UserPreferences::save(Ok(()), failed(), Ok(())).unwrap_err(),
        "serialize prefs failed: denied"
    );
    assert_eq!(
        UserPreferences::save(Ok(()), Ok(()), failed()).unwrap_err(),
        "write prefs failed: denied"
    );
}

#[test]
fn preferences_stand_below_the_home() {
    let place = UserPreferences::path(false, None, None, Some("C:\\u".to_string()));
    assert_eq!(place.base, "C:\\u");
    assert_eq!(place.parts, vec![".nuphus/preferences.json"]);
    let place = UserPreferences::path(true, Some("/etc".to_string()), None, None);
    assert_eq!(place.base, "/etc");
    assert_eq!(place.parts, vec!["nuphus-workbench", "preferences.json"]);
}
