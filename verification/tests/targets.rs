use std::collections::HashSet;

use nuphus::target_service::{
    check_activated, check_enumeration, check_open, find_launch_entry, poll_saved, running_window,
    BindStep, DesktopTargetService, SavedStep, WindowRow,
};
use nuphus::targets::{
    app_reference, app_windows, catalog_page, catalog_snapshot, choose_saved_window,
    choose_window, same_window, window_reference, window_selection_page, Application, Binding,
    CatalogKey, Choice, DesktopTargetDescriptor, SavedKey, Window, WindowEntry, LAUNCH_POLLS,
    PAGE_BUDGET,
};
use nuphus::types::SemanticLocator;

fn window(hwnd: i32, title: &str) -> Window {
    Window {
        hwnd,
        pid: 42,
        app_id: "app.test".into(),
        title: title.into(),
    }
}

fn app() -> Application {
    Application {
        app_id: "app.test".into(),
        name: "Editor".into(),
        launch_path: None,
    }
}

fn locator(window_id: Option<&str>, title: Option<&str>) -> SemanticLocator {
    SemanticLocator {
        app_id: "app.test".into(),
        window_id: window_id.map(|s| s.to_string()),
        window_title: title.map(|s| s.to_string()),
        role: None,
        automation_id: None,
        accessible_name: None,
        ancestor_chain: Vec::new(),
        supported_action: None,
        ordinal_hint: None,
    }
}

#[test]
fn repeated_windows_require_explicit_selection() {
    let windows = vec![window(1, "Report"), window(2, "Report")];
    assert_eq!(
        choose_window(&windows, None, Some("Report")).unwrap(),
        Choice::Several
    );
    assert_eq!(
        choose_window(&windows, Some(&windows[1]), None).unwrap(),
        Choice::One(1)
    );
    assert_eq!(windows[1].hwnd, 2);
    assert!(choose_window(&windows, Some(&window(3, "Report")), None).is_err());
}

#[test]
fn saved_title_is_not_a_hint_to_choose_an_unrelated_window() {
    let windows = vec![window(1, "Unrelated")];
    assert!(choose_window(&windows, None, Some("Report")).is_err());
    assert_eq!(choose_window(&windows, None, None).unwrap(), Choice::One(0));
    assert_eq!(windows[0].hwnd, 1);
}

#[test]
fn live_window_binding_survives_title_changes_but_not_window_replacement() {
    let original = window(10, "Document");
    let dirty = window(10, "*Document");
    assert!(same_window(&original, &dirty));
    assert!(!same_window(&original, &window(11, "*Document")));
    let mut replaced = dirty;
    replaced.pid += 1;
    assert!(!same_window(&original, &replaced));
    let mut service = DesktopTargetService::new();
    let key = SavedKey {
        owner: "task-a".to_string(),
        app_id: "app.test".to_string(),
        window_id: None,
        window_title: Some("Document".to_string()),
    };
    service.state.saved_windows.put(key.clone(), original);
    assert!(service.state.saved_windows.find(&key).is_some());
    let mut other_task = key;
    other_task.owner = "task-b".into();
    assert!(service.state.saved_windows.find(&other_task).is_none());
}

#[test]
fn stable_identity_allows_native_validation_of_a_redacted_single_window() {
    let mut saved = locator(Some("axw:stable"), Some("redacted control"));
    let windows = vec![window(1, "Private long title: user@example.invalid")];
    assert_eq!(
        choose_saved_window(&windows, &saved).unwrap(),
        Choice::One(0)
    );
    assert_eq!(windows[0].hwnd, 1);
    let multiple = vec![windows[0].clone(), window(2, "Another document")];
    assert!(choose_saved_window(&multiple, &saved).is_err());
    saved.window_id = Some("windows-window:shared-class".into());
    assert!(choose_saved_window(&windows, &saved).is_err());
    saved.window_id = None;
    assert!(choose_saved_window(&windows, &saved).is_err());
}

#[test]
fn catalog_references_are_distinct_and_stable() {
    assert_eq!(app_reference("app.test"), app_reference("app.test"));
    assert_ne!(app_reference("app.test"), "app.test");
    assert_ne!(
        window_reference(&window(1, "Report")),
        window_reference(&window(2, "Report"))
    );
    assert_eq!(
        window_reference(&window(1, "Report")),
        window_reference(&window(1, "Other"))
    );
    assert!(app_reference("x").starts_with("app:"));
    assert_eq!(app_reference("x").len(), 20);
}

#[test]
fn tokens_cannot_cross_execution_owners_or_be_invented() {
    let mut service = DesktopTargetService::new();
    service.state.bindings.insert(
        "target:test".to_string(),
        Binding {
            owner: "owner:first".into(),
            window: window(1, "Report"),
            descriptor: DesktopTargetDescriptor {
                app_id: "app.test".into(),
                window_title: Some("Report".into()),
                launch_ref: None,
            },
        },
    );
    let error = service
        .ensure(&service.owner(Some("owner:second")), "target:test")
        .unwrap_err();
    assert!(error.contains("another execution owner"));
    assert!(service
        .ensure(&service.owner(None), "target:invented")
        .unwrap_err()
        .contains("Unknown"));
    assert!(service
        .bind("C:\\arbitrary.exe", None)
        .unwrap_err()
        .contains("Unknown app_ref"));
    assert_eq!(
        service.ensure("owner:first", "target:test").unwrap().window.hwnd,
        1
    );
}

fn catalog_fixture(count: usize) -> (Vec<(String, Application)>, Vec<(String, Window)>) {
    let apps = vec![(app_reference("app.test"), app())];
    let windows = (0..count)
        .map(|n| {
            let window = window(
                n as i32 + 1,
                &format!("Document {n:04} {}", "\u{0001}中🖥".repeat(100)),
            );
            (window_reference(&window), window)
        })
        .collect();
    (apps, windows)
}

#[test]
fn single_application_with_many_windows_is_bounded_and_fully_pageable() {
    let (apps, windows) = catalog_fixture(500);
    let snapshot = catalog_snapshot(&apps, &windows, "", 7);
    let mut cursor = 0;
    let mut references = HashSet::new();
    loop {
        let page = catalog_page(&snapshot, cursor).unwrap();
        assert!(page.to_json().len() <= PAGE_BUDGET);
        let value: serde_json::Value = serde_json::from_str(&page.to_json()).unwrap();
        assert_eq!(value["application_count"], 1);
        assert_eq!(value["target_count"], 500);
        for app in value["applications"].as_array().unwrap() {
            for window in app["windows"].as_array().unwrap() {
                assert!(references.insert(window["window_ref"].as_str().unwrap().to_owned()));
            }
        }
        let next = match value["next_cursor"].as_u64() {
            Some(next) => next as usize,
            None => break,
        };
        assert!(next > cursor);
        cursor = next;
    }
    assert_eq!(references.len(), 500);
    assert!(catalog_page(&snapshot, 501).is_err());
}

#[test]
fn title_search_uses_unshortened_text_and_sort_does_not_follow_hashmap_order() {
    let (apps, mut windows) = catalog_fixture(30);
    let long = window(999, &format!("{}needle at end", "long ".repeat(100)));
    let wanted = window_reference(&long);
    windows.push((wanted.clone(), long));
    let filtered = catalog_snapshot(&apps, &windows, "needle at end", 7);
    assert_eq!(filtered.rows.len(), 1);
    assert_eq!(filtered.rows[0].window.as_ref().unwrap().0, wanted);
    let mut reversed = windows.clone();
    reversed.sort_by(|a, b| b.0.cmp(&a.0));
    assert_eq!(
        catalog_page(&catalog_snapshot(&apps, &windows, "", 7), 0)
            .unwrap()
            .to_json(),
        catalog_page(&catalog_snapshot(&apps, &reversed, "", 7), 0)
            .unwrap()
            .to_json()
    );
    assert_eq!(
        catalog_snapshot(&apps, &windows, &app_reference("app.test"), 7)
            .rows
            .len(),
        31
    );
}

#[test]
fn multiwindow_bind_choices_fit_budget_and_link_to_full_catalog() {
    let choices: Vec<WindowEntry> = (0..500)
        .map(|n| WindowEntry {
            window_ref: format!("window:{n:016x}"),
            title: "\u{0001}".repeat(1000),
        })
        .collect();
    let page = window_selection_page("app:123", &choices).to_json();
    assert!(page.len() <= PAGE_BUDGET);
    let page: serde_json::Value = serde_json::from_str(&page).unwrap();
    assert_eq!(page["window_count"], 500);
    assert_eq!(page["has_more_windows"], true);
    assert_eq!(page["list_query"], "app:123");
    assert!(!page["windows"].as_array().unwrap().is_empty());
}

#[test]
fn subsequent_pages_use_owner_query_snapshot_without_native_enumeration() {
    let mut service = DesktopTargetService::new();
    let (apps, windows) = catalog_fixture(30);
    let owner = service.owner(None);
    service.state.catalogs.put(
        CatalogKey {
            owner: owner.clone(),
            query: "editor".into(),
        },
        catalog_snapshot(&apps, &windows, "editor", 7),
    );
    assert_eq!(
        service.list_from(&owner, Some("Editor"), 20).unwrap().cursor,
        20
    );
    assert!(service
        .list_from(&owner, Some("Changed query"), 20)
        .unwrap_err()
        .contains("invalid_cursor"));
    assert!(service
        .list_from("other owner", Some("Editor"), 20)
        .unwrap_err()
        .contains("invalid_cursor"));
}

fn listed() -> (DesktopTargetService, String) {
    let mut service = DesktopTargetService::new();
    let owner = service.owner(None);
    let mut other = app();
    other.app_id = "app.other".into();
    other.name = "Other".into();
    other.launch_path = Some("/bin/other".into());
    service
        .list(
            &owner,
            None,
            &vec![other],
            &vec![(app(), window(1, "A")), (app(), window(2, "B"))],
            7,
        )
        .unwrap();
    (service, owner)
}

#[test]
fn binding_asks_which_of_several_windows_is_meant() {
    let (mut service, owner) = listed();
    let running = vec![window(1, "A"), window(2, "B")];
    let mut run = service.bind(&app_reference("app.test"), None).unwrap();
    match run.advance(&running) {
        BindStep::Select(windows) => {
            let page = service.offer(&app_reference("app.test"), &windows);
            assert_eq!(page.window_count, 2);
        }
        _ => panic!("a choice was expected"),
    }
    let mut run = service
        .bind(
            &app_reference("app.test"),
            Some(&window_reference(&running[1])),
        )
        .unwrap();
    match run.advance(&running) {
        BindStep::Activate(w) => {
            let (token, descriptor) = service.finish_bind(&owner, &run, &w);
            assert!(token.starts_with("target:"));
            assert_eq!(descriptor.app_id, "app.test");
            assert_eq!(service.ensure(&owner, &token).unwrap().window.hwnd, 2);
        }
        _ => panic!("the chosen window was expected"),
    }
}

#[test]
fn launch_is_tried_once_and_awaited_for_a_while() {
    let (service, _) = listed();
    let mut run = service.bind(&app_reference("app.other"), None).unwrap();
    match run.advance(&Vec::new()) {
        BindStep::Launch(path) => assert_eq!(path, "/bin/other"),
        _ => panic!("a launch was expected"),
    }
    let mut polls = 0;
    loop {
        match run.advance(&Vec::new()) {
            BindStep::Poll => polls += 1,
            BindStep::Fail(_) => break,
            _ => panic!("nothing runs"),
        }
        assert!(polls <= LAUNCH_POLLS);
    }
    assert!(polls > 0);
}

#[test]
fn saved_window_is_found_again_after_its_title_changed() {
    let (mut service, owner) = listed();
    let saved = locator(None, Some("A"));
    service.remember_saved(&owner, &saved, &window(1, "A"));
    match service.ensure_saved(&owner, &saved, None, &vec![window(1, "*A"), window(2, "B")]) {
        SavedStep::Reactivate(w) => assert_eq!(w.hwnd, 1),
        _ => panic!("the window is the same"),
    }
    match poll_saved(&saved, &Vec::new(), 0) {
        SavedStep::Poll => {}
        _ => panic!("nothing runs yet"),
    }
}

#[test]
fn catalog_entry_is_launched_only_by_its_reference() {
    let mut entry = app();
    entry.launch_path = Some("/bin/x".into());
    let installed = vec![entry];
    assert_eq!(
        find_launch_entry(&installed, &app_reference("app.test"), "app.test").unwrap(),
        "/bin/x"
    );
    assert!(find_launch_entry(&installed, "/bin/x", "app.test").is_err());
    assert!(find_launch_entry(&installed, &app_reference("app.test"), "app.else").is_err());
}

#[test]
fn what_the_system_says_of_windows_is_checked() {
    assert!(check_open(&vec![window(1, "x")], &window(1, "y")).is_ok());
    assert!(check_open(&vec![window(2, "x")], &window(1, "x")).is_err());
    assert!(check_activated(Some(true), Some(true)).is_ok());
    assert!(check_activated(Some(true), None).is_err());
    assert!(check_enumeration(Some(true), None, true).is_ok());
    assert_eq!(
        check_enumeration(Some(false), Some("denied"), true).unwrap_err(),
        "denied"
    );
    assert!(check_enumeration(Some(true), None, false).is_err());
    assert_eq!(app_windows(&vec![window(1, "x")], "app.other").len(), 0);
    let row = WindowRow {
        hwnd: Some(3),
        process_id: Some(42),
        title: Some("T".to_string()),
        cloaked: Some(true),
        app: Some(app()),
    };
    assert!(running_window(&row).is_none());
    let shown = WindowRow {
        cloaked: None,
        ..row
    };
    assert_eq!(running_window(&shown).unwrap().1.hwnd, 3);
}

#[test]
fn every_row_is_shown_once_in_order_with_the_applications_that_do_not_run() {
    let apps: Vec<(String, Application)> = (0..45)
        .map(|n| {
            let app = Application {
                app_id: if n == 20 { "app.test".into() } else { format!("idle.{n:02}") },
                name: format!("App {n:02}"),
                launch_path: None,
            };
            (app_reference(&app.app_id), app)
        })
        .collect();
    let windows: Vec<(String, Window)> = (1..=30)
        .map(|n| {
            let w = window(n, &format!("Document {n:02}"));
            (window_reference(&w), w)
        })
        .collect();
    let snapshot = catalog_snapshot(&apps, &windows, "", 7);
    assert_eq!(snapshot.rows.len(), 44 + 30);
    let mut cursor = 0;
    let mut seen: Vec<(String, Option<String>)> = Vec::new();
    loop {
        let page = catalog_page(&snapshot, cursor).unwrap();
        assert_eq!(page.target_count, 74);
        let before = seen.len();
        for app in &page.applications {
            if app.windows.is_empty() {
                seen.push((app.app_ref.clone(), None));
            }
            for w in &app.windows {
                seen.push((app.app_ref.clone(), Some(w.window_ref.clone())));
            }
        }
        assert!(seen.len() - before <= 20);
        match page.next_cursor {
            Some(next) => {
                assert!(next > cursor);
                assert_eq!(next, seen.len());
                cursor = next;
            }
            None => break,
        }
    }
    let rows: Vec<(String, Option<String>)> = snapshot
        .rows
        .iter()
        .map(|row| (row.reference.clone(), row.window.as_ref().map(|w| w.0.clone())))
        .collect();
    assert_eq!(seen, rows);
}
