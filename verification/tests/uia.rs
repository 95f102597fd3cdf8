use nuphus::types::{
    AppIdentity, CandidateKind, NativeAction, Observation, ObservationScope, RiskClass,
    SemanticContext, SemanticLocator, UiRole, WindowIdentity,
};
use nuphus::uia::{
    classify_risk, describe_action_with_context, replay_region, NodeMetadata, Snapshot,
    WindowsUiaAdapter,
};
use nuphus::uia_tree::{
    app_identity_seed, element_text, fingerprint, identify, native_node, role_for, scoped_root,
    window_runtime_key, ElementFacts, RootPlan, Search, Survey, WindowFacts,
};

fn context(name: &str) -> SemanticContext {
    SemanticContext {
        role: Some(UiRole::ListItem),
        automation_id: None,
        accessible_name: Some(name.into()),
    }
}

fn metadata(id: &str, ancestors: Vec<SemanticContext>) -> NodeMetadata {
    NodeMetadata {
        opaque_id: id.into(),
        role: UiRole::Button,
        name: Some("Open".into()),
        automation_id: Some("open-button".into()),
        enabled: true,
        visible: true,
        focused: false,
        secure: false,
        value_fingerprint: None,
        toggled: None,
        selected: None,
        expanded: None,
        ancestor_chain: ancestors,
        supported_actions: vec![NativeAction::Invoke],
    }
}

#[test]
fn replay_descends_stable_ancestry_without_reusing_old_node_ids() {
    let parent = context("Row A");
    let mut region = metadata("fresh-region", vec![]);
    region.role = UiRole::ListItem;
    region.name = Some("Row A".into());
    region.automation_id = None;
    let target = metadata("fresh-button", vec![parent.clone()]);
    let saved = SemanticLocator {
        app_id: "app".into(),
        window_id: None,
        window_title: None,
        role: Some(UiRole::Button),
        automation_id: Some("open-button".into()),
        accessible_name: Some("Open".into()),
        ancestor_chain: vec![parent],
        supported_action: Some(NativeAction::Invoke),
        ordinal_hint: None,
    };
    assert_eq!(
        replay_region(&vec![region.clone()], &saved).unwrap(),
        Some("fresh-region".into())
    );
    assert_eq!(replay_region(&vec![target.clone()], &saved).unwrap(), None);
    assert!(replay_region(&vec![target.clone(), target], &saved).is_err());
    region.ancestor_chain = vec![context("wrong document")];
    assert!(replay_region(&vec![region], &saved).is_err());
}

fn observation(nodes: &[NodeMetadata]) -> Observation {
    Observation {
        revision: 1,
        fingerprint: "test".into(),
        app: AppIdentity {
            id: "app".into(),
            display_name: "App".into(),
        },
        window: WindowIdentity {
            id: "window".into(),
            title: "Window".into(),
        },
        nodes: nodes.iter().map(|n| n.public_node()).collect(),
        captured_at_ms: 1,
        truncated: false,
    }
}

fn adapter_with(nodes: &[NodeMetadata]) -> WindowsUiaAdapter {
    let mut adapter = WindowsUiaAdapter::default();
    adapter.state.metadata = nodes.to_vec();
    adapter
}

fn locator(ancestors: Vec<SemanticContext>, ordinal_hint: Option<u16>) -> SemanticLocator {
    SemanticLocator {
        app_id: "app".into(),
        window_id: Some("window".into()),
        window_title: Some("Window".into()),
        role: Some(UiRole::Button),
        automation_id: Some("open-button".into()),
        accessible_name: Some("Open".into()),
        ancestor_chain: ancestors,
        supported_action: Some(NativeAction::Invoke),
        ordinal_hint,
    }
}

#[test]
fn legacy_ordinal_never_selects_an_ambiguous_duplicate() {
    let nodes = vec![metadata("first", vec![]), metadata("second", vec![])];
    let mut adapter = adapter_with(&nodes);
    let error = adapter
        .rebuild_semantic_candidate(
            &locator(vec![], Some(1)),
            NativeAction::Invoke,
            &observation(&nodes),
        )
        .expect_err("ordinal fallback must not resolve duplicate controls");
    assert!(error.detail().contains("ambiguous"));
}

#[test]
fn ancestor_row_context_survives_list_reordering() {
    let row_a = metadata("row-a-open", vec![context("Row A")]);
    let row_b = metadata("row-b-open", vec![context("Row B")]);
    let reordered = vec![row_b.clone(), row_a.clone()];
    let mut adapter = adapter_with(&reordered);
    let candidate = adapter
        .rebuild_semantic_candidate(
            &locator(vec![context("Row B")], Some(0)),
            NativeAction::Invoke,
            &observation(&reordered),
        )
        .expect("stable row context should resolve uniquely");
    assert_eq!(candidate.target.as_deref(), Some("row-b-open"));
}

#[test]
fn ambiguous_candidates_are_not_exposed_in_action_space() {
    let nodes = vec![metadata("first", vec![]), metadata("second", vec![])];
    let mut adapter = adapter_with(&nodes);
    let candidates = adapter
        .build("open", &observation(&nodes))
        .expect("candidate construction should still return control choices");
    assert!(!candidates
        .iter()
        .any(|candidate| candidate.kind == CandidateKind::Invoke));
}

#[test]
fn all_candidates_remain_available_for_pagination_and_retain_scope() {
    let nodes: Vec<NodeMetadata> = (0..60)
        .map(|index| {
            metadata(
                &format!("button-{index}"),
                vec![context(&format!("Row {index}"))],
            )
        })
        .collect();
    let mut adapter = adapter_with(&nodes);
    adapter.state.scope.subtree_id = Some("@menu".into());
    let candidates = adapter.build("Open", &observation(&nodes)).unwrap();
    assert_eq!(
        candidates
            .iter()
            .filter(|c| c.kind == CandidateKind::Invoke)
            .count(),
        60
    );
    assert!(candidates
        .iter()
        .any(|c| c.public_description.contains("Row 59")));
    assert!(adapter
        .state
        .locators
        .iter()
        .all(|bound| bound.locator.scope.subtree_id.as_deref() == Some("@menu")));
}

#[test]
fn same_class_windows_have_separate_live_identities_but_durable_locators() {
    assert_ne!(
        window_runtime_key("same-class", 1, 42),
        window_runtime_key("same-class", 2, 42)
    );
    assert_ne!(
        window_runtime_key("same-class", 1, 42),
        window_runtime_key("same-class", 1, 43)
    );
    let node = metadata("button", vec![]);
    let mut adapter = adapter_with(std::slice::from_ref(&node));
    adapter.state.stable_window_id = Some("stable-window".into());
    let candidates = adapter.build("Open", &observation(&[node])).unwrap();
    let saved = adapter.semantic_locator(&candidates[0]).unwrap();
    assert_eq!(saved.window_id.as_deref(), Some("stable-window"));
}

#[test]
fn ancestor_descriptions_are_redacted() {
    let node = metadata("button", vec![]).public_node();
    let description = describe_action_with_context(
        NativeAction::Invoke,
        &node,
        &vec![context("person@example.com")],
    );
    assert!(description.contains("redacted control"));
    assert!(!description.contains("person@example.com"));
}

#[test]
fn critical_risk_covers_account_payment_and_destructive_system_actions() {
    for label in [
        "Delete account",
        "恢复出厂设置",
        "Format drive",
        "Confirm transfer",
        "提交订单",
        "Grant permission",
    ] {
        assert_eq!(
            classify_risk(NativeAction::Invoke, &Some(label.to_string())),
            RiskClass::DestructiveCritical,
            "{label} must be gated as a major irreversible action"
        );
    }
    assert_eq!(
        classify_risk(NativeAction::Invoke, &Some("Delete draft".to_string())),
        RiskClass::Reversible,
        "ordinary reversible deletion must not be over-gated"
    );
}

#[test]
fn application_identity_survives_owned_dialog_window_classes() {
    let executable = r"c:\windows\system32\notepad.exe";
    assert_eq!(
        app_identity_seed(Some("Win32"), "Notepad", executable),
        app_identity_seed(Some("Win32"), "#32770", executable)
    );
}

#[test]
fn application_identity_fallback_keeps_unknown_window_classes_separate() {
    assert_ne!(
        app_identity_seed(Some("Win32"), "FirstWindow", ""),
        app_identity_seed(Some("Win32"), "SecondWindow", "")
    );
    assert_eq!(
        app_identity_seed(None, "FirstWindow", ""),
        "fallback|win32|firstwindow"
    );
}

fn facts(control_type: i32, name: &str) -> ElementFacts {
    ElementFacts {
        control_type,
        name: Some(name.to_string()),
        automation_id: None,
        enabled: Some(true),
        offscreen: Some(false),
        focused: None,
        password: None,
        focusable: Some(true),
        invoke: true,
        toggle: None,
        selection: None,
        expand: None,
        value_read_only: None,
        value: None,
    }
}

#[test]
fn password_field_shows_no_value() {
    let mut f = facts(50004, "PIN");
    f.password = Some(true);
    f.value_read_only = Some(Some(false));
    f.value = Some("secret".to_string());
    let node = native_node(&f, 0, Vec::new());
    assert_eq!(node.role, UiRole::TextField);
    assert!(node.secure);
    assert!(!node.supported_actions.contains(&NativeAction::SetValue));
    assert!(node.value_fingerprint.is_none());
    let shown = node.public_node();
    assert!(shown.short_value.is_none());
    f.password = None;
    assert!(native_node(&f, 0, Vec::new())
        .supported_actions
        .contains(&NativeAction::SetValue));
}

#[test]
fn names_are_trimmed_and_cut() {
    assert_eq!(
        element_text(&Some("  abc  ".to_string()), 4).as_deref(),
        Some("ab")
    );
    assert_eq!(element_text(&Some("   ".to_string()), 9), None);
    assert_eq!(role_for(50000), UiRole::Button);
    assert_eq!(role_for(1), UiRole::Other);
}

fn window() -> WindowFacts {
    WindowFacts {
        title: "Notes".into(),
        class: "Notepad".into(),
        framework: Some("Win32".into()),
        root_name: None,
        root_automation_id: None,
        process_path: Some(r"C:\Notepad.exe".into()),
        hwnd: 11,
        pid: 42,
    }
}

#[test]
fn a_walk_begins_where_the_scope_says() {
    let scope = |id: Option<&str>| ObservationScope {
        app_id: None,
        window_id: None,
        subtree_id: id.map(str::to_string),
    };
    assert_eq!(scoped_root(&scope(None), 1, Some(2)), RootPlan::At(1));
    assert_eq!(scoped_root(&scope(Some("@window")), 1, Some(2)), RootPlan::At(1));
    assert_eq!(scoped_root(&scope(Some("@menu")), 1, Some(2)), RootPlan::At(2));
    assert_eq!(scoped_root(&scope(Some("@menu")), 1, None), RootPlan::Search);
    assert_eq!(scoped_root(&scope(Some("region-1")), 1, Some(2)), RootPlan::Search);
}

#[test]
fn a_window_class_counts_by_its_first_characters_alone() {
    let mut long = window();
    long.process_path = None;
    long.title = String::new();
    long.class = "C".repeat(200);
    let mut cut = long.clone();
    cut.class = "C".repeat(128);
    assert_eq!(identify(&long), identify(&cut));
    assert_eq!(identify(&long).0.display_name, "C".repeat(128));
    let mut short = long.clone();
    short.class = "C".repeat(127);
    assert_ne!(identify(&long).0.id, identify(&short).0.id);
    assert_ne!(identify(&long).2, identify(&short).2);
}

fn everything() -> ObservationScope {
    ObservationScope {
        app_id: None,
        window_id: None,
        subtree_id: None,
    }
}

/// Surveys a window with a root and some buttons below it.
fn survey(buttons: u64, limit: usize) -> Snapshot {
    let mut survey = Survey::begin(limit, &everything(), 1);
    while let Some(next) = survey.pop(false) {
        let children: Vec<u64> = if next.element == 1 {
            (2..2 + buttons).collect()
        } else {
            Vec::new()
        };
        let node = native_node(
            &facts(50000, &format!("B{}", next.element)),
            next.element as usize,
            Vec::new(),
        );
        survey.visit(Some(node), next.depth, &children, false);
    }
    match survey.finish(&window(), &everything(), false) {
        Ok(s) => s,
        Err(e) => panic!("{}", e.detail()),
    }
}

#[test]
fn survey_reads_the_tree_up_to_its_limit() {
    let whole = survey(5, 40);
    assert_eq!(whole.nodes.len(), 6);
    assert!(!whole.truncated);
    let cut = survey(50, 10);
    assert_eq!(cut.nodes.len(), 10);
    assert!(cut.truncated);
    assert_ne!(whole.fingerprint, cut.fingerprint);
    assert_eq!(whole.fingerprint, survey(5, 40).fingerprint);
}

#[test]
fn timed_out_survey_is_discarded() {
    let mut s = Survey::begin(5, &everything(), 1);
    assert!(s.pop(true).is_none());
    assert!(s.finish(&window(), &everything(), true).is_err());
}

#[test]
fn observation_gets_a_new_revision_when_the_window_changed() {
    let mut adapter = WindowsUiaAdapter::new(60);
    let first = adapter
        .capture_observation(&everything(), survey(3, 60), 5)
        .unwrap();
    let same = adapter
        .capture_observation(&everything(), survey(3, 60), 6)
        .unwrap();
    assert_eq!(first.revision, same.revision);
    let changed = adapter
        .capture_observation(&everything(), survey(4, 60), 7)
        .unwrap();
    assert_eq!(changed.revision, first.revision + 1);
    let candidates = adapter.build("B2", &changed).unwrap();
    let one = candidates
        .iter()
        .find(|c| c.public_description.contains("B2"))
        .unwrap();
    assert!(adapter.authorize(one).is_ok());
    let mut forged = one.clone();
    forged.id = "other".into();
    assert!(adapter.authorize(&forged).is_err());
}

#[test]
fn identity_of_a_window_follows_its_program() {
    let (app, _, stable) = identify(&window());
    let mut dialog = window();
    dialog.class = "#32770".into();
    assert_eq!(identify(&dialog).0.id, app.id);
    assert!(!stable.is_empty());
    let nodes = vec![metadata("a", vec![])];
    assert_ne!(
        fingerprint("app", "A", &nodes),
        fingerprint("app", "B", &nodes)
    );
}

#[test]
fn open_menu_is_found_once() {
    let mut menu = metadata("menu", vec![]);
    menu.role = UiRole::Menu;
    let mut search = Search::begin(None, 1, None);
    while let Some(next) = search.pop(false) {
        let children: Vec<u64> = if next.element == 1 { vec![2, 3] } else { Vec::new() };
        let node = if next.element == 3 {
            Some(menu.clone())
        } else {
            Some(metadata("x", vec![]))
        };
        search.visit(next, &node, &children, false);
    }
    match search.finish() {
        Ok(found) => assert_eq!(found, 3),
        Err(e) => panic!("{}", e.detail()),
    }
}
