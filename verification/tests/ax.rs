use nuphus::ax::{
    actions, check_deadline, check_window_binding, child_capacity, descend_menu, describe,
    effects, hash, kind, matches_locator, ranked_actions, redact, replay_resolution, risk, role,
    scope_is_menu, window_is_unique, AxSnapshot, MacosAccessibilityAdapter, Metadata,
    ReplayResolution,
};
use nuphus::runner::MENU_SCOPE_ID;
use nuphus::types::{
    AppIdentity, AutomationError, NativeAction, ObservationScope, RiskClass, SemanticContext,
    SemanticLocator, UiNode, UiRole, WindowIdentity,
};

fn metadata(container: &str) -> Metadata {
    Metadata {
        node: UiNode {
            opaque_id: "axe:button".into(),
            semantic_key: Some("ax:button".into()),
            role: UiRole::Button,
            name: Some("Open".into()),
            short_value: None,
            enabled: true,
            visible: true,
            focused: false,
            secure: false,
            toggled: None,
            selected: None,
            expanded: None,
            value_fingerprint: None,
            supported_actions: vec![NativeAction::Invoke],
        },
        identifier: Some("open".into()),
        raw_name: Some("Open".into()),
        ancestors: vec![SemanticContext {
            role: Some(UiRole::ListItem),
            automation_id: Some(container.into()),
            accessible_name: None,
        }],
        origin: "window".into(),
    }
}

fn locator_of(meta: &Metadata, app_id: &str, ordinal_hint: Option<u16>) -> SemanticLocator {
    SemanticLocator {
        app_id: app_id.into(),
        window_id: None,
        window_title: None,
        role: Some(meta.node.role),
        automation_id: meta.identifier.clone(),
        accessible_name: meta.raw_name.clone(),
        ancestor_chain: meta.ancestors.clone(),
        supported_action: Some(NativeAction::Invoke),
        ordinal_hint,
    }
}

#[test]
fn capabilities_are_advertised_only_when_supported_by_ax() {
    let press = vec!["AXPress".to_string()];
    let none: Vec<String> = Vec::new();
    assert!(actions(UiRole::Button, false, &none, false, false, false, false, None).is_empty());
    assert_eq!(
        actions(UiRole::CheckBox, false, &press, false, false, false, false, None),
        vec![NativeAction::Toggle]
    );
    assert_eq!(
        actions(UiRole::RadioButton, false, &press, false, false, true, false, None),
        vec![NativeAction::Select]
    );
    assert_eq!(
        actions(UiRole::ListItem, false, &none, false, false, false, true, Some(true)),
        vec![NativeAction::Collapse]
    );
    assert_eq!(
        actions(UiRole::ListItem, false, &none, false, false, false, true, Some(false)),
        vec![NativeAction::Expand]
    );
}

#[test]
fn secure_fields_and_read_only_controls_never_offer_ordinary_set_value() {
    let none: Vec<String> = Vec::new();
    assert_eq!(
        actions(UiRole::TextField, true, &none, true, true, false, false, None),
        vec![NativeAction::Focus]
    );
    assert!(
        actions(UiRole::TextField, false, &none, false, false, false, false, None).is_empty()
    );
    assert_eq!(
        actions(UiRole::TextField, false, &none, false, true, false, false, None),
        vec![NativeAction::SetValue]
    );
    assert!(actions(UiRole::Other, false, &none, false, true, false, false, None).is_empty());
}

#[test]
fn repeated_controls_resolve_using_semantic_ancestry_not_ordinal() {
    let first = metadata("row-first");
    let second = metadata("row-second");
    let locator = locator_of(&first, "com.apple.finder", Some(0));
    assert!(matches_locator(&first, &locator, NativeAction::Invoke));
    assert!(!matches_locator(&second, &locator, NativeAction::Invoke));
    assert!(!matches_locator(&first, &locator, NativeAction::SetValue));
    let mut disabled = first.clone();
    disabled.node.enabled = false;
    assert!(!matches_locator(&disabled, &locator, NativeAction::Invoke));
}

#[test]
fn public_names_redact_secrets_and_bound_length() {
    for value in [
        "person@example.org",
        "Bearer abc",
        "apikey_test",
        "Password",
        "123456789",
    ] {
        assert_eq!(redact(value), "redacted control");
    }
    assert_eq!(redact(&"中".repeat(100)).chars().count(), 80);
    assert_ne!(hash("value one"), hash("value two"));
    assert_eq!(hash("row context"), hash("row context"));
}

#[test]
fn native_roles_and_predicates_match_shared_verifier_contract() {
    assert_eq!(role("AXTextArea"), UiRole::TextField);
    assert_eq!(role("AXRow"), UiRole::ListItem);
    assert_eq!(role("AXUnknown"), UiRole::Other);
    for (action, effect) in [
        (NativeAction::Invoke, "invoke_target_changed_or_disappeared"),
        (NativeAction::Toggle, "target_toggle_changed"),
        (NativeAction::Select, "target_selected"),
        (NativeAction::Focus, "target_focused"),
        (NativeAction::SetValue, "target_value_changed"),
    ] {
        assert!(kind(action).is_ok());
        let predicates = effects(action, "target");
        assert_eq!(predicates[0].name, effect);
        let argument = predicates[0]
            .arguments
            .iter()
            .find(|a| a.key == "target")
            .unwrap();
        assert_eq!(argument.value, "target");
    }
    assert!(kind(NativeAction::Scroll).is_err());
    assert!(effects(NativeAction::Scroll, "target").is_empty());
}

#[test]
fn local_risk_does_not_require_confirmation_for_ordinary_workflow_steps() {
    assert_eq!(
        risk(NativeAction::Invoke, &Some("Open".to_string())),
        RiskClass::Reversible
    );
    assert_eq!(
        risk(NativeAction::Invoke, &Some("发送".to_string())),
        RiskClass::ExternalCommit
    );
    assert_eq!(
        risk(NativeAction::Invoke, &Some("永久删除".to_string())),
        RiskClass::DestructiveCritical
    );
    assert_eq!(risk(NativeAction::SetValue, &None), RiskClass::BoundedWrite);
}

#[test]
fn same_named_windows_do_not_share_ephemeral_action_authority() {
    assert!(check_window_binding(17, 17).is_ok());
    assert!(check_window_binding(17, 18).is_err());
    assert!(check_window_binding(0, 0).is_err());
    assert!(window_is_unique(true, true, 1));
    assert!(!window_is_unique(true, true, 2));
    assert!(!window_is_unique(false, true, 1));
    assert!(!window_is_unique(true, false, 1));
}

#[test]
fn timed_out_observation_is_an_error_and_traversal_keeps_node_and_depth_bounds() {
    let now = 1_000_000;
    assert!(check_deadline(now, now - 1).is_err());
    assert!(check_deadline(now, now + 60_000).is_ok());
    assert_eq!(child_capacity(200, 20, 30, 5), 149);
    assert_eq!(child_capacity(200, 199, 0, 5), 0);
    assert_eq!(child_capacity(200, 0, 0, 24), 0);
    assert_eq!(child_capacity(200, 0, 0, 23), 199);
}

#[test]
fn closed_menus_do_not_expand_unless_the_branch_is_explicitly_requested() {
    assert!(!descend_menu("AXMenuBarItem", false, None, None, false));
    assert!(!descend_menu(
        "AXMenuItem",
        false,
        Some(false),
        Some(false),
        false
    ));
    assert!(descend_menu("AXMenuBar", false, None, None, false));
    assert!(descend_menu("AXMenu", false, None, None, false));
    assert!(descend_menu("AXMenuBarItem", true, None, None, false));
    assert!(descend_menu(
        "AXMenuBarItem",
        false,
        None,
        Some(true),
        false
    ));
    assert!(descend_menu("AXMenuItem", false, Some(true), None, false));
}

#[test]
fn all_unique_observed_actions_remain_available_beyond_the_previous_37_limit() {
    let rows: Vec<Metadata> = (0..80)
        .map(|index| metadata(&format!("row-{index}")))
        .collect();
    let ranked = ranked_actions("Open", &rows);
    assert_eq!(ranked.len(), 80);
    let mut ambiguous = rows.clone();
    ambiguous.push(rows[0].clone());
    assert_eq!(ranked_actions("Open", &ambiguous).len(), 79);
}

#[test]
fn candidate_description_preserves_menu_origin_and_redacted_parent_context() {
    let mut item = metadata("preferences");
    item.origin = "menu".into();
    item.ancestors = vec![
        SemanticContext {
            role: Some(UiRole::Menu),
            automation_id: Some(MENU_SCOPE_ID.into()),
            accessible_name: Some("menu bar".into()),
        },
        SemanticContext {
            role: Some(UiRole::MenuItem),
            automation_id: None,
            accessible_name: Some("Apple".into()),
        },
    ];
    assert!(scope_is_menu(&item.ancestors));
    let label = describe(&item, NativeAction::Invoke);
    assert!(label.contains("menu / menu bar > Apple"));
    item.ancestors[1].accessible_name = Some("person@example.org".into());
    assert!(!describe(&item, NativeAction::Invoke).contains("person@example.org"));
    assert!(!scope_is_menu(&metadata("window-row").ancestors));
}

#[test]
fn replay_restores_deep_region_using_stable_ancestors_and_fresh_runtime_ids() {
    let mut outer = metadata("unused");
    outer.node.opaque_id = "fresh-outer".into();
    outer.node.role = UiRole::Other;
    outer.identifier = Some("outer-panel".into());
    outer.raw_name = Some("Preferences".into());
    outer.ancestors.clear();
    let outer_context = SemanticContext {
        role: Some(outer.node.role),
        automation_id: outer.identifier.clone(),
        accessible_name: outer.raw_name.clone(),
    };
    let mut inner = outer.clone();
    inner.node.opaque_id = "fresh-inner".into();
    inner.identifier = Some("notification-settings".into());
    inner.raw_name = Some("Notifications".into());
    inner.ancestors = vec![outer_context.clone()];
    let inner_context = SemanticContext {
        role: Some(inner.node.role),
        automation_id: inner.identifier.clone(),
        accessible_name: inner.raw_name.clone(),
    };
    let mut target = metadata("unused");
    target.node.opaque_id = "fresh-target".into();
    target.ancestors = vec![outer_context, inner_context];
    let locator = locator_of(&target, "app.test", None);
    assert_eq!(
        replay_resolution(&vec![outer.clone()], &locator).unwrap(),
        ReplayResolution::Region("fresh-outer".into())
    );
    assert_eq!(
        replay_resolution(&vec![outer, inner.clone()], &locator).unwrap(),
        ReplayResolution::Region("fresh-inner".into())
    );
    assert_eq!(
        replay_resolution(&vec![inner, target], &locator).unwrap(),
        ReplayResolution::Target
    );
    assert!(!format!("{locator:?}").contains("fresh-"));
}

#[test]
fn replay_rejects_ambiguous_regions_and_does_not_ignore_parent_context() {
    let mut target = metadata("intended-row");
    let locator = locator_of(&target, "app.test", None);
    assert!(replay_resolution(&vec![target.clone(), target.clone()], &locator).is_err());
    target.ancestors[0].automation_id = Some("different-row".into());
    assert!(replay_resolution(&vec![target], &locator).is_err());
    assert!(replay_resolution(&Vec::new(), &locator).is_err());
}

fn snapshot(fingerprint: &str, token: u64, rows: Vec<Metadata>) -> AxSnapshot {
    AxSnapshot {
        fingerprint: fingerprint.into(),
        app: AppIdentity {
            id: "app.test".into(),
            display_name: "Test".into(),
        },
        window: WindowIdentity {
            id: "axw:1".into(),
            title: "Main".into(),
        },
        metadata: rows,
        truncated: false,
        window_token: token,
        window_unique: true,
    }
}

fn anywhere() -> ObservationScope {
    ObservationScope {
        app_id: None,
        window_id: None,
        subtree_id: None,
    }
}

#[test]
fn candidate_is_carried_out_only_as_it_was_issued() {
    let mut adapter = MacosAccessibilityAdapter::new(50);
    let seen = adapter.accept(snapshot("a", 17, vec![metadata("row")]), &anywhere(), 5);
    assert_eq!(seen.revision, 1);
    let issued = adapter.build("Open", &seen).unwrap();
    let one = issued
        .iter()
        .find(|c| c.target.as_deref() == Some("axe:button"))
        .unwrap();
    assert_eq!(adapter.authorize(&seen, one).unwrap().window_token, 17);
    assert!(adapter.semantic_locator(one).is_some());
    let mut forged = one.clone();
    forged.local_risk = RiskClass::ReadOnly;
    assert!(adapter.authorize(&seen, &forged).is_err());
    let later = adapter.accept(snapshot("b", 17, vec![metadata("row")]), &anywhere(), 6);
    assert_eq!(later.revision, 2);
    assert!(adapter.current(&seen).is_err());
    assert!(adapter.authorize(&seen, one).is_err());
}

#[test]
fn saved_control_is_rebuilt_where_it_stands_once() {
    let mut adapter = MacosAccessibilityAdapter::new(50);
    let row = metadata("row");
    let mut locator = locator_of(&row, "app.test", Some(3));
    locator.window_id = Some("axw:1".into());
    let seen = adapter.accept(snapshot("a", 17, vec![row.clone()]), &anywhere(), 5);
    let again = adapter
        .rebuild_semantic_candidate(&locator, NativeAction::Invoke, &seen, Ok(()))
        .unwrap();
    assert!(adapter.authorize(&seen, &again).is_ok());
    let twice = adapter.accept(snapshot("b", 17, vec![row.clone(), row]), &anywhere(), 6);
    assert!(adapter
        .rebuild_semantic_candidate(&locator, NativeAction::Invoke, &twice, Ok(()))
        .is_err());
    assert!(adapter
        .rebuild_semantic_candidate(
            &locator,
            NativeAction::Invoke,
            &twice,
            Err(AutomationError::Execution("changed".to_string()))
        )
        .is_err());
}

#[test]
fn saved_control_is_looked_for_in_a_window_that_is_the_only_one() {
    let mut adapter = MacosAccessibilityAdapter::new(50);
    let row = metadata("row");
    let locator = locator_of(&row, "app.test", None);
    let seen = adapter.accept(snapshot("a", 17, vec![row.clone()]), &anywhere(), 5);
    assert_eq!(
        adapter.resolve_saved(&seen, &locator).unwrap(),
        ReplayResolution::Target
    );
    let mut doubled = snapshot("b", 17, vec![row]);
    doubled.window_unique = false;
    let later = adapter.accept(doubled, &anywhere(), 6);
    assert_eq!(
        adapter.resolve_saved(&later, &locator).unwrap_err().detail(),
        "saved AX window identity is ambiguous; select a unique window before replay"
    );
    assert!(adapter.resolve_saved(&seen, &locator).is_err());
}
