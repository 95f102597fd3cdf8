use nuphus::error::{AgentError, LLMError, NuphusError, StoreError};
use nuphus::locate::{offers, Want};
use nuphus::region_walk::{Platform, RegionWalk, MAX_ROUNDS};
use nuphus::semantics::{
    descending, expected_effects, has_long_number, kind_of, predicate, redact, risk_of, tokens_of,
};
use nuphus::tool::{ToolCall, ToolResult};
use nuphus::types::{
    CandidateKind, NativeAction, RiskClass, SemanticContext, SemanticLocator, UiRole,
};

#[test]
fn private_names_are_hidden_and_long_ones_cut() {
    assert_eq!(redact("Save"), "Save");
    assert_eq!(redact("mail me@x.y"), "redacted control");
    assert_eq!(redact("Card 1234567890123456"), "redacted control");
    assert_eq!(redact("My PASSWORD"), "redacted control");
    assert_eq!(redact("密码"), "redacted control");
    assert_eq!(redact(&"长".repeat(81)), "长".repeat(80));
    assert!(!has_long_number("12 34"));
}

#[test]
fn goals_are_cut_into_words() {
    assert_eq!(tokens_of("Save the DOCUMENT, now"), vec!["Save", "the", "DOCUMENT", "now"]);
}

#[test]
fn risk_follows_action_and_name() {
    let critical = vec!["delete"];
    let risk = |action, name: &str| risk_of(action, &Some(name.to_string()), &critical);
    assert_eq!(risk(NativeAction::SetValue, "x"), RiskClass::BoundedWrite);
    assert_eq!(risk(NativeAction::Focus, "Delete"), RiskClass::Reversible);
    assert_eq!(risk(NativeAction::Invoke, "DELETE all"), RiskClass::DestructiveCritical);
    assert_eq!(risk(NativeAction::Invoke, "Send"), RiskClass::ExternalCommit);
    assert_eq!(risk(NativeAction::Invoke, "Save"), RiskClass::BoundedWrite);
    assert_eq!(risk(NativeAction::Invoke, "Next"), RiskClass::Reversible);
}

#[test]
fn actions_have_kinds_and_effects() {
    assert_eq!(kind_of(NativeAction::Invoke), Some(CandidateKind::Invoke));
    let p = predicate("enabled", "t");
    assert_eq!((p.name.as_str(), p.arguments.len()), ("enabled", 1));
    assert!(!expected_effects(NativeAction::Toggle, "t").is_empty());
    assert!(offers(&vec![NativeAction::Focus], NativeAction::Focus));
    assert!(!offers(&Vec::new(), NativeAction::Focus));
    match Want::saved(&None) {
        Want::Any => {}
        _ => panic!("nothing was saved"),
    }
}

#[test]
fn best_scores_come_first_and_ties_keep_their_order() {
    assert_eq!(descending(&vec![1, 5, 3, 5]), vec![1, 3, 2, 0]);
}

fn locator(depth: usize) -> SemanticLocator {
    SemanticLocator {
        app_id: "app".into(),
        window_id: Some("w".into()),
        window_title: None,
        role: Some(UiRole::Button),
        automation_id: None,
        accessible_name: None,
        ancestor_chain: (0..depth)
            .map(|i| SemanticContext {
                role: Some(UiRole::List),
                automation_id: Some(format!("a{i}")),
                accessible_name: None,
            })
            .collect(),
        supported_action: Some(NativeAction::Invoke),
        ordinal_hint: None,
    }
}

#[test]
fn walk_ends_at_the_target_or_after_its_rounds() {
    let mut walk = RegionWalk::begin(Platform::Windows, &locator(1));
    assert_eq!(walk.rounds, 3);
    assert!(walk.in_time(false).is_ok());
    assert_eq!(
        walk.in_time(true).unwrap_err().detail(),
        "Saved UIA region resolution timed out"
    );
    assert!(walk.advance(None).unwrap());
    let mut walk = RegionWalk::begin(Platform::Windows, &locator(1));
    assert!(!walk.advance(Some("r1".to_string())).unwrap());
    assert_eq!(walk.scope.subtree_id.as_deref(), Some("r1"));
    assert!(walk.advance(Some("r1".to_string())).is_err());
    let mut walk = RegionWalk::begin(Platform::Macos, &locator(40));
    let mut rounds = 0;
    loop {
        rounds += 1;
        match walk.advance(Some(format!("r{rounds}"))) {
            Ok(arrived) => assert!(!arrived),
            Err(e) => {
                assert_eq!(
                    e.detail(),
                    "saved AX ancestor resolution exceeded its bounded depth"
                );
                break;
            }
        }
    }
    assert_eq!(rounds, MAX_ROUNDS);
}

#[test]
fn errors_say_what_went_wrong() {
    assert_eq!(
        NuphusError::agent("x".to_string()).message(),
        NuphusError::Agent(AgentError::Other("x".to_string())).message()
    );
    let shown = NuphusError::LLM(LLMError::ApiError { status: 503, body: "busy".to_string() }).message();
    assert!(shown.contains("503") && shown.contains("busy"));
    let shown = AgentError::AmbiguousId { id: "ab".to_string(), count: 3 }.message();
    assert!(shown.contains("ab") && shown.contains('3'));
    assert!(StoreError::QueryFailed("q".to_string()).message().contains('q'));
}

#[test]
fn results_of_tools_are_handed_on() {
    let call = ToolCall::new("read".to_string(), "{}".to_string());
    assert_eq!(call.id.len(), 36);
    assert_ne!(call.id, ToolCall::new("read".to_string(), "{}".to_string()).id);
    assert_eq!(
        ToolResult::success("out".to_string()).into_exec_result(),
        Ok("out".to_string())
    );
    let mut failed = ToolResult::failure("bad".to_string());
    assert_eq!(failed.shown(), "bad");
    failed.exit_code = Some(-2);
    assert_eq!(
        failed.into_exec_result(),
        Err("__EXIT_CODE:-2__ bad".to_string())
    );
}
