use nuphus::agent::WorkflowAgent;
use nuphus::ax::{self, execution_failure, observation_failure, WorkerFailure};
use nuphus::desktop::{rec_cancel_current, screen_centers};
use nuphus::error::NuphusError;
use nuphus::prompt::{EnvFacts, SkillInfo};
use nuphus::types::{NativeAction, SemanticContext};
use nuphus::uia::{dispatch_failure, dispatch_receipt, dispatch_value};
use nuphus::uia_tree::{semantic_ancestor_chain, semantic_context, MenuClimb, Reached, CLIMB_LIMIT};

#[test]
fn text_is_handed_over_for_text_entry_only() {
    let text = Some("words".to_string());
    assert_eq!(dispatch_value(NativeAction::SetValue, &text).unwrap(), text);
    assert_eq!(
        dispatch_value(NativeAction::SetValue, &None).unwrap_err().detail(),
        "SetValue requires caller-provided text at dispatch time"
    );
    assert_eq!(dispatch_value(NativeAction::Invoke, &text).unwrap(), None);
    assert!(dispatch_value(NativeAction::Scroll, &None).is_err());
    let receipt = dispatch_receipt("c", NativeAction::Invoke);
    assert!(receipt.dispatched);
    assert_eq!(receipt.candidate_id, "c");
    assert!(receipt.detail.unwrap().starts_with("Windows UIA "));
}

#[test]
fn ancestors_are_named_from_the_window_down() {
    let context = |name: &str| {
        semantic_context(Some(50008), &Some(format!("id-{name}")), &None)
    };
    let near = context("near");
    let far = context("far");
    assert!(near.is_some());
    let ids = |list: Vec<SemanticContext>| -> Vec<Option<String>> {
        list.into_iter().map(|c| c.automation_id).collect()
    };
    let chain = ids(semantic_ancestor_chain(&vec![near, None, far]));
    assert_eq!(
        chain,
        vec![Some("id-far".to_string()), Some("id-near".to_string())]
    );
}

#[test]
fn nothing_is_placed_without_a_capture() {
    assert!(screen_centers(&None, &Vec::new()).is_empty());
    rec_cancel_current();
    assert!(NuphusError::llm("busy".to_string()).message().contains("busy"));
}

#[test]
fn prompt_of_the_agent_is_built_once() {
    let mut agent = WorkflowAgent::new(
        "model".to_string(),
        "User".to_string(),
        "Nu".to_string(),
        false,
        None,
    );
    agent.set_source("desktop");
    agent.set_internal_input(true);
    assert_eq!(agent.source, "desktop");
    assert!(agent.internal_input);
    let facts = EnvFacts {
        os: "linux".to_string(),
        arch: "x86_64".to_string(),
        cwd: None,
        project_dir: String::new(),
        language: "zh-CN".to_string(),
        date: "2026-01-02".to_string(),
        root: "/opt".to_string(),
        self_knowledge: false,
        configured_project_dir: false,
        doorbell_available: false,
        doorbell_port: 0,
        doorbell_token: String::new(),
    };
    let build = |agent: &mut WorkflowAgent, tenets: &str| {
        agent.build_system_prompt(
            None,
            &Vec::new(),
            &facts,
            "provider",
            "schemas",
            &vec!["Read".to_string()],
            &Vec::<SkillInfo>::new(),
            tenets,
            None,
        )
    };
    let first = build(&mut agent, "tenet one");
    assert!(!first.is_empty());
    assert_eq!(build(&mut agent, "tenet two"), first);
    agent.set_llm("other".to_string(), None);
    assert_eq!(agent.model_label(), "other");
    assert_ne!(build(&mut agent, "tenet two"), first);
}

#[test]
fn outermost_menu_of_the_focused_control_is_found() {
    let own = |handle| Some(Reached { handle, process: Some(7) });
    let mut climb = MenuClimb::focused_menu_root(own(1), 7).unwrap();
    assert!(climb.advance(false, Some(50011), own(2)));
    assert!(climb.advance(false, Some(50009), own(3)));
    assert!(climb.advance(false, Some(50010), own(4)));
    assert!(!climb.advance(false, Some(50032), Some(Reached { handle: 5, process: Some(8) })));
    assert_eq!(climb.menu, Some(3));
    let other = Some(Reached { handle: 1, process: None });
    assert!(MenuClimb::focused_menu_root(other, 7).is_none());
    assert!(MenuClimb::focused_menu_root(None, 7).is_none());
    let mut long = MenuClimb::focused_menu_root(own(1), 7).unwrap();
    let mut looks = 1;
    while long.advance(false, None, own(looks)) {
        looks += 1;
    }
    assert_eq!(looks, CLIMB_LIMIT as u64);
    let mut late = MenuClimb::focused_menu_root(own(1), 7).unwrap();
    assert!(!late.advance(true, Some(50009), own(2)));
    assert_eq!(late.menu, None);
}

#[test]
fn failures_of_native_work_are_told() {
    assert_eq!(dispatch_failure("denied").detail(), "UIA dispatch failed: denied");
    assert_eq!(
        observation_failure(WorkerFailure::TimedOut).detail(),
        "AX observation timed out"
    );
    assert_eq!(
        execution_failure(WorkerFailure::TimedOut).detail(),
        "AX action timed out; reobserve before retrying"
    );
    for failure in [WorkerFailure::Busy, WorkerFailure::Stopped] {
        assert_eq!(
            observation_failure(failure).detail(),
            execution_failure(failure).detail()
        );
    }
    let receipt = ax::dispatch_receipt("c");
    assert!(receipt.dispatched && receipt.candidate_id == "c");
}
