use nuphus::runner::{
    locator_scope, validate_candidates, AutomationRunner, Phase, Provider, Run, RunEvent,
    MENU_SCOPE_ID,
};
use nuphus::types::{
    ActionCandidate, ActionReceipt, AppIdentity, AutomationError, CandidateKind, Decision,
    ExecutionInput, Observation, PolicyDecision, RiskClass, RunLimits, RunOutcome, RunStatus, SemanticContext,
    SemanticLocator, TraceEvent, TraceEventKind, Verification, WindowIdentity,
};

fn limits() -> RunLimits {
    RunLimits {
        soft_max_steps: 8,
        hard_max_steps: 12,
        soft_max_elapsed_ms: 60_000,
        hard_max_elapsed_ms: 120_000,
        max_stall_count: 3,
    }
}

fn observation(revision: u64, fingerprint: &str) -> Observation {
    Observation {
        revision,
        fingerprint: fingerprint.into(),
        app: AppIdentity {
            id: "editor".into(),
            display_name: "Editor".into(),
        },
        window: WindowIdentity {
            id: "main".into(),
            title: "Document".into(),
        },
        nodes: vec![],
        captured_at_ms: 0,
        truncated: false,
    }
}

/// The candidates for an observation: the end where it shows one, else a press.
fn build(observation: &Observation) -> Vec<ActionCandidate> {
    let done = observation.fingerprint == "done";
    vec![ActionCandidate {
        id: if done { "done".into() } else { "invoke-save".into() },
        observation_revision: observation.revision,
        target: Some("save-button".into()),
        kind: if done {
            CandidateKind::Done
        } else {
            CandidateKind::Invoke
        },
        public_description: "Save document".into(),
        local_risk: RiskClass::Reversible,
        preconditions: vec![],
        expected_effects: vec![],
    }]
}

/// How often each provider was asked.
#[derive(Default)]
struct Calls {
    normal: usize,
    enhanced: usize,
}

/// Carries out a run with a desktop that shows these observations in turn.
fn drive(
    mut run: Run,
    mut observations: Vec<Observation>,
) -> (Result<RunOutcome, AutomationError>, Calls) {
    let mut calls = Calls::default();
    let mut look = move || {
        if observations.len() > 1 {
            observations.remove(0)
        } else {
            observations[0].clone()
        }
    };
    for _ in 0..1000 {
        let event = match &run.phase {
            Phase::Start => RunEvent::Clock(0),
            Phase::Observing
            | Phase::Refreshing { .. }
            | Phase::Watching { .. }
            | Phase::Rewatching { .. } => RunEvent::Observed(look()),
            Phase::Building { observation } => RunEvent::Offered(build(observation)),
            Phase::Deciding { candidates, .. } => {
                match run.provider() {
                    Provider::Jev => calls.enhanced += 1,
                    Provider::Normal => calls.normal += 1,
                }
                RunEvent::Decided(Decision {
                    candidate_id: candidates[0].id.clone(),
                    actual_model: None,
                    usage: None,
                })
            }
            Phase::Judging { .. } => RunEvent::Judged(PolicyDecision::Allow),
            Phase::Dispatching { candidate, input, .. } => {
                assert_eq!(input, &ExecutionInput::default());
                RunEvent::Executed(ActionReceipt {
                    candidate_id: candidate.id.clone(),
                    dispatched: true,
                    detail: None,
                })
            }
            Phase::Verifying { after, .. } | Phase::Reverifying { after, .. } => {
                RunEvent::Verified(if after.fingerprint == "done" {
                    Verification::Achieved
                } else {
                    Verification::NoChange
                })
            }
            Phase::Finished { .. } | Phase::Failed { .. } => break,
        };
        run.advance(event);
    }
    match run.outcome() {
        Some(outcome) => (outcome, calls),
        None => panic!("the run did not end"),
    }
}

#[test]
fn fake_components_complete_the_bounded_loop() {
    let runner = AutomationRunner::new(limits());
    let (outcome, _) = drive(
        runner.run(false),
        vec![
            observation(1, "ready"),
            observation(1, "ready"),
            observation(2, "done"),
            observation(2, "done"),
        ],
    );
    let outcome = outcome.unwrap();
    assert_eq!(outcome.status, RunStatus::Completed);
    assert_eq!(outcome.executed_steps, 1);
}

/// How many entries of a kind a trace holds.
fn entries(trace: &[TraceEvent], kind: TraceEventKind) -> usize {
    trace.iter().filter(|t| t.kind == kind).count()
}

#[test]
fn a_trace_tells_of_each_step_and_of_the_end() {
    let runner = AutomationRunner::new(limits());
    for shown in [
        vec![observation(1, "done")],
        vec![observation(1, "ready")],
        vec![
            observation(1, "ready"),
            observation(1, "ready"),
            observation(2, "done"),
            observation(2, "done"),
        ],
    ] {
        let (outcome, _) = drive(runner.run(false), shown);
        let outcome = outcome.unwrap();
        assert_eq!(
            entries(&outcome.trace, TraceEventKind::Executed),
            outcome.executed_steps as usize
        );
        assert_eq!(entries(&outcome.trace, TraceEventKind::Stopped), 1);
        assert_eq!(
            outcome.trace.last().map(|t| t.kind),
            Some(TraceEventKind::Stopped)
        );
    }
}

#[test]
fn the_mode_of_a_run_names_its_provider() {
    let runner = AutomationRunner::new(limits()).with_jev_decider();
    assert_eq!(runner.run(false).provider(), Provider::Normal);
    let mut run = runner.run(true);
    assert_eq!(run.provider(), Provider::Jev);
    run.advance(RunEvent::Clock(0));
    run.advance(RunEvent::Observed(observation(1, "ready")));
    assert_eq!(run.provider(), Provider::Jev);
}

#[test]
fn enhanced_off_never_calls_jev_provider() {
    let runner = AutomationRunner::new(limits()).with_jev_decider();
    let (outcome, calls) = drive(runner.run(false), vec![observation(1, "done")]);
    assert_eq!(outcome.unwrap().status, RunStatus::Completed);
    assert_eq!(calls.normal, 1);
    assert_eq!(calls.enhanced, 0);
}

#[test]
fn enhanced_done_requires_primary_model_confirmation() {
    let runner = AutomationRunner::new(limits()).with_jev_decider();
    let (outcome, calls) = drive(runner.run(true), vec![observation(1, "done")]);
    let outcome = outcome.unwrap();
    assert_eq!(outcome.status, RunStatus::NeedsAttention);
    assert_eq!(calls.normal, 0);
    assert_eq!(calls.enhanced, 1);
    assert!(outcome
        .trace
        .last()
        .is_some_and(|event| event.detail.contains("primary model confirmation")));
}

#[test]
fn enhanced_run_needs_its_provider() {
    let runner = AutomationRunner::new(limits());
    let (outcome, _) = drive(runner.run(true), vec![observation(1, "ready")]);
    match outcome {
        Err(AutomationError::EnhancedUnavailable(_)) => {}
        _ => panic!("there is no provider"),
    }
}

#[test]
fn standstill_ends_the_run() {
    let runner = AutomationRunner::new(limits());
    let (outcome, _) = drive(runner.run(false), vec![observation(1, "ready")]);
    let outcome = outcome.unwrap();
    assert_ne!(outcome.status, RunStatus::Completed);
    assert!(outcome.executed_steps <= 12);
}

#[test]
fn refused_action_is_not_dispatched() {
    let mut run = AutomationRunner::new(limits()).run(false);
    run.advance(RunEvent::Clock(0));
    run.advance(RunEvent::Observed(observation(1, "ready")));
    run.advance(RunEvent::Offered(build(&observation(1, "ready"))));
    run.advance(RunEvent::Decided(Decision {
        candidate_id: "invented".into(),
        actual_model: None,
        usage: None,
    }));
    match run.outcome() {
        Some(Err(AutomationError::UnknownCandidate(_))) => {}
        _ => panic!("the choice was not offered"),
    }
}

#[test]
fn candidates_must_be_of_the_observation() {
    let seen = observation(3, "ready");
    assert!(validate_candidates(&seen, &build(&seen)).is_ok());
    assert!(validate_candidates(&seen, &Vec::new()).is_err());
    assert!(validate_candidates(&seen, &build(&observation(2, "ready"))).is_err());
    let mut twice = build(&seen);
    twice.push(twice[0].clone());
    assert!(validate_candidates(&seen, &twice).is_err());
}

#[test]
fn saved_menu_control_is_looked_for_in_menus() {
    let mut locator = SemanticLocator {
        app_id: "app".into(),
        window_id: None,
        window_title: None,
        role: None,
        automation_id: None,
        accessible_name: None,
        ancestor_chain: vec![SemanticContext {
            role: None,
            automation_id: Some(MENU_SCOPE_ID.into()),
            accessible_name: None,
        }],
        supported_action: None,
        ordinal_hint: None,
    };
    assert_eq!(
        locator_scope(&locator).subtree_id.as_deref(),
        Some("@menu")
    );
    locator.ancestor_chain.clear();
    assert_eq!(locator_scope(&locator).subtree_id, None);
}

/// A run whose only candidate was chosen and waits for the policy.
fn judged() -> Run {
    let mut run = AutomationRunner::new(limits()).run(false);
    run.advance(RunEvent::Clock(0));
    run.advance(RunEvent::Observed(observation(1, "ready")));
    run.advance(RunEvent::Offered(build(&observation(1, "ready"))));
    run.advance(RunEvent::Decided(Decision {
        candidate_id: "invoke-save".into(),
        actual_model: None,
        usage: None,
    }));
    assert!(matches!(run.phase, Phase::Judging { .. }));
    run
}

#[test]
fn action_is_dispatched_only_once_all_agree() {
    let mut run = judged();
    run.advance(RunEvent::Observed(observation(1, "ready")));
    assert!(matches!(run.phase, Phase::Judging { .. }));
    run.advance(RunEvent::Judged(PolicyDecision::Allow));
    assert!(matches!(run.phase, Phase::Refreshing { .. }));
    run.advance(RunEvent::Observed(observation(1, "ready")));
    match &run.phase {
        Phase::Dispatching { fresh, candidate, input } => {
            assert_eq!(fresh.revision, candidate.observation_revision);
            assert_eq!(candidate.id, "invoke-save");
            assert_eq!(input.value, None);
        }
        _ => panic!("the action was not dispatched"),
    }
    assert_eq!(run.executed_steps, 0);
}

#[test]
fn action_is_not_dispatched_where_one_objects() {
    for (decision, status) in [
        (PolicyDecision::Deny("no".into()), RunStatus::FailedSafely),
        (PolicyDecision::NeedsConfirmation("ask".into()), RunStatus::WaitingForUser),
        (PolicyDecision::NeedsIncrementalGrant("ask".into()), RunStatus::WaitingForUser),
    ] {
        let mut run = judged();
        run.advance(RunEvent::Judged(decision));
        let outcome = run.outcome().unwrap().unwrap();
        assert_eq!(outcome.status, status);
        assert_eq!(outcome.executed_steps, 0);
    }
    for changed in [observation(2, "ready"), observation(1, "moved")] {
        let mut run = judged();
        run.advance(RunEvent::Judged(PolicyDecision::Allow));
        run.advance(RunEvent::Observed(changed));
        assert!(matches!(run.phase, Phase::Start));
        assert_eq!(run.executed_steps, 0);
    }
}
