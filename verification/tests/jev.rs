use nuphus::jev::{
    external_text, is_retryable_status, parse_retry_after_at, reply_fault, request_fault,
    retry_backoff, retry_delay, retry_jitter, ChoiceAnswer, DecisionInput, JevClient, JevConfig,
    JevError, ReqwestSystemOneTransport, RetryRun, SystemOneRequest, SystemOneResponse,
    SystemOneUsage, TryEvent, TryStep, NEXT_ACTION,
};
use nuphus::types::{
    ActionCandidate, AppIdentity, AutomationError, CandidateKind, DecisionUsage, Observation,
    RiskClass, WindowIdentity,
};

const MILLISECOND: u128 = 1_000_000;
const SECOND: u128 = 1_000_000_000;

/// The largest jitter.
const FULL: u16 = 65_535;

fn candidate(id: &str, kind: CandidateKind, description: &str) -> ActionCandidate {
    ActionCandidate {
        id: id.into(),
        observation_revision: 1,
        target: None,
        kind,
        public_description: description.into(),
        local_risk: RiskClass::ReadOnly,
        preconditions: vec![],
        expected_effects: vec![],
    }
}

fn input() -> DecisionInput {
    let mut export = candidate("export", CandidateKind::Invoke, "Open Export");
    export.target = Some("button".into());
    DecisionInput {
        goal: "open export".into(),
        observation: Observation {
            revision: 1,
            fingerprint: "f".into(),
            app: AppIdentity {
                id: "app".into(),
                display_name: "App".into(),
            },
            window: WindowIdentity {
                id: "main".into(),
                title: "Report".into(),
            },
            nodes: vec![],
            captured_at_ms: 0,
            truncated: false,
        },
        candidates: vec![
            export,
            candidate("ask_user", CandidateKind::AskUser, "Ask the user"),
        ],
        recent_actions: vec![],
    }
}

fn config() -> JevConfig {
    JevConfig {
        enabled: true,
        api_key: "test-only-placeholder".into(),
        base_url: "https://jev.example".into(),
        model: "jev-test".into(),
        timeout_ms: 5_000,
        max_retries: 2,
    }
}

/// A reply with a choice, the probabilities of the ids and a confidence.
fn response(choice: &str, probabilities: &[(&str, f64)], confidence: f64) -> SystemOneResponse {
    let fits = |p: f64| p.is_finite() && (0.0..=1.0).contains(&p);
    let sum: f64 = probabilities.iter().map(|p| p.1).sum();
    let chosen = probabilities
        .iter()
        .find(|p| p.0 == choice)
        .map(|p| p.1)
        .unwrap_or(-1.0);
    SystemOneResponse {
        model: "jev-test".into(),
        answers: vec![(
            NEXT_ACTION.to_string(),
            ChoiceAnswer {
                kind: "choice".into(),
                choice: choice.into(),
                ids: probabilities.iter().map(|p| p.0.to_string()).collect(),
                confidence_valid: fits(confidence),
                probabilities_valid: probabilities.iter().all(|p| fits(p.1)),
                sums_to_one: (sum - 1.0).abs() < 0.02,
                choice_is_highest: probabilities.iter().all(|p| p.1 <= chosen),
            },
        )],
        usage: SystemOneUsage {
            input_tokens: 10,
            output_tokens: 2,
        },
    }
}

#[test]
fn transport_retries_only_transient_http_statuses() {
    for status in [408, 429, 500, 503, 529, 599] {
        assert!(is_retryable_status(status));
    }
    for status in [400, 401, 403, 404, 422] {
        assert!(!is_retryable_status(status));
    }
}

#[test]
fn retry_after_ms_takes_precedence_over_retry_after_seconds() {
    let asked = parse_retry_after_at(Some("750"), Some("3"), 0);
    assert_eq!(asked, Some(750 * MILLISECOND));
    assert_eq!(retry_delay(asked, 0, FULL), 750 * MILLISECOND);
}

#[test]
fn retry_after_supports_numeric_seconds() {
    assert_eq!(
        parse_retry_after_at(None, Some("2"), 0),
        Some(2 * SECOND)
    );
}

#[test]
fn retry_after_supports_http_date() {
    let date = "Sun, 06 Nov 1994 08:49:37 GMT";
    let target = chrono::DateTime::parse_from_rfc2822(date).unwrap();
    let now = (target.timestamp() as u128 - 7) * SECOND;
    assert_eq!(
        parse_retry_after_at(None, Some(date), now),
        Some(7 * SECOND)
    );
}

#[test]
fn invalid_or_excessive_retry_after_uses_bounded_backoff() {
    let invalid = parse_retry_after_at(None, Some("later"), 0);
    assert_eq!(retry_delay(invalid, 0, 0), 500 * MILLISECOND);
    let excessive = parse_retry_after_at(Some("60001"), None, 0);
    assert_eq!(retry_delay(excessive, 1, 0), SECOND);
}

#[test]
fn exponential_backoff_has_bounded_subtractive_jitter_and_cap() {
    assert_eq!(retry_backoff(0, 0), 500);
    assert_eq!(retry_backoff(0, FULL), 375);
    assert_eq!(retry_backoff(3, 0), 4_000);
    assert_eq!(retry_backoff(3, FULL), 3_000);
    assert_eq!(retry_backoff(20, 0), 5_000);
    assert_eq!(retry_backoff(20, FULL), 3_750);
}

#[test]
fn fake_transport_returns_strict_candidate_choice() {
    let client = JevClient::with_transport(config());
    let request = client.build_request(&input()).unwrap();
    assert_eq!(request.question.kind, "choice");
    let reply = response("export", &[("ask_user", 0.1), ("export", 0.9)], 0.8);
    let decision = client.validate_response(&input(), &reply).unwrap();
    assert_eq!(decision.candidate_id, "export");
    assert_eq!(decision.actual_model.as_deref(), Some("jev-test"));
    assert_eq!(
        decision.usage,
        Some(DecisionUsage {
            input_tokens: 10,
            output_tokens: 2,
        })
    );
}

#[test]
fn rejects_choice_that_is_not_a_highest_probability_option() {
    let client = JevClient::with_transport(config());
    let reply = response("ask_user", &[("ask_user", 0.1), ("export", 0.9)], 0.95);
    let error = client.validate_response(&input(), &reply).unwrap_err();
    assert!(error
        .message()
        .contains("selected Choice is not a highest-probability option"));
}

#[test]
fn rejects_probabilities_that_name_one_id_twice() {
    let client = JevClient::with_transport(config());
    let reply = response("export", &[("export", 0.5), ("export", 0.5)], 0.8);
    let error = client.validate_response(&input(), &reply).unwrap_err();
    assert!(error
        .message()
        .contains("Choice probabilities must exactly cover the offered ids"));
}

#[test]
fn rejects_choice_outside_candidate_space() {
    let client = JevClient::with_transport(config());
    let reply = response(
        "invented-coordinate-click",
        &[("ask_user", 0.1), ("export", 0.9)],
        0.8,
    );
    let error = client.validate_response(&input(), &reply).unwrap_err();
    assert!(error.message().contains("outside the offered action space"));
}

/// All that leaves with a request.
fn sent(request: &SystemOneRequest) -> String {
    format!("{request:?}")
}

#[test]
fn request_contains_no_coordinates_or_script_fields() {
    let client = JevClient::with_transport(config());
    let request = client.build_request(&input()).unwrap();
    let text = sent(&request);
    assert!(!text.contains(" x: "));
    assert!(!text.contains(" y: "));
    assert!(!text.contains("script"));
    assert!(!text.contains("nodes"));
    assert!(!text.contains("short_value"));
    assert!(!text.contains("test-only-placeholder"));
    let export = request
        .question
        .criteria
        .iter()
        .find(|c| c.id == "export")
        .unwrap();
    assert!(!export.text.contains("Open Export"));
    let action = request
        .state
        .actions
        .iter()
        .find(|a| a.id == "export")
        .unwrap();
    assert_eq!(action.label, "Open Export");
    assert_eq!(request.state.observation_incomplete, false);
}

#[test]
fn transport_accepts_only_https_or_explicit_loopback_http() {
    let mut config = config();
    config.base_url = "http://127.0.0.1:8080".into();
    assert!(ReqwestSystemOneTransport::from_config(&config).is_ok());
    config.base_url = "http://localhost:8080".into();
    assert!(ReqwestSystemOneTransport::from_config(&config).is_ok());
    config.base_url = "http://example.com".into();
    assert!(ReqwestSystemOneTransport::from_config(&config).is_err());
    config.base_url = "https://example.com/".into();
    assert!(ReqwestSystemOneTransport::from_config(&config).is_ok());
    config.base_url = "no address".into();
    match ReqwestSystemOneTransport::from_config(&config) {
        Err(JevError::InvalidEndpoint(_)) => {}
        _ => panic!("the address is no address"),
    }
}

#[test]
fn request_redacts_common_secret_and_local_path_shapes() {
    let client = JevClient::with_transport(config());
    let mut input = input();
    input.goal = "send user@example.com apikey_secret C:\\private\\report.txt 123456789".into();
    input.candidates[0].public_description = "Open /Users/alice/private.txt".into();
    let text = sent(&client.build_request(&input).unwrap());
    for sensitive in [
        "user@example.com",
        "apikey_secret",
        "C:\\\\private",
        "/Users/alice",
        "123456789",
    ] {
        assert!(!text.contains(sensitive), "request leaked {sensitive}");
    }
    assert!(text.contains("[redacted]"));
}

#[test]
fn request_needs_the_service_and_proper_candidates() {
    let mut off = config();
    off.enabled = false;
    assert_eq!(
        JevClient::with_transport(off.clone())
            .build_request(&input())
            .unwrap_err(),
        JevError::Disabled
    );
    match ReqwestSystemOneTransport::from_config(&off) {
        Err(JevError::Disabled) => {}
        _ => panic!("it is switched off"),
    }
    let mut keyless = config();
    keyless.api_key = "  ".into();
    match ReqwestSystemOneTransport::from_config(&keyless) {
        Err(JevError::MissingApiKey) => {}
        _ => panic!("there is no key"),
    }
    let client = JevClient::with_transport(config());
    let mut none = input();
    none.candidates.clear();
    assert!(client
        .build_request(&none)
        .unwrap_err()
        .message()
        .contains("Choice requires between 1 and 255 candidates"));
    let mut twice = input();
    let again = twice.candidates[0].clone();
    twice.candidates.push(again);
    assert!(client
        .build_request(&twice)
        .unwrap_err()
        .message()
        .contains("candidate ids must be non-empty and unique"));
}

#[test]
fn odd_replies_are_refused() {
    let client = JevClient::with_transport(config());
    let refused = |reply: SystemOneResponse| client.validate_response(&input(), &reply).is_err();
    assert!(refused(response("export", &[("export", 1.0)], 0.8)));
    assert!(refused(response(
        "export",
        &[("ask_user", 0.4), ("export", 0.9)],
        0.8
    )));
    assert!(refused(response(
        "export",
        &[("ask_user", 0.1), ("export", 0.9)],
        f64::NAN
    )));
    let mut silent = response("export", &[("ask_user", 0.1), ("export", 0.9)], 0.8);
    silent.answers.clear();
    assert!(refused(silent));
    let mut other = response("export", &[("ask_user", 0.1), ("export", 0.9)], 0.8);
    other.answers[0].1.kind = "text".into();
    assert!(refused(other));
}

#[test]
fn texts_are_cut_and_hidden() {
    assert_eq!(external_text("a b", 10), "a b");
    assert_eq!(external_text("mail me@x.org now", 100), "mail [redacted] now");
    assert_eq!(external_text("abcdef", 3), "abc");
}

#[test]
fn request_is_made_again_a_few_times() {
    let mut run = RetryRun {
        attempt: 0,
        max_retries: 2,
    };
    let busy = TryEvent::Reply {
        status: 503,
        asked: None,
    };
    assert_eq!(run.advance(busy.clone(), 0), TryStep::Wait(500 * MILLISECOND));
    assert_eq!(
        run.advance(
            TryEvent::NoReply {
                transient: true,
                error: "reset".into()
            },
            0
        ),
        TryStep::Wait(SECOND)
    );
    assert_eq!(run.advance(busy, 0), TryStep::Fail(JevError::HttpStatus(503)));
    let mut run = RetryRun {
        attempt: 0,
        max_retries: 2,
    };
    assert_eq!(
        run.advance(
            TryEvent::Reply {
                status: 200,
                asked: None
            },
            0
        ),
        TryStep::Accept
    );
    assert_eq!(
        run.advance(
            TryEvent::Reply {
                status: 401,
                asked: None
            },
            0
        ),
        TryStep::Fail(JevError::HttpStatus(401))
    );
}

#[test]
fn jitter_differs_from_try_to_try() {
    assert_ne!(retry_jitter(1, 0), retry_jitter(1, 1));
    assert_eq!(
        request_fault(&JevError::Disabled),
        AutomationError::Decision("Jev is disabled".into())
    );
    assert_eq!(
        reply_fault(&JevError::Disabled),
        AutomationError::Protocol("Jev is disabled".into())
    );
}
