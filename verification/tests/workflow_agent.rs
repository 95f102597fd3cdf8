use nuphus::agent::{store_turn_memory, WorkflowAgent};
use nuphus::tool::{ToolCall, ToolResult};
use nuphus::workflow::{
    delivery_warning_level, exec_params, needs_png, resolve_workflow_id, user_input_result,
    workflow_of, workflow_run_result, workflow_validate_result, Block, Breaker, ContextReading,
    Effect, GuardReport, Opening, Picture, Surroundings, Turn, TurnEvent, TurnPhase,
    ValidationReport, WorkflowAgentConfig, MAX_RETRIES,
};

fn opening(input: &str) -> Opening {
    Opening {
        input: input.to_string(),
        images: None,
        internal: false,
        source: "desktop".to_string(),
        tools: vec!["read".to_string(), "write".to_string()],
        session_id: "s-1".to_string(),
        session_empty: false,
        memory_tail: None,
        memory_path: "/data/workflow-memory.md".to_string(),
    }
}

/// The memories among effects.
fn memories(effects: &[Effect]) -> Vec<(String, String, bool)> {
    effects
        .iter()
        .filter_map(|e| match e {
            Effect::StoreMemory { input, message, success } => {
                Some((input.clone(), message.clone(), *success))
            }
            _ => None,
        })
        .collect()
}

#[test]
fn workflow_iteration_budget_is_bounded_but_supports_complex_flows() {
    let max = WorkflowAgentConfig::default().max_iterations;
    assert!((160..=200).contains(&max));
}

#[test]
fn delivery_warnings_progress_at_expected_tool_budgets() {
    assert_eq!(delivery_warning_level(23), 0);
    assert_eq!(delivery_warning_level(24), 1);
    assert_eq!(delivery_warning_level(47), 1);
    assert_eq!(delivery_warning_level(48), 2);
    assert_eq!(delivery_warning_level(95), 2);
    assert_eq!(delivery_warning_level(96), 3);
    assert_eq!(delivery_warning_level(500), 3);
}

fn call(tool: &str) -> ToolCall {
    ToolCall {
        id: "c1".to_string(),
        tool: tool.to_string(),
        params: "{}".to_string(),
    }
}

fn calm(refusal: Option<Option<String>>) -> GuardReport {
    GuardReport {
        alert: None,
        refusal,
        safety_failures: 0,
        warnings: Vec::new(),
        breaker: Breaker::Calm,
        after_alert: None,
    }
}

/// Drives a turn whose model answers with these calls in turn, then with none.
fn drive(turn: &mut Turn, mut replies: Vec<Vec<ToolCall>>) -> Vec<Effect> {
    let mut effects = Vec::new();
    for _ in 0..500 {
        effects.extend(turn.take_effects());
        let event = match &turn.phase {
            TurnPhase::Boundary => TurnEvent::Cancelled(false),
            TurnPhase::Draining | TurnPhase::Redraining => TurnEvent::Appended(None),
            TurnPhase::Pausing => TurnEvent::Paused(None),
            TurnPhase::Measuring => TurnEvent::Measured(ContextReading {
                level: 0,
                percent: 10,
                usage: 1,
                window: 10,
            }),
            TurnPhase::Preparing { .. } => TurnEvent::Prepared {
                reminder: None,
                notices: Vec::new(),
            },
            TurnPhase::Calling { .. } => TurnEvent::Replied {
                blocks: vec![Block::Text { text: "words".to_string() }],
                calls: if replies.is_empty() { Vec::new() } else { replies.remove(0) },
            },
            TurnPhase::Guarding { .. } => TurnEvent::Guarded(calm(None)),
            TurnPhase::Executing { .. } => TurnEvent::Ran {
                result: ToolResult::success("out".to_string()),
                action: None,
                duration_ms: 5,
            },
            TurnPhase::Filtering { output, .. } => TurnEvent::Shown {
                text: output.clone(),
                alert: None,
                cancelled: false,
            },
            TurnPhase::Done { .. } | TurnPhase::Broken { .. } => break,
            other => panic!("{other:?}"),
        };
        turn.advance(event);
    }
    effects.extend(turn.take_effects());
    effects
}

#[test]
fn turn_runs_tools_until_the_model_has_no_more() {
    let config = WorkflowAgentConfig::default();
    let mut turn = Turn::begin(&config, 0, &opening("do it"));
    let effects = drive(&mut turn, vec![vec![call("read")], vec![call("read"), call("write")]]);
    let output = turn.outcome().unwrap().unwrap();
    assert!(output.success);
    assert_eq!(output.message, "words");
    assert_eq!(turn.tool_call_count, 3);
    assert_eq!(turn.steps.len(), 3);
    assert_eq!(turn.tools_used, vec!["read", "write"]);
    let started = effects
        .iter()
        .filter(|e| matches!(e, Effect::ShowToolStart { .. }))
        .count();
    assert_eq!(started, 3);
    assert_eq!(
        memories(&effects),
        vec![("do it".to_string(), "words".to_string(), true)]
    );
    assert!(matches!(effects.last(), Some(Effect::StoreMemory { .. })));
}

#[test]
fn cancelled_turn_runs_nothing_more() {
    let config = WorkflowAgentConfig::default();
    let mut turn = Turn::begin(&config, 0, &opening("do it"));
    turn.advance(TurnEvent::Cancelled(true));
    let output = turn.outcome().unwrap().unwrap();
    assert!(!output.success);
    assert_eq!(turn.tool_call_count, 0);
    assert_eq!(
        memories(&turn.take_effects()),
        vec![("do it".to_string(), "任务已被用户中断".to_string(), false)]
    );
    let ended = turn.phase.clone();
    turn.advance(TurnEvent::Cancelled(false));
    assert_eq!(turn.phase, ended);
}

#[test]
fn turn_ends_after_its_iterations() {
    let config = WorkflowAgentConfig { max_iterations: 3 };
    let mut turn = Turn::begin(&config, 0, &opening("do it"));
    drive(&mut turn, (0..9).map(|_| vec![call("read")]).collect());
    assert_eq!(turn.tool_call_count, 3);
    assert!(turn.outcome().is_some());
}

#[test]
fn failed_call_of_the_model_is_tried_again() {
    let config = WorkflowAgentConfig::default();
    let mut turn = Turn::begin(&config, 0, &opening("do it"));
    let mut failures = 0;
    for _ in 0..100 {
        let event = match &turn.phase {
            TurnPhase::Boundary => TurnEvent::Cancelled(false),
            TurnPhase::Draining | TurnPhase::Redraining => TurnEvent::Appended(None),
            TurnPhase::Pausing => TurnEvent::Paused(None),
            TurnPhase::Measuring => TurnEvent::Measured(ContextReading {
                level: 0,
                percent: 10,
                usage: 1,
                window: 10,
            }),
            TurnPhase::Preparing { .. } => TurnEvent::Prepared {
                reminder: None,
                notices: Vec::new(),
            },
            TurnPhase::Calling { .. } => {
                failures += 1;
                TurnEvent::CallFailed {
                    network: true,
                    message: "reset".to_string(),
                }
            }
            _ => break,
        };
        turn.advance(event);
    }
    assert_eq!(failures, MAX_RETRIES + 1);
    assert!(turn.outcome().unwrap().is_err());
    assert_eq!(
        memories(&turn.take_effects()),
        vec![("do it".to_string(), "reset".to_string(), false)]
    );
}

#[test]
fn workflow_is_named_by_a_part_that_fits_one() {
    let ids = vec!["abc-1".to_string(), "abd-2".to_string()];
    assert_eq!(resolve_workflow_id("abc-1", &ids), Ok("abc-1".to_string()));
    assert_eq!(resolve_workflow_id("abd", &ids), Ok("abd-2".to_string()));
    assert!(resolve_workflow_id("ab", &ids).is_err());
    assert_eq!(resolve_workflow_id("x", &ids), Ok("x".to_string()));
}

#[test]
fn outcomes_become_results_of_tools() {
    assert!(workflow_run_result(Ok("fine".to_string()), false).success);
    assert!(!workflow_run_result(Err("bad".to_string()), false).success);
    assert!(!workflow_run_result(Ok("fine".to_string()), true).success
        || !workflow_run_result(Err("stop".to_string()), true).success);
    assert!(user_input_result(Some("{\"a\":1}".to_string())).success);
    assert!(!user_input_result(None).success);
}

#[test]
fn workflow_is_read_from_the_parameters() {
    assert_eq!(workflow_of("{\"id\": \"abc\"}"), "abc");
    assert_eq!(workflow_of("{\"id\": 7}"), "");
    assert_eq!(workflow_of("not json"), "");
    let config = WorkflowAgentConfig::default();
    let mut turn = Turn::begin(&config, 0, &opening("do it"));
    let mut run = call("workflow_run");
    run.params = "{\"id\": \"ab\"}".to_string();
    turn.phase = TurnPhase::Executing {
        calls: vec![run],
        index: 0,
    };
    turn.advance(TurnEvent::Listed {
        ids: vec!["abc".to_string(), "xyz".to_string()],
    });
    match &turn.phase {
        TurnPhase::Running { workflow_id, .. } => assert_eq!(workflow_id, "abc"),
        other => panic!("{other:?}"),
    }
}

/// A turn that is about to run one call.
fn executing(call: ToolCall) -> Turn {
    let config = WorkflowAgentConfig::default();
    let mut turn = Turn::begin(&config, 0, &opening("do it"));
    turn.take_effects();
    turn.phase = TurnPhase::Executing {
        calls: vec![call],
        index: 0,
    };
    turn
}

#[test]
fn turn_that_is_halted_is_remembered() {
    let config = WorkflowAgentConfig::default();
    let mut turn = Turn::begin(&config, 0, &opening("do it"));
    turn.phase = TurnPhase::Guarding {
        calls: vec![call("delete")],
        index: 0,
    };
    let mut report = calm(Some(Some("denied".to_string())));
    report.breaker = Breaker::Halt;
    report.safety_failures = 9;
    turn.advance(TurnEvent::Guarded(report));
    let message = "执行中止: 连续 9 次安全检查未通过".to_string();
    let output = turn.outcome().unwrap().unwrap();
    assert!(!output.success);
    assert_eq!(output.message, message);
    let effects = turn.take_effects();
    let stored = memories(&effects);
    assert_eq!(stored, vec![("do it".to_string(), message, false)]);
    assert!(effects.iter().any(|e| matches!(e, Effect::StripIncomplete)));
    let (input, message, success) = &stored[0];
    let entry = store_turn_memory(
        &turn.session_id,
        3,
        input,
        message,
        *success,
        &turn.tools_used,
        &turn.steps,
        &Vec::new(),
    )
    .unwrap();
    assert_eq!(entry.session_id, "s-1");
    assert_eq!(entry.user_message.text, "do it");
    assert!(!entry.success);
}

#[test]
fn an_agent_runs_as_it_was_told() {
    let config = WorkflowAgentConfig::default();
    let around = || Surroundings {
        tools: vec!["read".to_string(), "write".to_string()],
        session_id: "s-1".to_string(),
        session_empty: false,
        memory_tail: None,
        memory_path: "/data/workflow-memory.md".to_string(),
    };
    let mut agent = WorkflowAgent::new(
        "m".to_string(),
        "用户".to_string(),
        "Nuphus".to_string(),
        false,
        None,
    );
    let effects = agent.run(&config, 0, "do it", None, around()).take_effects();
    assert_eq!(
        effects,
        Turn::begin(&config, 0, &opening("do it")).take_effects()
    );
    agent.set_source("mobile");
    agent.set_internal_input(true);
    let mut turn = agent.run(&config, 0, "do it", None, around());
    let effects = turn.take_effects();
    assert!(!effects.iter().any(|e| matches!(e, Effect::PushUser(_))));
    assert!(effects
        .iter()
        .any(|e| matches!(e, Effect::ShowStarted { source, .. } if source == "mobile")));
    let effects = drive(&mut turn, vec![]);
    assert_eq!(memories(&effects).len(), 1);
    assert_eq!(memories(&effects)[0].0, "do it");
}

#[test]
fn turn_opens_in_order() {
    let config = WorkflowAgentConfig::default();
    let mut o = opening("do it");
    o.session_empty = true;
    o.memory_tail = Some(" learned \n".to_string());
    let effects = Turn::begin(&config, 0, &o).take_effects();
    assert_eq!(effects.len(), 7);
    assert!(matches!(effects[0], Effect::SetRunning));
    assert!(matches!(effects[1], Effect::ClearAppends));
    match &effects[2] {
        Effect::PushUser(words) => {
            assert!(words.contains("\nlearned\n\n当前 session id：s-1\n"));
        }
        other => panic!("{other:?}"),
    }
    assert!(matches!(effects[3], Effect::AdvanceTurn));
    assert!(matches!(&effects[4], Effect::PushUser(words) if words == "do it"));
    match &effects[5] {
        Effect::ShowUser { content, source, images } => {
            assert_eq!(content, "do it");
            assert_eq!(source, "desktop");
            assert!(images.is_empty());
        }
        other => panic!("{other:?}"),
    }
    match &effects[6] {
        Effect::ShowStarted { goal, tools, source, mode } => {
            assert_eq!(goal, "do it");
            assert_eq!(tools, &vec!["read".to_string(), "write".to_string()]);
            assert_eq!(source, "desktop");
            assert_eq!(*mode, "workflow");
        }
        other => panic!("{other:?}"),
    }
    o.internal = true;
    o.session_empty = false;
    let effects = Turn::begin(&config, 0, &o).take_effects();
    assert_eq!(effects.len(), 4);
    assert!(matches!(effects[3], Effect::ShowStarted { .. }));
}

#[test]
fn bitmap_is_shown_as_png_where_it_could_be_converted() {
    assert!(needs_png("data:image/bmp;base64,Qk0="));
    assert!(!needs_png("data:image/png;base64,AA=="));
    let picture = |url: &str, png: Option<&str>| Picture {
        url: url.to_string(),
        png: png.map(str::to_string),
    };
    assert_eq!(picture("data:image/bmp;x", Some("png")).shown(), "png");
    assert_eq!(picture("data:image/bmp;x", None).shown(), "data:image/bmp;x");
    assert_eq!(picture("https://a/b.png", Some("png")).shown(), "https://a/b.png");
    let config = WorkflowAgentConfig::default();
    let mut o = opening("");
    o.images = Some(vec![
        picture("data:image/bmp;x", Some("png")),
        picture("https://a/b.png", None),
    ]);
    let effects = Turn::begin(&config, 0, &o).take_effects();
    match &effects[3] {
        Effect::PushUserBlocks(blocks) => {
            assert_eq!(
                blocks,
                &vec![
                    Block::Image { url: "png".to_string() },
                    Block::Image { url: "https://a/b.png".to_string() },
                ]
            );
        }
        other => panic!("{other:?}"),
    }
    match &effects[4] {
        Effect::ShowUser { images, .. } => {
            assert_eq!(images, &vec!["data:image/bmp;x".to_string(), "https://a/b.png".to_string()]);
        }
        other => panic!("{other:?}"),
    }
}

#[test]
fn memory_update_is_told_its_session() {
    assert_eq!(
        exec_params("workflow_memory_update", "{\"note\":\"x\",\"session_id\":\"forged\"}", "s-1"),
        "{\"note\":\"x\",\"session_id\":\"s-1\"}"
    );
    assert_eq!(exec_params("workflow_memory_update", "[1]", "s-1"), "[1]");
    assert_eq!(exec_params("workflow_memory_update", "no json", "s-1"), "no json");
    assert_eq!(exec_params("read", "{ }", "s-1"), "{ }");
    let mut update = call("workflow_memory_update");
    update.params = "{}".to_string();
    let turn = executing(update);
    assert_eq!(turn.tool_params(), Some("{\"session_id\":\"s-1\"}".to_string()));
    let mut idle = executing(call("read"));
    idle.phase = TurnPhase::Boundary;
    assert_eq!(idle.tool_params(), None);
}

#[test]
fn workflow_check_reports_what_it_found() {
    let report = Some(ValidationReport {
        passed: false,
        errors: "[\"no step\"]".to_string(),
        warnings: "[]".to_string(),
    });
    let found = workflow_validate_result("a", &report, None);
    assert!(found.success);
    assert_eq!(
        found.output.as_deref(),
        Some("{\"errors\":[\"no step\"],\"passed\":false,\"warnings\":[]}")
    );
    let broken = workflow_validate_result("a", &None, Some("bad yaml".to_string()));
    assert_eq!(broken.error.as_deref(), Some("bad yaml"));
    let missing = workflow_validate_result("a", &None, None);
    assert_eq!(missing.error.as_deref(), Some("Workflow 'a' not found"));

    let mut check = call("workflow_validate");
    check.params = "{\"id\": \"w\"}".to_string();
    let mut turn = executing(check);
    turn.advance(TurnEvent::Ran {
        result: ToolResult::success("forged".to_string()),
        action: None,
        duration_ms: 1,
    });
    assert!(matches!(turn.phase, TurnPhase::Executing { .. }));
    turn.advance(TurnEvent::Validated {
        report: None,
        load_error: None,
        duration_ms: 4,
    });
    match &turn.phase {
        TurnPhase::Filtering { output, success, .. } => {
            assert_eq!(output, "Workflow 'w' not found");
            assert!(!success);
        }
        other => panic!("{other:?}"),
    }
}

#[test]
fn workflow_tools_need_the_engine() {
    for (tool, error) in [
        ("workflow_run", "workflow_engine not injected to WorkflowAgent"),
        ("workflow_validate", "workflow_engine not injected"),
    ] {
        let mut turn = executing(call(tool));
        turn.advance(TurnEvent::NoEngine { duration_ms: 2 });
        match &turn.phase {
            TurnPhase::Filtering { output, success, .. } => {
                assert_eq!(output, error);
                assert!(!success);
            }
            other => panic!("{other:?}"),
        }
    }
    let mut turn = executing(call("read"));
    turn.advance(TurnEvent::NoEngine { duration_ms: 2 });
    assert!(matches!(turn.phase, TurnPhase::Executing { .. }));
}

#[test]
fn effects_do_not_depend_on_when_they_are_taken() {
    let config = WorkflowAgentConfig { max_iterations: 2 };
    let events = || {
        vec![
            TurnEvent::Cancelled(false),
            TurnEvent::Appended(None),
            TurnEvent::Paused(None),
            TurnEvent::Appended(None),
            TurnEvent::Measured(ContextReading {
                level: 2,
                percent: 80,
                usage: 8,
                window: 10,
            }),
            TurnEvent::Prepared {
                reminder: Some("mind".to_string()),
                notices: vec![String::new(), "note".to_string()],
            },
            TurnEvent::CallFailed {
                network: true,
                message: "reset".to_string(),
            },
            TurnEvent::Prepared {
                reminder: None,
                notices: Vec::new(),
            },
            TurnEvent::Replied {
                blocks: vec![Block::Text { text: "words".to_string() }],
                calls: vec![call("read")],
            },
            TurnEvent::Guarded(calm(Some(Some("denied".to_string())))),
            TurnEvent::Cancelled(true),
        ]
    };
    let mut whole = Turn::begin(&config, 0, &opening("do it"));
    let mut taken = Turn::begin(&config, 0, &opening("do it"));
    let mut pieces = taken.take_effects();
    for (a, b) in events().into_iter().zip(events()) {
        whole.advance(a);
        taken.advance(b);
        pieces.extend(taken.take_effects());
    }
    assert_eq!(whole.phase, taken.phase);
    assert!(matches!(whole.phase, TurnPhase::Done { success: false, .. }));
    assert_eq!(whole.take_effects(), pieces);
    assert_eq!(memories(&pieces).len(), 1);
}
