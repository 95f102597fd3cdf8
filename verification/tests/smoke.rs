use nuphus::smoke::{
    accepted, decision_evidence, direct_document_write, document_matches, missing_key,
    only_provider, options, reply_tells, selected_model, static_window_handle, task_text, workflow_evidence,
    Asked, Evidence, Json, Piece,
};

fn text(s: &str) -> Json {
    Json::Text(s.to_string())
}

fn object(members: Vec<(&str, Json)>) -> Json {
    Json::Object(members.into_iter().map(|(k, v)| (k.to_string(), v)).collect())
}

#[test]
fn smoke_rejects_saved_handles_but_accepts_runtime_capture_and_stable_locator() {
    let with = |key: &str, value| object(vec![("with", object(vec![(key, value)]))]);
    assert!(static_window_handle(&with("hwnd", Json::Other)));
    assert!(static_window_handle(&with("hwnd", text("{params.window.hwnd}"))));
    assert!(!static_window_handle(&with("hwnd", text("{{current_window.hwnd}}"))));
    assert!(!static_window_handle(&with("target_locator", text("{params.locator}"))));
}

#[test]
fn smoke_rejects_file_or_script_bypass_inside_nested_workflow() {
    let (desktop, bypass) = workflow_evidence(&Json::List(vec![object(vec![(
        "do",
        object(vec![(
            "seq",
            Json::List(vec![
                object(vec![("do", object(vec![("tool", text("desktop_input"))]))]),
                object(vec![(
                    "do",
                    object(vec![(
                        "script",
                        object(vec![("runtime", text("python")), ("code", text("..."))]),
                    )]),
                )]),
            ]),
        )]),
    )])]));
    assert!(desktop && bypass);
    assert_eq!(
        workflow_evidence(&object(vec![(
            "do",
            object(vec![("tool", text("desktop_semantic_action"))])
        )])),
        (true, false)
    );
    assert_eq!(
        workflow_evidence(&object(vec![("tool", text("browser_open"))])),
        (false, true)
    );
}

fn ask(id: &str, name: &str) -> Piece {
    Piece::Use {
        id: id.to_string(),
        name: name.to_string(),
        input: Json::Other,
    }
}

fn answer(id: &str, content: &str, failed: bool) -> Piece {
    Piece::Result {
        use_id: id.to_string(),
        content: content.to_string(),
        failed,
    }
}

fn decided() -> &'static str {
    r#"{"decision": {"provider": "jev", "candidate": 3}}"#
}

#[test]
fn decisions_count_after_they_were_asked_for() {
    let pieces = vec![
        answer("a", decided(), false),
        ask("a", "desktop_agent_step"),
        ask("b", "desktop_mouse"),
        answer("a", decided(), false),
        answer("a", decided(), true),
        answer("b", decided(), false),
        answer("a", "not json", false),
        answer("a", r#"{"decision": "jev"}"#, false),
        answer("a", r#"{"decision": {"provider": "normal"}}"#, false),
        answer("a", r#"{"status": "needs_primary_decision"}"#, false),
        answer("a", r#"{"status": "done"}"#, false),
    ];
    assert_eq!(decision_evidence(&pieces), (1, 1));
    let both = r#"{"status": "needs_primary_decision", "decision": {"provider": "jev"}}"#;
    assert_eq!(
        decision_evidence(&vec![ask("a", "desktop_agent_step"), answer("a", both, false)]),
        (1, 1)
    );
}

#[test]
fn an_answer_tells_by_its_provider_and_its_status() {
    assert_eq!(reply_tells(Some("jev"), None), (true, false));
    assert_eq!(reply_tells(Some("normal"), Some("needs_primary_decision")), (false, true));
    assert_eq!(reply_tells(None, Some("done")), (false, false));
}

#[test]
fn document_is_not_written_behind_the_editor() {
    let write = |key: &str, path: &str| Piece::Use {
        id: "w".to_string(),
        name: "Write".to_string(),
        input: object(vec![(key, text(path))]),
    };
    assert!(direct_document_write(&vec![ask("x", "Bash")], "a.txt"));
    assert!(direct_document_write(&vec![write("file_path", "/tmp/a.txt")], "a.txt"));
    assert!(!direct_document_write(&vec![write("file_path", "/tmp/b.txt")], "a.txt"));
    assert!(!direct_document_write(&vec![write("content", "a.txt")], "a.txt"));
    assert!(document_matches("\u{feff} line \n", "line"));
    assert!(!document_matches("line more", "line"));
}

fn read(list: &[&str]) -> Result<Asked, String> {
    let args = list.iter().map(|s| s.to_string()).collect();
    options(&args, Some("/c".to_string()), "/out".to_string(), true)
}

#[test]
fn arguments_are_read() {
    match read(&["--run", "--mode", "normal", "--keyboard", "--timeout-secs", "30"]).unwrap() {
        Asked::Run(o) => {
            assert!(!o.enhanced && o.keyboard);
            assert_eq!(o.timeout_secs, 30);
            assert_eq!(o.config.base, "/c");
            assert_eq!(o.config.parts, vec!["nuphus/providers.toml"]);
            assert_eq!(o.output_root.base, "/out");
        }
        other => panic!("{other:?}"),
    }
    match read(&["--run", "--config", "/p.toml", "--output-root", "/o"]).unwrap() {
        Asked::Run(o) => {
            assert!(o.config.parts.is_empty());
            assert_eq!((o.config.base.as_str(), o.output_root.base.as_str()), ("/p.toml", "/o"));
            assert_eq!(o.timeout_secs, 600);
        }
        other => panic!("{other:?}"),
    }
    assert!(matches!(read(&[]).unwrap(), Asked::Idle));
    assert!(matches!(read(&["-h", "--what"]).unwrap(), Asked::Help));
    for (args, words) in [
        (vec!["--mode", "fast"], "--mode 只能为 normal 或 enhanced"),
        (vec!["--config"], "--config 缺少路径"),
        (vec!["--output-root"], "--output-root 缺少路径"),
        (vec!["--timeout-secs"], "--timeout-secs 缺少数值"),
        (vec!["--timeout-secs", "x"], "超时必须为整数秒"),
        (vec!["--timeout-secs", "29"], "超时范围为 30–1800 秒"),
        (vec!["--what"], "未知参数；使用 --help 查看用法"),
    ] {
        assert_eq!(read(&args).unwrap_err(), words);
    }
    let run = vec!["--run".to_string()];
    assert_eq!(
        options(&run, Some("/c".to_string()), "/out".to_string(), false).unwrap_err(),
        "此验收 example 暂只支持 Windows / macOS"
    );
    assert_eq!(
        options(&run, None, "/out".to_string(), true).unwrap_err(),
        "找不到用户配置目录，请传 --config"
    );
}

#[test]
fn model_of_the_run_is_chosen() {
    let some = |s: &str| Some(s.to_string());
    assert_eq!(
        selected_model(some(""), some("p"), some("l"), "r".to_string(), some("h")),
        ("r".to_string(), some("h"))
    );
    assert_eq!(
        selected_model(some("m"), some(""), some("l"), "r".to_string(), None),
        ("m".to_string(), some("l"))
    );
    assert_eq!(
        selected_model(some("m"), some("p"), some("l"), "r".to_string(), None),
        ("m".to_string(), some("p"))
    );
    assert_eq!(only_provider(None, &vec!["p".to_string()]), Ok("p".to_string()));
    assert!(only_provider(None, &Vec::new()).is_err());
    assert!(only_provider(None, &vec!["p".to_string(), "q".to_string()]).is_err());
    assert_eq!(missing_key(false, ""), None);
    assert!(missing_key(true, " ").is_some());
    let task = task_text("/d/a.txt", "a.txt", "/w", "line", true, false);
    assert!(task.contains("/d/a.txt（窗口标题包含 a.txt）"));
    assert!(task.contains("\nline\n") && task.contains("到 /w/desktop-smoke/workflow.json"));
    assert!(task.contains("增强模式已经开启") && task.contains("输入方式沿用本地可用能力。"));
}

#[test]
fn run_is_accepted_by_all_its_evidence() {
    let good = Evidence {
        agent_success: true,
        workflow_run_success: true,
        document_matches: true,
        replays_desktop_action: true,
        workflow_contains_bypass: false,
        direct_document_write_or_shell: false,
        contains_static_window_handle: false,
        enhanced_decision_responses: 0,
    };
    assert!(accepted(&good, false));
    assert!(!accepted(&good, true));
    let decided = Evidence { enhanced_decision_responses: 1, ..good };
    assert!(accepted(&decided, true));
    assert!(!accepted(&Evidence { workflow_contains_bypass: true, ..decided }, true));
    assert!(!accepted(&Evidence { contains_static_window_handle: true, ..decided }, true));
}
