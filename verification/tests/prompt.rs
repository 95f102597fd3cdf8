use nuphus::prompt::{
    build_exec_prompt, build_l2_exec, build_l2_leader, build_leader_base_prompt,
    build_workagent_prompt, custom_knowledge_section, env_info_section, exec_blocked_tools,
    get_context_window_for, knowledge_files, mcp_tools_section, resolve_placeholders,
    skill_registry_section, tenets_section, tool_schemas_section, workflow_desktop_capabilities,
    EnvAudience, EnvFacts, GoalType, KnowledgeEntry, KnowledgeFile, LeaderContext, ModelWindow,
    RelationConfig, SkillInfo,
};

fn facts() -> EnvFacts {
    EnvFacts {
        os: "linux".to_string(),
        arch: "x86_64".to_string(),
        cwd: Some("/work".to_string()),
        project_dir: String::new(),
        language: "zh-CN".to_string(),
        date: "2026-01-02".to_string(),
        root: "/opt/nuphus".to_string(),
        self_knowledge: true,
        configured_project_dir: false,
        doorbell_available: true,
        doorbell_port: 8123,
        doorbell_token: "tok-1".to_string(),
    }
}

fn windows() -> Vec<ModelWindow> {
    vec![ModelWindow {
        model: "gemini-2.5-pro".to_string(),
        provider: Some("gw".to_string()),
        tokens: 2_000_000,
    }]
}

fn workagent(tool_schemas: &str) -> String {
    build_workagent_prompt(
        &windows(),
        &facts(),
        "test-model",
        None,
        false,
        tool_schemas,
        &Vec::new(),
        "用户",
        "Nuphus",
        None,
        &Vec::new(),
        "",
        None,
    )
}

#[test]
fn test_build_exec_prompt_keeps_display_label_out_of_resolution() {
    let real = "gemini-2.5-pro";
    let label = format!("{real} (gw)");
    let prompt = build_exec_prompt(
        &windows(),
        &facts(),
        real,
        Some("gw"),
        Some(&label),
        "schema",
        GoalType::ScriptingExec,
        "",
        None,
        false,
        None,
        "",
    );
    let expected = get_context_window_for(&windows(), real, Some("gw"));
    let expected_str = if expected >= 1_000_000 {
        format!("{}M", expected / 1_000_000)
    } else {
        format!("{}K", expected / 1_000)
    };
    assert!(prompt.contains(&format!(
        "当前模型: {label} (上下文 {expected_str}，supports_vision: false"
    )));
    assert_ne!(
        get_context_window_for(&windows(), &label, Some("gw")),
        expected
    );
}

#[test]
fn test_env_info_section_display_falls_back_to_model() {
    let section = env_info_section(
        &windows(),
        &facts(),
        "no-such-model-xyz",
        None,
        None,
        false,
        None,
        EnvAudience::SubAgent,
    );
    assert!(section.contains("当前模型: no-such-model-xyz (上下文 "));
}

#[test]
fn workflow_prompt_makes_enhanced_decision_primary() {
    let prompt = workagent("desktop_agent_step");
    assert!(
        prompt.contains("工具列表存在 `desktop_agent_step` 时，它是每个新桌面动作选择的首选入口")
    );
    assert!(prompt.contains("增强判断模型未配置、明确转交主模型、不可用"));
}

#[test]
fn workflow_prompt_converges_after_one_successful_real_run() {
    let prompt = workagent("desktop_semantic_observe workflow_run");
    assert!(prompt.contains("默认只要求一次真实 `workflow_run`"));
    assert!(prompt.contains("用户执行中追加的新指令代表最新最高优先级意图"));
    assert!(prompt.contains("核心路径跑通却继续研究旁支会阻碍交付"));
    assert!(!prompt.contains("干净环境连续 3 次成功"));
}

#[test]
fn workflow_desktop_routing_uses_registered_function_names() {
    let render = |names: &[&str]| {
        let names: Vec<String> = names.iter().map(|n| n.to_string()).collect();
        workflow_desktop_capabilities(&names)
    };
    let ordinary = render(&[
        "desktop_semantic_observe",
        "desktop_semantic_execute",
        "desktop_semantic_action",
    ]);
    assert!(ordinary.contains("当前桌面入口：desktop_semantic_observe"));
    assert!(ordinary.contains("当前未提供增强判断入口"));
    assert!(ordinary.contains("保存并重放"));
    let enhanced = render(&[
        "desktop_agent_step",
        "desktop_semantic_observe",
        "desktop_semantic_execute",
    ]);
    assert!(enhanced.contains("当前桌面入口：desktop_agent_step"));
    assert!(enhanced.contains("当前未提供语义动作重放"));
    // A tool whose description mentions others is registered under its own name alone.
    let missing = render(&["desktop_mouse"]);
    assert!(missing.contains("当前未提供完整桌面语义工具链"));
    assert!(!missing.contains("当前桌面入口："));
}

#[test]
fn placeholders_are_filled_in() {
    assert_eq!(
        resolve_placeholders("{user_label}/{assistant_name}/{user_label}", "A", "B"),
        "A/B/A"
    );
}

#[test]
fn skills_are_listed_with_their_labels() {
    assert_eq!(skill_registry_section(&Vec::new()), "");
    let skills = vec![
        SkillInfo {
            name: "pdf".to_string(),
            display_name: "PDF".to_string(),
            description: "reads".to_string(),
        },
        SkillInfo {
            name: "x".to_string(),
            display_name: String::new(),
            description: String::new(),
        },
    ];
    assert_eq!(
        skill_registry_section(&skills),
        "## 已安装技能\n（使用 `skill_read` 查看完整内容，`skill_query` 搜索知识）\n\n- `pdf` PDF — reads\n- `x` x — (无描述)"
    );
}

#[test]
fn notes_are_filtered_and_ordered() {
    let entry = |name: &str, ext: Option<&str>, is_file: bool| KnowledgeEntry {
        path: format!("/k/{name}"),
        file_name: name.to_string(),
        extension: ext.map(|e| e.to_string()),
        is_file,
    };
    let read = knowledge_files(&vec![
        entry("b.md", Some("md"), true),
        entry("a.MD", Some("MD"), true),
        entry("c.txt", Some("txt"), true),
        entry("d.md", Some("md"), false),
        entry("e", None, true),
    ]);
    let names: Vec<&str> = read.iter().map(|e| e.file_name.as_str()).collect();
    assert_eq!(names, vec!["a.MD", "b.md"]);
}

#[test]
fn blank_and_unread_notes_are_passed_over() {
    let file = |path: &str, content: Option<&str>| KnowledgeFile {
        path: path.to_string(),
        content: content.map(|c| c.to_string()),
    };
    assert_eq!(
        custom_knowledge_section(&vec![file("a", Some(" \n")), file("b", None)]),
        ""
    );
    assert_eq!(
        custom_knowledge_section(&vec![
            file("a", Some("one\n\n")),
            file("b", None),
            file("c", Some("two"))
        ]),
        "## 知识库\n--- a ---\none\n\n--- c ---\ntwo"
    );
}

#[test]
fn leader_addresses_the_person_by_name() {
    let plain = build_leader_base_prompt(&LeaderContext {
        soul: "  ".to_string(),
        relation: None,
    });
    assert!(plain.contains("你是 Nuphus，运行在"));
    assert!(plain.contains("用户的AI智慧协作伙伴"));
    assert!(!plain.contains("称谓规则"));
    assert!(!plain.contains("## Soul"));
    let named = build_leader_base_prompt(&LeaderContext {
        soul: " calm \n".to_string(),
        relation: Some(RelationConfig {
            user_label: "大王".to_string(),
            assistant_name: "丞相".to_string(),
            persona: "忠".to_string(),
        }),
    });
    assert!(named.contains("你是 丞相，运行在"));
    assert!(named.contains("始终以「大王」称呼对方"));
    assert!(named.contains("\n## Soul\n\ncalm\n\n**人格设定（Persona）**：忠\n"));
    let same = build_leader_base_prompt(&LeaderContext {
        soul: String::new(),
        relation: Some(RelationConfig {
            user_label: "USER".to_string(),
            assistant_name: String::new(),
            persona: String::new(),
        }),
    });
    assert!(!same.contains("称谓规则"));
}

#[test]
fn only_the_leader_is_told_the_token() {
    let section = |audience| {
        env_info_section(
            &windows(),
            &facts(),
            "m",
            Some(""),
            None,
            true,
            None,
            audience,
        )
    };
    let leader = section(EnvAudience::Leader);
    assert!(leader.contains(
        "外部任务门铃: POST http://127.0.0.1:8123/handoff (Header X-Handoff-Token: tok-1)"
    ));
    let sub = section(EnvAudience::SubAgent);
    assert!(!sub.contains("tok-1"));
    assert!(!sub.contains("门铃"));
    let closed = env_info_section(
        &windows(),
        &EnvFacts {
            doorbell_available: false,
            ..facts()
        },
        "m",
        None,
        None,
        true,
        None,
        EnvAudience::Leader,
    );
    assert!(closed.contains("门铃: 不可用（见日志）\n"));
}

#[test]
fn surroundings_are_told_line_by_line() {
    let section = env_info_section(
        &windows(),
        &EnvFacts {
            cwd: None,
            configured_project_dir: true,
            project_dir: "/p".to_string(),
            self_knowledge: false,
            ..facts()
        },
        "m",
        None,
        Some("M (x)"),
        false,
        Some("eye"),
        EnvAudience::SubAgent,
    );
    assert!(section.contains("当前模型: M (x) (上下文 128K，supports_vision: false)\n图像理解模型: eye（"));
    assert!(section.contains("\n工作目录: unknown\n项目目录: /p\n相对路径基准: 项目目录（绝对路径不受影响）\n语言偏好: zh-CN\n日期: 2026-01-02\n知识库目录: /opt/nuphus/plugin/knowledge\n"));
    assert!(section.ends_with("工作流目录: /opt/nuphus/plugin/workflows"));
}

#[test]
fn the_date_is_that_of_the_clock() {
    let today = facts().today();
    assert_eq!(today.date.len(), 10);
    assert!(today.date.as_str() >= "2024-01-01");
    assert_eq!(today.root, "/opt/nuphus");
}

#[test]
fn window_is_looked_up_by_model_and_provider() {
    assert_eq!(
        get_context_window_for(&windows(), "gemini-2.5-pro", Some("gw")),
        2_000_000
    );
    assert_eq!(
        get_context_window_for(&windows(), "gemini-2.5-pro", Some("other")),
        128_000
    );
    assert_eq!(get_context_window_for(&windows(), "x", Some("gw")), 128_000);
}

#[test]
fn leader_only_tools_are_blocked() {
    let tools = exec_blocked_tools();
    assert_eq!(tools.len(), 11);
    assert!(tools.contains(&"task_dispatch"));
    assert!(tools.contains(&"tenet_add"));
}

#[test]
fn every_goal_has_its_text() {
    let all = [
        (GoalType::ProjectAnalysis, "## ProjectAnalysis"),
        (GoalType::CodeGeneration, "## CodeGeneration"),
        (GoalType::DebugDiagnose, "## DebugDiagnose"),
        (GoalType::FileOperation, "## FileOperation"),
        (GoalType::ResearchQuery, "## ResearchQuery"),
        (GoalType::ScriptingExec, "## ScriptingExec"),
    ];
    for (goal, head) in all {
        assert!(build_l2_exec(goal).contains(head));
    }
    assert!(build_l2_leader().starts_with("# L2 Leader Constitution"));
}

#[test]
fn principles_and_servers_are_told_of() {
    assert_eq!(tenets_section(None), "");
    assert_eq!(tenets_section(Some("be kind".to_string())), "be kind");
    assert!(mcp_tools_section(None).contains("当前无法读取"));
    assert!(mcp_tools_section(Some(&Vec::new())).contains("当前无已配置的 server"));
    assert!(
        mcp_tools_section(Some(&vec!["a".to_string(), "b".to_string()]))
            .contains("已配置 2 个 MCP server：a / b。")
    );
    assert!(tool_schemas_section("[]").ends_with("工具列表（详细参数见 API tools 定义）：\n[]\n"));
}

#[test]
fn surroundings_are_moved_to_the_present_day() {
    let now = facts().today();
    assert_ne!(now.date, facts().date);
    assert_eq!(now.date.len(), 10);
    assert_eq!(&now.date[4..5], "-");
    assert_eq!(now.os, facts().os);
}
