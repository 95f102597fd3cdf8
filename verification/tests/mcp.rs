use nuphus::mcp::{
    call_tool, drop_server, get_or_create, get_or_create_with_config, get_pool, send_raw,
    spawn_with_cmd_fallback, time_limit, tool_call_params, CallEvent, CallPhase, Exchange,
    McpClient, Started, INITIALIZE, INITIALIZED,
};

#[test]
fn test_pool_initialization() {
    let pool = get_pool();
    assert_eq!(pool.get("any"), None);
}

#[test]
fn greeting_is_json() {
    let hello: serde_json::Value = serde_json::from_str(INITIALIZE).unwrap();
    assert_eq!(hello["id"], 0);
    assert_eq!(hello["method"], "initialize");
    assert_eq!(hello["params"]["protocolVersion"], "2024-11-05");
    assert_eq!(hello["params"]["clientInfo"]["name"], "nuphus");
    let ready: serde_json::Value = serde_json::from_str(INITIALIZED).unwrap();
    assert_eq!(ready["method"], "notifications/initialized");
}

#[test]
fn requests_are_numbered() {
    let mut client = McpClient::start("s", "npx", Started::Running).unwrap();
    let params = tool_call_params("open \"x\"", "{\"a\":1}");
    let first = client.call("tools/call", &params);
    assert_eq!(
        first,
        "{\"id\":1,\"jsonrpc\":\"2.0\",\"method\":\"tools/call\",\"params\":{\"arguments\":{\"a\":1},\"name\":\"open \\\"x\\\"\"}}"
    );
    let second: serde_json::Value =
        serde_json::from_str(&client.call("ping", "null")).unwrap();
    assert_eq!(second["id"], 2);
}

#[test]
fn server_that_did_not_start_is_named() {
    assert_eq!(
        McpClient::start("s", "npx", Started::NotSpawned("gone".to_string())).unwrap_err(),
        "MCP server 's' failed to start (npx): gone"
    );
    assert_eq!(
        McpClient::start("s", "npx", Started::NoStdin).unwrap_err(),
        "MCP server 's': stdin not available"
    );
    assert_eq!(
        McpClient::start("s", "npx", Started::NoStdout).unwrap_err(),
        "MCP server 's': stdout not available"
    );
}

#[test]
fn answers_are_told_from_errors() {
    let line = |s: &str| send_raw(Exchange::Line(s.to_string()));
    assert_eq!(
        line("{\"id\":1,\"result\":{}}\n").unwrap(),
        "{\"id\":1,\"result\":{}}\n"
    );
    assert_eq!(line(" \n").unwrap_err(), "MCP server returned empty response");
    assert_eq!(
        line("{\"error\":{\"code\":-1}}").unwrap_err(),
        "MCP error: {\n  \"code\": -1\n}"
    );
    let odd = line(&format!("oops{}", "x".repeat(400))).unwrap_err();
    assert!(odd.starts_with("MCP JSON parse error: "));
    assert!(odd.ends_with(&format!("(raw: oops{})", "x".repeat(296))));
    assert_eq!(
        send_raw(Exchange::NoStdin).unwrap_err(),
        "MCP client: stdin not connected"
    );
    assert_eq!(
        send_raw(Exchange::NoStdout).unwrap_err(),
        "MCP client: stdout not connected"
    );
    assert_eq!(
        send_raw(Exchange::WriteFailed("e".to_string())).unwrap_err(),
        "MCP write error: e"
    );
    assert_eq!(
        send_raw(Exchange::FlushFailed("e".to_string())).unwrap_err(),
        "MCP flush error: e"
    );
    assert_eq!(
        send_raw(Exchange::ReadFailed("e".to_string())).unwrap_err(),
        "MCP read error: e"
    );
}

#[test]
fn shell_is_tried_where_a_program_is_not_found() {
    let args = vec!["-y".to_string()];
    assert!(spawn_with_cmd_fallback(false, true, "npx", &args).is_none());
    assert!(spawn_with_cmd_fallback(true, false, "npx", &args).is_none());
    let (command, all) = spawn_with_cmd_fallback(true, true, "npx", &args).unwrap();
    assert_eq!(command, "cmd");
    assert_eq!(all, vec!["/c", "npx", "-y"]);
}

#[test]
fn running_server_is_used_again() {
    let mut pool = get_pool();
    assert_eq!(
        get_or_create_with_config(&mut pool, "a", Err("no".to_string())).unwrap_err(),
        "no"
    );
    assert_eq!(get_or_create_with_config(&mut pool, "a", Ok(7)), Ok(7));
    assert_eq!(get_or_create_with_config(&mut pool, "a", Ok(8)), Ok(7));
    assert!(drop_server(&mut pool, "a"));
    assert!(!drop_server(&mut pool, "a"));
    assert_eq!(get_or_create_with_config(&mut pool, "a", Ok(8)), Ok(8));
}

#[test]
fn server_must_be_configured() {
    let names = vec!["one".to_string(), "t\"wo".to_string()];
    assert!(get_or_create("one", &names).is_ok());
    assert_eq!(
        get_or_create("three", &names).unwrap_err(),
        format!("MCP server 'three' not found in servers.yaml. Available: {names:?}")
    );
}

#[test]
fn call_is_made_again_once() {
    let mut run = call_tool();
    run.advance(CallEvent::Reached(Ok(())));
    assert_eq!(time_limit(&run.phase, 50), Some(50));
    assert_eq!(time_limit(&run.phase, 0), None);
    run.advance(CallEvent::TimedOut);
    assert_eq!(run.phase, CallPhase::LetGo);
    run.advance(CallEvent::Gone);
    run.advance(CallEvent::Reached(Ok(())));
    assert_eq!(run.phase, CallPhase::Call { again: true });
    assert_eq!(time_limit(&run.phase, 50), None);
    run.advance(CallEvent::Answered(Err("still".to_string())));
    assert_eq!(run.phase, CallPhase::Over(Err("still".to_string())));

    let mut run = call_tool();
    run.advance(CallEvent::Reached(Ok(())));
    run.advance(CallEvent::Answered(Ok("fine".to_string())));
    assert_eq!(run.phase, CallPhase::Over(Ok("fine".to_string())));

    let mut run = call_tool();
    run.advance(CallEvent::Reached(Err("down".to_string())));
    assert_eq!(run.phase, CallPhase::Over(Err("down".to_string())));
}
