use commit_core::json::Json;
use commit_core::mcp::{
    await_reply, check_capabilities, extract_text_content, fallback_tools_enabled,
    parse_elicitation_review, review_outcome, sampled_message, tool_result, Awaited,
    ClientCapabilities, ElicitationReview, Incoming, McpServer, ReviewOutcome, ToolName,
    PROTOCOL_VERSION,
};

fn s(text: &str) -> Json {
    Json::Str(text.to_string())
}

fn n(text: &str) -> Json {
    Json::Number(text.to_string())
}

fn obj(members: Vec<(&str, Json)>) -> Json {
    Json::Object(members.into_iter().map(|(k, v)| (k.to_string(), v)).collect())
}

fn get<'a>(j: &'a Json, key: &str) -> &'a Json {
    match j {
        Json::Object(members) => members
            .iter()
            .find(|(k, _)| k == key)
            .map(|(_, v)| v)
            .unwrap_or_else(|| panic!("missing {key}")),
        _ => panic!("not an object"),
    }
}

fn has(j: &Json, key: &str) -> bool {
    match j {
        Json::Object(members) => members.iter().any(|(k, _)| k == key),
        _ => false,
    }
}

fn reply(incoming: Incoming) -> Json {
    match incoming {
        Incoming::Reply(j) => j,
        other => panic!("expected a reply, got {other:?}"),
    }
}

fn tool_names(list: &Json) -> Vec<String> {
    match get(list, "tools") {
        Json::Array(tools) => tools
            .iter()
            .map(|t| match get(t, "name") {
                Json::Str(name) => name.clone(),
                _ => panic!("tool name"),
            })
            .collect(),
        _ => panic!("tools array"),
    }
}

fn initialize(id: &str) -> Json {
    obj(vec![
        ("jsonrpc", s("2.0")),
        ("id", n(id)),
        ("method", s("initialize")),
        (
            "params",
            obj(vec![
                ("protocolVersion", s(PROTOCOL_VERSION)),
                ("capabilities", obj(vec![("sampling", obj(vec![])), ("elicitation", obj(vec![]))])),
                ("clientInfo", obj(vec![("name", s("test")), ("version", s("1"))])),
            ]),
        ),
    ])
}

#[test]
fn initialize_declares_tools_and_prompts_without_server_sampling_capability() {
    let mut server = McpServer::new("0.1.0".to_string());
    let response = reply(server.handle_single(&initialize("1"), false));
    let result = get(&response, "result");
    assert_eq!(get(result, "protocolVersion"), &s(PROTOCOL_VERSION));
    let capabilities = get(result, "capabilities");
    assert!(matches!(get(capabilities, "tools"), Json::Object(_)));
    assert!(matches!(get(capabilities, "prompts"), Json::Object(_)));
    assert!(!has(capabilities, "sampling"));
    assert!(!has(capabilities, "elicitation"));
    assert_eq!(server.client_capabilities, ClientCapabilities { sampling: true, elicitation: true });
}

#[test]
fn tools_list_exposes_only_one_call_commit_by_default() {
    let mut server = McpServer::new("0.1.0".to_string());
    let request = obj(vec![("jsonrpc", s("2.0")), ("id", n("2")), ("method", s("tools/list"))]);
    let response = reply(server.handle_single(&request, false));
    let result = get(&response, "result");
    assert_eq!(tool_names(result), vec!["commit_staged".to_string()]);
    let tools = match get(result, "tools") {
        Json::Array(tools) => tools,
        _ => panic!("tools array"),
    };
    match get(&tools[0], "description") {
        Json::Str(d) => assert!(d.contains("sampling/createMessage")),
        _ => panic!("description"),
    }
}

#[test]
fn tools_list_exposes_fallback_tools_only_when_enabled() {
    let mut server = McpServer::new("0.1.0".to_string());
    let request = obj(vec![("jsonrpc", s("2.0")), ("id", n("2")), ("method", s("tools/list"))]);
    let response = reply(server.handle_single(&request, fallback_tools_enabled(Some("1"))));
    assert_eq!(
        tool_names(get(&response, "result")),
        vec!["commit_staged".to_string(), "prepare_commit".to_string(), "execute_commit".to_string()]
    );
}

#[test]
fn fallback_tool_calls_are_rejected_by_default() {
    let mut server = McpServer::new("0.1.0".to_string());
    let request = obj(vec![
        ("jsonrpc", s("2.0")),
        ("id", n("2")),
        ("method", s("tools/call")),
        (
            "params",
            obj(vec![("name", s("execute_commit")), ("arguments", obj(vec![("message", s("feat: 测试提交"))]))]),
        ),
    ]);
    let response = reply(server.handle_single(&request, fallback_tools_enabled(None)));
    assert_eq!(get(&response, "id"), &n("2"));
    let error = get(&response, "error");
    assert_eq!(get(error, "code"), &n("-32602"));
    match get(error, "message") {
        Json::Str(m) => assert!(m.contains("fallback commit tools are disabled")),
        _ => panic!("error message"),
    }
}

#[test]
fn initialized_notification_has_no_response() {
    let mut server = McpServer::new("0.1.0".to_string());
    let notification = obj(vec![("jsonrpc", s("2.0")), ("method", s("notifications/initialized"))]);
    assert!(matches!(server.handle_single(&notification, false), Incoming::Silent));
}

#[test]
fn invalid_requests_and_unknown_methods_are_answered_with_errors() {
    let mut server = McpServer::new("0.1.0".to_string());
    let response = reply(server.handle_single(&s("hello"), false));
    assert_eq!(get(&response, "id"), &Json::Null);
    assert_eq!(get(get(&response, "error"), "code"), &n("-32600"));
    assert_eq!(get(get(&response, "error"), "data"), &s("message must be a JSON object"));

    let response = reply(server.handle_single(&obj(vec![("id", n("7"))]), false));
    assert_eq!(get(get(&response, "error"), "data"), &s("missing method"));
    assert!(matches!(server.handle_single(&obj(vec![("jsonrpc", s("2.0"))]), false), Incoming::Silent));

    let response = reply(server.handle_single(&obj(vec![("id", n("8")), ("method", s("nope"))]), false));
    assert_eq!(get(get(&response, "error"), "code"), &n("-32601"));
    assert_eq!(get(get(&response, "error"), "message"), &s("Method not found"));
    assert_eq!(get(get(&response, "error"), "data"), &s("nope"));
}

#[test]
fn tool_calls_reach_the_runner_with_their_arguments() {
    let mut server = McpServer::new("0.1.0".to_string());
    let request = obj(vec![
        ("id", n("3")),
        ("method", s("tools/call")),
        ("params", obj(vec![("name", s("commit_staged"))])),
    ]);
    match server.handle_single(&request, false) {
        Incoming::Tool { id, tool, arguments } => {
            assert_eq!(id, n("3"));
            assert_eq!(tool, ToolName::CommitStaged);
            assert_eq!(arguments, obj(vec![]));
        }
        other => panic!("expected a tool call, got {other:?}"),
    }
    let request = obj(vec![("id", n("4")), ("method", s("tools/call")), ("params", obj(vec![("name", s("other"))]))]);
    let response = reply(server.handle_single(&request, true));
    assert_eq!(get(get(&response, "error"), "message"), &s("unknown tool `other`"));
}

#[test]
fn prompts_get_mentions_the_cwd() {
    let mut server = McpServer::new("0.1.0".to_string());
    let request = obj(vec![
        ("id", n("5")),
        ("method", s("prompts/get")),
        ("params", obj(vec![("name", s("commit_staged")), ("arguments", obj(vec![("cwd", s("/repo"))]))])),
    ]);
    let response = reply(server.handle_single(&request, false));
    let result = get(&response, "result");
    let messages = match get(result, "messages") {
        Json::Array(m) => m,
        _ => panic!("messages"),
    };
    match get(get(&messages[0], "content"), "text") {
        Json::Str(t) => assert!(t.starts_with("Pass cwd `/repo` to commit_staged. Call the commit_staged tool once.")),
        _ => panic!("text"),
    }
}

#[test]
fn client_requests_are_numbered_and_other_requests_are_told_to_wait() {
    let mut server = McpServer::new("0.1.0".to_string());
    let (id, request) = server.client_request("sampling/createMessage", obj(vec![]));
    assert_eq!(id, s("commit-1"));
    assert_eq!(get(&request, "method"), &s("sampling/createMessage"));
    let (id2, _) = server.client_request("elicitation/create", obj(vec![]));
    assert_eq!(id2, s("commit-2"));

    let answer = obj(vec![("id", s("commit-1")), ("result", obj(vec![("x", n("1"))]))]);
    assert!(matches!(await_reply(&answer, &id), Awaited::Answer(r) if r == obj(vec![("x", n("1"))])));
    let failure = obj(vec![("id", s("commit-1"))]);
    assert!(matches!(await_reply(&failure, &id), Awaited::Failed(e) if e == obj(vec![])));
    let other = obj(vec![("id", n("9")), ("method", s("ping"))]);
    match await_reply(&other, &id) {
        Awaited::Busy(response) => {
            assert_eq!(get(&response, "id"), &n("9"));
            assert_eq!(get(get(&response, "error"), "code"), &n("-32000"));
        }
        _ => panic!("expected a busy answer"),
    }
    assert!(matches!(await_reply(&obj(vec![("method", s("x"))]), &id), Awaited::Other));
}

#[test]
fn sampled_text_is_read_from_content() {
    let single = obj(vec![("content", obj(vec![("type", s("text")), ("text", s("<think>x</think>\nfeat: 添加示例文件 "))]))]);
    assert_eq!(sampled_message(&single), Ok("feat: 添加示例文件".to_string()));
    let many = obj(vec![(
        "content",
        Json::Array(vec![
            obj(vec![("type", s("text")), ("text", s("a"))]),
            obj(vec![("type", s("image"))]),
            obj(vec![("type", s("text")), ("text", s("b"))]),
        ]),
    )]);
    assert_eq!(extract_text_content(&many), Some("a\nb".to_string()));
    let blank = obj(vec![("content", Json::Array(vec![obj(vec![("type", s("text")), ("text", s(" "))])]))]);
    assert_eq!(extract_text_content(&blank), None);
    assert_eq!(
        sampled_message(&obj(vec![])),
        Err("sampling response did not contain text content".to_string())
    );
}

#[test]
fn review_decides_the_commit() {
    let review = parse_elicitation_review(&obj(vec![
        ("action", s("accept")),
        ("content", obj(vec![("message", s("feat(test): 添加示例文件")), ("confirm", Json::Bool(true))])),
    ]))
    .expect("review");
    match review_outcome("feat: 添加示例文件".to_string(), review) {
        ReviewOutcome::Commit { generated_message, final_message } => {
            assert_eq!(generated_message, "feat: 添加示例文件");
            assert_eq!(final_message, "feat(test): 添加示例文件");
        }
        other => panic!("expected a commit, got {other:?}"),
    }
    let declined = ElicitationReview { action: "accept".to_string(), message: Some("x".to_string()), confirm: false };
    match review_outcome("g".to_string(), declined) {
        ReviewOutcome::Finished(output) => {
            assert!(!output.committed);
            assert_eq!(output.action, "decline");
            assert_eq!(output.final_message, Some("x".to_string()));
        }
        other => panic!("expected no commit, got {other:?}"),
    }
    let blank = ElicitationReview { action: "accept".to_string(), message: Some("  ".to_string()), confirm: true };
    assert!(matches!(review_outcome("g".to_string(), blank), ReviewOutcome::Commit { final_message, .. } if final_message == "g"));
    let cancelled = ElicitationReview { action: "cancel".to_string(), message: None, confirm: true };
    assert!(matches!(review_outcome("g".to_string(), cancelled), ReviewOutcome::Finished(o) if o.action == "cancel"));
    assert_eq!(
        parse_elicitation_review(&obj(vec![])).err(),
        Some("elicitation response missing action".to_string())
    );
}

#[test]
fn commit_needs_sampling_and_elicitation() {
    assert_eq!(
        check_capabilities(ClientCapabilities { sampling: false, elicitation: true }),
        Err("client did not declare MCP sampling capability".to_string())
    );
    assert_eq!(
        check_capabilities(ClientCapabilities { sampling: true, elicitation: false }),
        Err("client did not declare MCP elicitation capability".to_string())
    );
    assert_eq!(check_capabilities(ClientCapabilities { sampling: true, elicitation: true }), Ok(()));
}

#[test]
fn tool_results_flag_errors() {
    let ok = tool_result(Ok((obj(vec![("committed", Json::Bool(true))]), "{...}".to_string())));
    assert_eq!(get(&ok, "isError"), &Json::Bool(false));
    let failed = tool_result(Err("boom".to_string()));
    assert_eq!(get(&failed, "isError"), &Json::Bool(true));
    assert_eq!(get(get(&failed, "structuredContent"), "error"), &s("boom"));
    assert!(!fallback_tools_enabled(Some("on")));
    assert!(fallback_tools_enabled(Some("YES")));
}

#[test]
fn tools_work_in_the_requested_directory() {
    let default = std::path::PathBuf::from("/srv/default");
    assert_eq!(commit_core::mcp::request_cwd(&default, None), default);
    assert_eq!(
        commit_core::mcp::request_cwd(&default, Some(std::path::PathBuf::from("/repo"))),
        std::path::PathBuf::from("/repo")
    );
}
