use cherrypick::agent::chat::ChatHistory;
use cherrypick::agent::context::{ContextEngine, RepoMapWalk, WalkStep, REPO_MAP_LIMIT};
use cherrypick::agent::error::AgentError;
use cherrypick::agent::git_tools::{
    builtin_preview, commit_created_message, git_diff_output, git_log_line, git_status_output, list_files_output,
    read_file_refusal, search_file, search_output, skip_search_entry, split_lines, stage_refusal, staged_message,
    CreateCommitTool, DiffLine, DirEntryInfo, GitDiffTool, GitLogTool, GitStatusTool, ListFilesTool, ReadFileTool,
    SearchCodeTool, StageFilesTool, StatusEntry,
};
use cherrypick::agent::keys::{
    api_key_env_var_of, env_var_for_storage_key, resolve_key, storage_key_of, InMemoryBackend, KeyManager,
};
use cherrypick::agent::mcp::{
    call_output, check_read, check_request_size, invalid_response, not_running, rpc_outcome, server_tool_definition,
    server_tool_definitions, CallResult, McpClientConfig, ReadOutcome, RequestIds, RpcError, ServerTool,
    MAX_MESSAGE_SIZE,
};
use cherrypick::agent::provider::{
    event_chunks, provider_name, response_failure, sse_lines, ContentBlock, SseDelta, SseError, SseEvent, SseItem,
    SseUsage,
};
use cherrypick::agent::skill_file::parse_skill_file;
use cherrypick::agent::skills::{Skill, SkillLoader};
use cherrypick::agent::tools::{format_status, is_sensitive_path, StatusFlags, ToolExecutor};
use cherrypick::agent::turn::{
    begin_iteration, confirmation_event, tool_completion, ChunkOutcome, StreamState, MAX_ITERATIONS, SYSTEM_POLICY,
};
use cherrypick::agent::types::{AgentEvent, Message, MessageContent, RiskLevel, Role, StreamChunk, ToolCall, Usage};

fn test_manager() -> KeyManager<InMemoryBackend> {
    KeyManager::new(InMemoryBackend::new())
}

#[test]
fn system_policy_contains_safety_rules() {
    assert!(SYSTEM_POLICY.contains("Never force-push"));
    assert!(SYSTEM_POLICY.contains("sensitive files"));
}

#[test]
fn estimate_tokens_rough() {
    let text = "Hello, world! This is a test.";
    let tokens = ContextEngine::estimate_tokens(text);
    assert!(tokens > 0);
    assert!(tokens < text.len());
}

#[test]
fn estimate_tokens_is_a_quarter_of_the_bytes() {
    assert_eq!(ContextEngine::estimate_tokens(""), 0);
    assert_eq!(ContextEngine::estimate_tokens("abcdefgh"), 2);
    assert_eq!(ContextEngine::estimate_tokens("é"), 0);
    assert_eq!(ContextEngine::estimate_tokens("éé"), 1);
}

#[test]
fn truncate_history_respects_budget() {
    let messages: Vec<Message> = (0..100).map(|i| Message::user(&format!("Message {i} with some content"))).collect();
    let truncated = ContextEngine::truncate_history(&messages, 100);
    assert!(truncated.len() < messages.len());
    assert!(!truncated.is_empty());
}

#[test]
fn truncate_preserves_order() {
    let messages = vec![Message::user("first"), Message::user("second"), Message::user("third")];
    let truncated = ContextEngine::truncate_history(&messages, 10000);
    assert_eq!(truncated.len(), 3);
    assert_eq!(truncated[0].text_content(), Some("first"));
}

#[test]
fn truncate_keeps_the_newest_messages_that_fit() {
    let messages = vec![Message::user("aaaaaaaa"), Message::user("bbbbbbbb"), Message::user("cccccccc")];
    let truncated = ContextEngine::truncate_history(&messages, 4);
    assert_eq!(truncated.len(), 2);
    assert_eq!(truncated[0].text_content(), Some("bbbbbbbb"));
    assert_eq!(truncated[1].text_content(), Some("cccccccc"));
}

#[test]
fn repo_map_joins_entries_by_line() {
    let mut engine = ContextEngine::new(cherrypick::agent::context::ContextBudget {
        total: 100,
        hot: 20,
        warm: 50,
        cold: 30,
    });
    assert!(engine.repo_map().is_none());
    engine.build_repo_map(&["a.rs".to_string(), "src/b.rs".to_string()]);
    assert_eq!(engine.repo_map(), Some("a.rs\nsrc/b.rs"));
    assert_eq!(engine.budget().warm, 50);
}

#[test]
fn error_error_display() {
    let err = AgentError::ToolNotFound("test_tool".into());
    assert!(err.message().contains("test_tool"));
}

#[test]
fn rate_limited_displays_retry() {
    let err = AgentError::RateLimited { retry_after_secs: 30 };
    assert!(err.message().contains("30"));
}

#[test]
fn error_messages_are_exact() {
    assert_eq!(AgentError::Provider("boom".into()).message(), "Provider error: boom");
    assert_eq!(AgentError::RateLimited { retry_after_secs: 60 }.message(), "Rate limited: retry after 60s");
    assert_eq!(AgentError::MaxIterations(10).message(), "Max iterations (10) exceeded");
    assert_eq!(AgentError::Cancelled.message(), "Cancelled");
}

#[test]
fn set_and_get_key() {
    let mut mgr = test_manager();
    mgr.set_key("anthropic", "default", "sk-test").unwrap();
    let key = mgr.get_key("anthropic", "default", None).unwrap();
    assert_eq!(key, Some("sk-test".to_string()));
}

#[test]
fn get_nonexistent_key() {
    let mgr = test_manager();
    let key = mgr.get_key("anthropic", "default", None).unwrap();
    assert!(key.is_none());
}

#[test]
fn delete_key() {
    let mut mgr = test_manager();
    mgr.set_key("anthropic", "default", "sk-test").unwrap();
    mgr.delete_key("anthropic", "default").unwrap();
    assert!(!mgr.has_key("anthropic", "default", None));
}

#[test]
fn has_key_check() {
    let mut mgr = test_manager();
    assert!(!mgr.has_key("anthropic", "default", None));
    mgr.set_key("anthropic", "default", "sk-test").unwrap();
    assert!(mgr.has_key("anthropic", "default", None));
}

#[test]
fn stored_key_wins_over_the_environment() {
    let mut mgr = test_manager();
    assert_eq!(mgr.get_key("anthropic", "default", Some("from-env".into())).unwrap(), Some("from-env".into()));
    mgr.store_key("anthropic", "default", "stored");
    assert_eq!(mgr.get_stored_key("anthropic", "default", Some("from-env".into())), Some("stored".into()));
    mgr.forget_key("anthropic", "default");
    assert_eq!(mgr.get_stored_key("anthropic", "default", None), None);
}

#[test]
fn environment_manager_reads_the_variable_named_after_the_storage_key() {
    let vars = vec![
        ("ANTHROPIC_WORK".to_string(), "sk-work".to_string()),
        ("PATH".to_string(), "/usr/bin".to_string()),
    ];
    let mut mgr = KeyManager::with_env(vars);
    assert_eq!(mgr.get_key("anthropic", "work", None).unwrap(), Some("sk-work".to_string()));
    assert_eq!(mgr.get_key("anthropic", "default", Some("fallback".into())).unwrap(), Some("fallback".to_string()));
    assert!(!mgr.has_key("anthropic", "default", None));
    mgr.set_key("anthropic", "default", "ignored").unwrap();
    assert!(!mgr.has_key("anthropic", "default", None));
    mgr.delete_key("anthropic", "work").unwrap();
    assert!(mgr.has_key("anthropic", "work", None));
}

#[test]
fn a_later_environment_entry_wins() {
    let vars = vec![
        ("ANTHROPIC_DEFAULT".to_string(), "first".to_string()),
        ("ANTHROPIC_DEFAULT".to_string(), "second".to_string()),
    ];
    let mgr = KeyManager::with_env(vars);
    assert_eq!(mgr.get_key("anthropic", "default", None).unwrap(), Some("second".to_string()));
}

#[test]
fn key_names_and_environment_variables() {
    assert_eq!(storage_key_of("anthropic", "work"), "anthropic:work");
    assert_eq!(api_key_env_var_of("open-ai"), "OPEN_AI_API_KEY");
    assert_eq!(env_var_for_storage_key("anthropic:default"), "ANTHROPIC_DEFAULT");
    let failed: Result<Option<String>, AgentError> = Err(AgentError::Other("down".into()));
    assert!(resolve_key(failed, Some("x".into())).is_err());
    assert_eq!(resolve_key(Ok(None), Some("x".into())).unwrap(), Some("x".into()));
}

#[test]
fn user_message_creation() {
    let msg = Message::user("hello");
    assert_eq!(msg.role, Role::User);
    assert_eq!(msg.text_content(), Some("hello"));
}

#[test]
fn assistant_message_creation() {
    let msg = Message::assistant("response");
    assert_eq!(msg.role, Role::Assistant);
    assert_eq!(msg.text_content(), Some("response"));
}

#[test]
fn tool_result_message() {
    let msg = Message::tool_result("id-1", "output", false);
    assert_eq!(msg.role, Role::User);
    match &msg.content[0] {
        MessageContent::ToolResult { tool_use_id, is_error, .. } => {
            assert_eq!(tool_use_id, "id-1");
            assert!(!is_error);
        }
        _ => panic!("Expected ToolResult"),
    }
}

#[test]
fn risk_level_ordering() {
    assert!(RiskLevel::ReadOnly < RiskLevel::WriteLocal);
    assert!(RiskLevel::WriteLocal < RiskLevel::Destructive);
    assert!(RiskLevel::ReadOnly.less_than(&RiskLevel::WriteLocal));
    assert!(!RiskLevel::Destructive.less_than(&RiskLevel::Network));
}

#[test]
fn risk_requires_confirmation() {
    assert!(!RiskLevel::ReadOnly.requires_confirmation());
    assert!(RiskLevel::WriteLocal.requires_confirmation());
    assert!(RiskLevel::Destructive.requires_confirmation());
    assert_eq!(RiskLevel::WriteLocal.label(), "Write (local)");
}

#[test]
fn builtin_skills_loaded() {
    let loader = SkillLoader::new();
    assert!(loader.get("explain-commit").is_some());
    assert!(loader.get("review-changes").is_some());
    assert!(loader.get("generate-commit-message").is_some());
    assert!(loader.get("find-related").is_some());
}

#[test]
fn slash_command_resolution() {
    let loader = SkillLoader::new();
    let skill = loader.resolve_slash_command("/explain something");
    assert!(skill.is_some());
    assert_eq!(skill.unwrap().name, "explain-commit");
}

#[test]
fn unknown_slash_command() {
    let loader = SkillLoader::new();
    assert!(loader.resolve_slash_command("/unknown").is_none());
}

#[test]
fn list_all_skills() {
    let loader = SkillLoader::new();
    let all = loader.list_all();
    assert!(all.len() >= 4);
}

#[test]
fn listed_skills_are_sorted_by_name() {
    let mut loader = SkillLoader::new();
    loader.add_skill(Skill {
        name: "aaa-first".into(),
        description: String::new(),
        trigger: Some("/aaa".into()),
        allowed_tools: vec![],
        prompt_template: "x".into(),
    });
    let names: Vec<&str> = loader.list_all().iter().map(|s| s.name.as_str()).collect();
    let mut sorted = names.clone();
    sorted.sort();
    assert_eq!(names, sorted);
    assert_eq!(names[0], "aaa-first");
    assert_eq!(loader.resolve_slash_command("/aaa now").unwrap().name, "aaa-first");
}

#[test]
fn parse_skill_file_from_text() {
    let skill = parse_skill_file(
        Some("test-skill"),
        "---\nname: test-skill\ndescription: A test skill\ntrigger: /test\ntools: [read_file, git_status]\n---\nDo something useful.",
    );
    assert_eq!(skill.name, "test-skill");
    assert_eq!(skill.trigger, Some("/test".into()));
    assert_eq!(skill.allowed_tools.len(), 2);
    assert!(skill.prompt_template.contains("something useful"));
}

#[test]
fn sensitive_path_detection() {
    assert!(is_sensitive_path(".env"));
    assert!(is_sensitive_path("path/to/.env.local"));
    assert!(is_sensitive_path("credentials.json"));
    assert!(is_sensitive_path("my_secret_file"));
    assert!(!is_sensitive_path("src/main.rs"));
    assert!(!is_sensitive_path("README.md"));
}

#[test]
fn sensitive_paths_ignore_case() {
    assert!(is_sensitive_path("config/API_TOKEN.txt"));
    assert!(is_sensitive_path("Home/.SSH/CONFIG"));
}

#[test]
fn executor_has_builtin_tools() {
    let executor = ToolExecutor::new();
    let defs = executor.definitions();
    assert!(!defs.is_empty());
    assert!(defs.iter().any(|d| d.name == "read_file"));
    assert!(defs.iter().any(|d| d.name == "git_status"));
}

#[test]
fn repo_exclusion() {
    let mut executor = ToolExecutor::new();
    executor.exclude_repo("/excluded/repo".to_string());
    assert!(executor.is_repo_excluded("/excluded/repo/subdir"));
    assert!(!executor.is_repo_excluded("/other/repo"));
    assert!(!executor.is_repo_excluded("/excluded/repository"));
}

#[test]
fn risk_level_lookup() {
    let executor = ToolExecutor::new();
    assert_eq!(executor.risk_level("read_file"), Some(RiskLevel::ReadOnly));
    assert_eq!(executor.risk_level("create_commit"), Some(RiskLevel::WriteLocal));
    assert!(executor.risk_level("nonexistent").is_none());
}

#[test]
fn calls_are_checked_before_they_run() {
    let mut executor = ToolExecutor::new();
    executor.exclude_repo("/secret".to_string());
    match executor.check_call("nope", "/repo") {
        Err(AgentError::ToolNotFound(n)) => assert_eq!(n, "nope"),
        other => panic!("unexpected {other:?}"),
    }
    match executor.check_call("read_file", "/secret/x") {
        Err(AgentError::ToolExecution(m)) => assert_eq!(m, "Repository is excluded from tool operations"),
        other => panic!("unexpected {other:?}"),
    }
    assert!(executor.check_call("read_file", "/repo").is_ok());
}

#[test]
fn long_output_is_truncated_with_a_note() {
    let short = ToolExecutor::finish_output("ok".to_string());
    assert_eq!(short, "ok");
    let long = ToolExecutor::finish_output("x".repeat(50_010));
    assert_eq!(long.len(), 50_000 + "\n... (output truncated)".len());
    assert!(long.ends_with("\n... (output truncated)"));
}

#[test]
fn format_status_flags() {
    let status = StatusFlags {
        index_new: true,
        index_modified: false,
        index_deleted: false,
        index_renamed: false,
        wt_new: false,
        wt_modified: false,
        wt_deleted: false,
    };
    let s = format_status(status);
    assert!(s.starts_with('A'));
    assert_eq!(s, "A ");
}

#[test]
fn tool_definitions_valid() {
    let defs = vec![
        ReadFileTool.definition(),
        ListFilesTool.definition(),
        GitStatusTool.definition(),
        GitDiffTool.definition(),
        GitLogTool.definition(),
        SearchCodeTool.definition(),
        StageFilesTool.definition(),
        CreateCommitTool.definition(),
    ];
    for def in &defs {
        assert!(!def.name.is_empty());
        assert!(!def.description.is_empty());
        assert!(serde_json::from_str::<serde_json::Value>(&def.input_schema).is_ok());
    }
}

#[test]
fn tool_previews() {
    assert_eq!(ReadFileTool.preview(r#"{"path":"a.rs"}"#), "Read file: a.rs");
    assert_eq!(ReadFileTool.preview("null"), "Read file: ?");
    assert_eq!(ListFilesTool.preview("{}"), "List files in: .");
    assert_eq!(GitStatusTool.preview("{}"), "Show git status");
    assert_eq!(GitDiffTool.preview(r#"{"staged":true}"#), "Show staged diff");
    assert_eq!(GitDiffTool.preview("{}"), "Show working directory diff");
    assert_eq!(GitLogTool.preview("{}"), "Show last 10 commits");
    assert_eq!(GitLogTool.preview(r#"{"count":3}"#), "Show last 3 commits");
    assert_eq!(SearchCodeTool.preview(r#"{"pattern":"fn main"}"#), "Search for: fn main");
    assert_eq!(StageFilesTool.preview(r#"{"paths":["a","b",7,"c"]}"#), "Stage: a, b, c");
    assert_eq!(CreateCommitTool.preview(r#"{"message":"fix"}"#), "Create commit: fix");
    assert_eq!(builtin_preview("git_status", "{}"), Some("Show git status".to_string()));
    assert_eq!(builtin_preview("other", "{}"), None);
}

#[test]
fn tool_reports() {
    let listing = list_files_output(vec![
        DirEntryInfo { name: "src".into(), is_dir: true },
        DirEntryInfo { name: "Cargo.toml".into(), is_dir: false },
        DirEntryInfo { name: "a.rs".into(), is_dir: false },
    ]);
    assert_eq!(listing, "d src\nf Cargo.toml\nf a.rs");
    assert_eq!(git_status_output(&vec![]), "Working tree clean");
    let flags = StatusFlags {
        index_new: false,
        index_modified: true,
        index_deleted: false,
        index_renamed: false,
        wt_new: false,
        wt_modified: false,
        wt_deleted: true,
    };
    let report = git_status_output(&vec![
        StatusEntry { status: flags, path: Some("a.rs".into()) },
        StatusEntry { status: flags, path: None },
    ]);
    assert_eq!(report, "MD a.rs\nMD ?");
    assert_eq!(git_diff_output(&vec![]), "No changes");
    let patch = git_diff_output(&vec![
        DiffLine { origin: 'F', content: b"diff --git\n".to_vec() },
        DiffLine { origin: '+', content: b"added\n".to_vec() },
        DiffLine { origin: '-', content: vec![0xff] },
        DiffLine { origin: ' ', content: b"same\n".to_vec() },
    ]);
    assert_eq!(patch, "diff --git\n+added\n same\n");
    let oid = "0123456789abcdef0123456789abcdef01234567";
    assert_eq!(git_log_line(oid, "Ann", "Subject\r\nBody"), "0123456 Ann: Subject");
    assert_eq!(git_log_line(oid, "Ann", ""), "0123456 Ann: ");
    assert_eq!(commit_created_message(oid), "Created commit 0123456");
    assert_eq!(staged_message(2), "Staged 2 file(s)");
}

#[test]
fn tool_refusals() {
    match read_file_refusal(None) {
        Err(AgentError::ToolExecution(m)) => assert_eq!(m, "Missing 'path' argument"),
        other => panic!("unexpected {other:?}"),
    }
    match read_file_refusal(Some(".env")) {
        Err(AgentError::ToolExecution(m)) => assert_eq!(m, "Cannot read sensitive files"),
        other => panic!("unexpected {other:?}"),
    }
    assert!(read_file_refusal(Some("src/lib.rs")).is_ok());
    match stage_refusal("id_rsa") {
        Some(AgentError::ToolExecution(m)) => assert_eq!(m, "Cannot stage sensitive file: id_rsa"),
        other => panic!("unexpected {other:?}"),
    }
    assert!(stage_refusal("src/lib.rs").is_none());
}

#[test]
fn code_search_reports_hits_up_to_the_limit() {
    assert!(skip_search_entry(".git"));
    assert!(skip_search_entry("target"));
    assert!(skip_search_entry("node_modules"));
    assert!(!skip_search_entry("src"));
    let mut results = Vec::new();
    search_file("src/a.rs", "fn main() {\n  let x = 1;\n}\n  fn helper()  \r\n", "fn", &mut results, 100);
    assert_eq!(results, vec!["src/a.rs:1: fn main() {".to_string(), "src/a.rs:4: fn helper()".to_string()]);
    let mut limited = Vec::new();
    search_file("b", "x\nx\nx\n", "x", &mut limited, 2);
    assert_eq!(limited.len(), 2);
    search_file("c", "x\nx\n", "x", &mut limited, 2);
    assert_eq!(limited.len(), 3, "a file searched after the limit still adds the hit that stops it");
    assert_eq!(search_output("zzz", &vec![]), "No matches found for 'zzz'");
    assert_eq!(search_output("x", &vec!["a".into(), "b".into()]), "a\nb");
    let lines = split_lines("a\r\nb\n\nc\r");
    assert_eq!(lines.len(), 4);
    assert_eq!(lines[0], vec!['a']);
    assert_eq!(lines[3], vec!['c', '\r']);
}

#[test]
fn provider_name_is_anthropic() {
    assert_eq!(provider_name(), "anthropic");
}

#[test]
fn failed_responses_are_reported() {
    assert!(response_failure(200, "").is_none());
    match response_failure(429, "slow down") {
        Some(AgentError::RateLimited { retry_after_secs }) => assert_eq!(retry_after_secs, 60),
        other => panic!("unexpected {other:?}"),
    }
    match response_failure(401, "") {
        Some(AgentError::Provider(m)) => assert_eq!(m, "Invalid API key"),
        other => panic!("unexpected {other:?}"),
    }
    match response_failure(500, "oops") {
        Some(AgentError::Provider(m)) => assert_eq!(m, "HTTP 500 Internal Server Error: oops"),
        other => panic!("unexpected {other:?}"),
    }
    match response_failure(599, "x") {
        Some(AgentError::Provider(m)) => assert_eq!(m, "HTTP 599 <unknown status code>: x"),
        other => panic!("unexpected {other:?}"),
    }
}

#[test]
fn event_stream_is_cut_into_items() {
    let text = ": keep-alive\nevent: message_start\ndata: {\"a\":1}\n\n  data: second  \ndata: [DONE]\ndata: after\n";
    let items = sse_lines(text);
    assert_eq!(items.len(), 3);
    match &items[0] {
        SseItem::Data(d) => assert_eq!(d, "{\"a\":1}"),
        _ => panic!("expected data"),
    }
    match &items[1] {
        SseItem::Data(d) => assert_eq!(d, "second"),
        _ => panic!("expected data"),
    }
    assert!(matches!(items[2], SseItem::Done));
}

fn event(ty: &str) -> SseEvent {
    SseEvent { event_type: ty.into(), delta: None, content_block: None, usage: None, error: None, index: None }
}

#[test]
fn events_yield_chunks() {
    let mut start = event("content_block_start");
    start.content_block = Some(ContentBlock {
        block_type: "tool_use".into(),
        id: Some("toolu_123".into()),
        name: Some("read_file".into()),
        text: None,
    });
    match &event_chunks(&start)[..] {
        [StreamChunk::ToolCallStart { id, name }] => {
            assert_eq!(id, "toolu_123");
            assert_eq!(name, "read_file");
        }
        other => panic!("unexpected {other:?}"),
    }
    let mut delta = event("content_block_delta");
    delta.delta = Some(SseDelta { delta_type: "text_delta".into(), text: Some("Hello".into()), partial_json: None });
    match &event_chunks(&delta)[..] {
        [StreamChunk::TextDelta(t)] => assert_eq!(t, "Hello"),
        other => panic!("unexpected {other:?}"),
    }
    assert!(matches!(&event_chunks(&event("content_block_stop"))[..], [StreamChunk::ToolCallEnd]));
    assert!(matches!(&event_chunks(&event("message_stop"))[..], [StreamChunk::Done]));
    let mut usage = event("message_start");
    usage.usage = Some(SseUsage { input_tokens: 3, output_tokens: 4 });
    assert!(matches!(
        &event_chunks(&usage)[..],
        [StreamChunk::Usage(Usage { input_tokens: 3, output_tokens: 4 })]
    ));
    let mut err = event("error");
    err.error = Some(SseError { message: "rate limited".into() });
    match &event_chunks(&err)[..] {
        [StreamChunk::Error(m)] => assert_eq!(m, "rate limited"),
        other => panic!("unexpected {other:?}"),
    }
    assert!(event_chunks(&event("ping")).is_empty());
}

#[test]
fn iterations_are_bounded() {
    assert_eq!(MAX_ITERATIONS, 10);
    assert!(matches!(begin_iteration(0, 10, true, false), Err(AgentError::Cancelled)));
    assert!(matches!(begin_iteration(10, 10, false, false), Err(AgentError::MaxIterations(10))));
    assert!(matches!(begin_iteration(3, 10, false, true), Err(AgentError::MaxDuration)));
    assert_eq!(begin_iteration(3, 10, false, false).unwrap(), 4);
}

#[test]
fn a_stream_is_gathered_into_text_and_calls() {
    let executor = ToolExecutor::new();
    let mut state = StreamState::new();
    match state.apply_chunk(StreamChunk::TextDelta("Hi".into()), &executor) {
        ChunkOutcome::Emit(AgentEvent::TextDelta(t)) => assert_eq!(t, "Hi"),
        other => panic!("unexpected {other:?}"),
    }
    match state.apply_chunk(StreamChunk::ToolCallStart { id: "t1".into(), name: "create_commit".into() }, &executor) {
        ChunkOutcome::Emit(AgentEvent::ToolCallStarted { id, name, risk_level }) => {
            assert_eq!(id, "t1");
            assert_eq!(name, "create_commit");
            assert_eq!(risk_level, RiskLevel::WriteLocal);
        }
        other => panic!("unexpected {other:?}"),
    }
    assert!(matches!(state.apply_chunk(StreamChunk::ToolCallDelta("{\"message\":".into()), &executor), ChunkOutcome::Quiet));
    assert!(matches!(state.apply_chunk(StreamChunk::ToolCallDelta("\"fix\"}".into()), &executor), ChunkOutcome::Quiet));
    assert!(matches!(state.apply_chunk(StreamChunk::ToolCallEnd, &executor), ChunkOutcome::Quiet));
    assert!(matches!(
        state.apply_chunk(StreamChunk::ToolCallStart { id: "t2".into(), name: "mystery".into() }, &executor),
        ChunkOutcome::Emit(AgentEvent::ToolCallStarted { risk_level: RiskLevel::ReadOnly, .. })
    ));
    state.apply_chunk(StreamChunk::ToolCallDelta("{broken".into()), &executor);
    state.apply_chunk(StreamChunk::ToolCallEnd, &executor);
    assert!(matches!(state.apply_chunk(StreamChunk::Usage(Usage { input_tokens: 1, output_tokens: 2 }), &executor), ChunkOutcome::Quiet));
    assert!(matches!(state.apply_chunk(StreamChunk::Done, &executor), ChunkOutcome::Finished));
    let calls = state.tool_calls();
    assert_eq!(calls.len(), 2);
    assert_eq!(calls[0].arguments, "{\"message\":\"fix\"}");
    assert_eq!(calls[1].arguments, "null");
    let msg = state.assistant_message().unwrap();
    assert_eq!(msg.role, Role::Assistant);
    assert_eq!(msg.content.len(), 3);
    assert_eq!(msg.text_content(), Some("Hi"));
    match state.apply_chunk(StreamChunk::Error("bad".into()), &executor) {
        ChunkOutcome::Failed(m) => assert_eq!(m, "bad"),
        other => panic!("unexpected {other:?}"),
    }
    assert!(StreamState::new().assistant_message().is_none());
}

#[test]
fn risky_calls_ask_for_confirmation() {
    let executor = ToolExecutor::new();
    let commit = ToolCall { id: "1".into(), name: "create_commit".into(), arguments: "{\"message\":\"wip\"}".into() };
    match confirmation_event(&executor, &commit) {
        Some(AgentEvent::ConfirmationNeeded { tool_name, risk_level, preview }) => {
            assert_eq!(tool_name, "create_commit");
            assert_eq!(risk_level, RiskLevel::WriteLocal);
            assert_eq!(preview, "Create commit: wip");
        }
        other => panic!("unexpected {other:?}"),
    }
    let read = ToolCall { id: "2".into(), name: "read_file".into(), arguments: "{}".into() };
    assert!(confirmation_event(&executor, &read).is_none());
}

#[test]
fn tool_results_are_reported_and_recorded() {
    let (ev, msg) = tool_completion("c1", Ok("done".into()));
    match ev {
        AgentEvent::ToolCallCompleted { id, result, is_error } => {
            assert_eq!(id, "c1");
            assert_eq!(result, "done");
            assert!(!is_error);
        }
        other => panic!("unexpected {other:?}"),
    }
    assert_eq!(msg.role, Role::User);
    let (ev, _) = tool_completion("c2", Err(AgentError::ToolNotFound("x".into())));
    match ev {
        AgentEvent::ToolCallCompleted { result, is_error, .. } => {
            assert_eq!(result, "Tool not found: x");
            assert!(is_error);
        }
        other => panic!("unexpected {other:?}"),
    }
}

#[test]
fn chat_history_keeps_order_and_clears() {
    let mut h = ChatHistory::new();
    h.push(Message::user("a"));
    h.push(Message::assistant("b"));
    assert_eq!(h.history().len(), 2);
    assert_eq!(h.history()[1].text_content(), Some("b"));
    h.clear_history();
    assert!(h.history().is_empty());
}

#[test]
fn mcp_requests_and_answers() {
    let mut ids = RequestIds::new();
    assert_eq!(ids.take(), 1);
    assert_eq!(ids.take(), 2);
    assert!(check_request_size(MAX_MESSAGE_SIZE).is_ok());
    assert!(check_request_size(MAX_MESSAGE_SIZE + 1).is_err());
    match not_running() {
        AgentError::Mcp(m) => assert_eq!(m, "MCP server not running"),
        other => panic!("unexpected {other:?}"),
    }
    match check_read(ReadOutcome::Line(0)) {
        Err(AgentError::Mcp(m)) => assert_eq!(m, "Server closed connection"),
        other => panic!("unexpected {other:?}"),
    }
    match check_read(ReadOutcome::Line(MAX_MESSAGE_SIZE + 1)) {
        Err(AgentError::Mcp(m)) => assert_eq!(m, "Response too large"),
        other => panic!("unexpected {other:?}"),
    }
    match check_read(ReadOutcome::TimedOut) {
        Err(AgentError::Mcp(m)) => assert_eq!(m, "Request timed out"),
        other => panic!("unexpected {other:?}"),
    }
    assert!(check_read(ReadOutcome::Line(10)).is_ok());
    match invalid_response("eof") {
        AgentError::Mcp(m) => assert_eq!(m, "Invalid response: eof"),
        other => panic!("unexpected {other:?}"),
    }
    match rpc_outcome(Some(RpcError { code: -32601, message: "no such method".into() }), None) {
        Err(AgentError::Mcp(m)) => assert_eq!(m, "RPC error -32601: no such method"),
        other => panic!("unexpected {other:?}"),
    }
    assert_eq!(rpc_outcome(None, Some("{}".into())).unwrap(), Some("{}".to_string()));
}

#[test]
fn mcp_tools_are_named_after_their_server() {
    let tool = ServerTool { name: Some("grep".into()), description: None, input_schema: None };
    let def = server_tool_definition("files", &tool).unwrap();
    assert_eq!(def.name, "mcp_files__grep");
    assert_eq!(def.description, "");
    assert_eq!(def.input_schema, "{\"type\":\"object\"}");
    let defs = server_tool_definitions(
        "s",
        &vec![tool, ServerTool { name: None, description: Some("d".into()), input_schema: None }],
    );
    assert_eq!(defs.len(), 1);
    assert_eq!(call_output(CallResult::Nothing), "");
    assert_eq!(call_output(CallResult::Content(vec![Some("a".into()), None, Some("b".into())])), "a\nb");
    assert_eq!(call_output(CallResult::Other("{\"x\":1}".into())), "{\"x\":1}");
    let config = McpClientConfig { name: "test".into(), command: "echo".into(), args: vec![], env: vec![] };
    assert_eq!(config.name, "test");
}

#[test]
fn registering_builtins_again_keeps_loaded_skills() {
    let mut loader = SkillLoader::new();
    loader.add_skill(parse_skill_file(Some("custom"), "# Custom\nDo things"));
    loader.register_builtins();
    assert_eq!(loader.list_all().len(), 5);
    let explain = loader.get("explain-commit").unwrap();
    assert_eq!(explain.allowed_tools, vec!["git_log", "git_diff", "read_file"]);
    assert_eq!(loader.get("generate-commit-message").unwrap().allowed_tools, vec!["git_status", "git_diff"]);
    assert!(loader.get("custom").is_some());
}

#[test]
fn repo_map_walk_skips_hidden_and_build_entries_and_stops_at_the_limit() {
    let mut walk = RepoMapWalk::new(REPO_MAP_LIMIT);
    assert_eq!(walk.visit(".git", true, false, ".git"), WalkStep::Skip);
    assert_eq!(walk.visit("target", true, false, "target"), WalkStep::Skip);
    assert_eq!(walk.visit("node_modules", true, false, "node_modules"), WalkStep::Skip);
    assert_eq!(walk.visit("src", true, false, "src"), WalkStep::Descend);
    assert_eq!(walk.visit("a.rs", false, true, "a.rs"), WalkStep::Record);
    assert_eq!(walk.visit("b.rs", false, true, "src/b.rs"), WalkStep::Record);
    assert_eq!(walk.visit("pipe", false, false, "pipe"), WalkStep::Ignore);
    let mut engine = ContextEngine::new(cherrypick::agent::context::ContextBudget { total: 100, hot: 20, warm: 50, cold: 30 });
    engine.build_repo_map(walk.paths());
    assert_eq!(engine.repo_map(), Some("a.rs\nsrc/b.rs"));

    let mut small = RepoMapWalk::new(2);
    assert_eq!(small.visit("a", false, true, "a"), WalkStep::Record);
    assert!(!small.is_full());
    assert_eq!(small.visit("b", false, true, "b"), WalkStep::Record);
    assert!(small.is_full());
    assert_eq!(small.visit("c", false, true, "c"), WalkStep::Stop);
    assert_eq!(small.paths().len(), 2);
}

#[test]
fn tool_arguments_are_read_from_the_call() {
    let args = r#"{"pattern":"todo","staged":true}"#;
    assert_eq!(cherrypick::agent::git_tools::text_argument(args, "pattern"), Some("todo".to_string()));
    assert_eq!(cherrypick::agent::git_tools::text_argument(args, "path"), None);
    assert_eq!(cherrypick::agent::git_tools::path_or_current(args), ".");
    assert_eq!(cherrypick::agent::git_tools::path_or_current(r#"{"path":"src"}"#), "src");
    assert!(cherrypick::agent::git_tools::staged_argument(args));
    assert!(!cherrypick::agent::git_tools::staged_argument("not json"));
    assert_eq!(
        cherrypick::agent::git_tools::required_argument(args, "pattern", "Missing 'pattern'").unwrap(),
        "todo"
    );
    match cherrypick::agent::git_tools::required_argument("{}", "message", "Missing 'message'") {
        Err(AgentError::ToolExecution(m)) => assert_eq!(m, "Missing 'message'"),
        other => panic!("unexpected {other:?}"),
    }
}
