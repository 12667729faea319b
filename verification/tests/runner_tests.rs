//! Tests for event parsing and routing, for both backends and the sidecar.

use supiki::claude::runner::{
    classify_claude_event, get_system_prompt, handle_stream_event, ClaudeRunner, StreamEvent,
};
use supiki::codex::runner::{
    classify_codex_event, extract_text_from_content, handle_codex_event, CodexContent,
    CodexStreamEvent,
};
use supiki::json::parse_json;
use supiki::notify::Notification;
use supiki::sidecar::SidecarNotification;
use supiki::state::AppState;

fn classify_line(line: &str) -> Option<StreamEvent> {
    classify_claude_event(&parse_json(line)?)
}

fn classify_codex_line(line: &str) -> Option<CodexStreamEvent> {
    classify_codex_event(&parse_json(line)?)
}

#[test]
fn runner_test_get_system_prompt() {
    let prompt = get_system_prompt(false, false, "");
    assert!(prompt.contains("Supiki"));
}

#[test]
fn runner_test_clear_session() {
    let mut state = AppState::new(false, false);
    state.set_session_id("test-123".to_string());
    state.clear_session();
    assert!(state.get_session_id().is_none());
}

#[test]
fn codex_runner_test_get_system_prompt() {
    let prompt = supiki::codex::runner::get_system_prompt(false, false, "");
    assert!(prompt.contains("Clawd") || prompt.contains("Supiki"));
}

#[test]
fn codex_runner_test_clear_session() {
    let mut state = AppState::new(false, false);
    state.set_codex_session_id("test-thread-123".to_string());
    state.clear_codex_session();
    assert!(state.get_codex_session_id().is_none());
}

#[test]
fn test_parse_thread_started() {
    let json = r#"{"type": "thread.started", "thread_id": "abc123"}"#;
    let event = classify_codex_line(json).unwrap();
    match event {
        CodexStreamEvent::ThreadStarted { thread_id } => {
            assert_eq!(thread_id, Some("abc123".to_string()));
        }
        _ => panic!("Expected ThreadStarted event"),
    }
}

#[test]
fn test_parse_turn_completed() {
    let json = r#"{"type": "turn.completed", "turn_id": "xyz789"}"#;
    let event = classify_codex_line(json).unwrap();
    match event {
        CodexStreamEvent::TurnCompleted { turn_id } => {
            assert_eq!(turn_id, Some("xyz789".to_string()));
        }
        _ => panic!("Expected TurnCompleted event"),
    }
}

#[test]
fn test_parse_error() {
    let json = r#"{"type": "error", "message": "Something went wrong"}"#;
    let event = classify_codex_line(json).unwrap();
    match event {
        CodexStreamEvent::Error { message } => {
            assert_eq!(message, Some("Something went wrong".to_string()));
        }
        _ => panic!("Expected Error event"),
    }
}

#[test]
fn test_send_to_current_query_without_active_query() {
    let cmd = r#"{"type":"test","data":"hello"}"#;
    let result = supiki::sidecar::send_to_current_query(false, cmd);
    assert!(result.is_err());
    assert_eq!(result.unwrap_err(), "No active query to send command to");
}

#[test]
fn result_line_yields_turn_succeeded_and_session() {
    let line = r#"{"type":"result","subtype":"success","result":"done","session_id":"abc"}"#;
    let event = classify_line(line).unwrap();
    match &event {
        StreamEvent::Result { subtype, result, session_id } => {
            assert_eq!(subtype.as_deref(), Some("success"));
            assert_eq!(result.as_deref(), Some("done"));
            assert_eq!(session_id.as_deref(), Some("abc"));
        }
        _ => panic!("Expected Result event"),
    }
    let mut state = AppState::new(false, false);
    let mut runner = ClaudeRunner::new();
    let notes = handle_stream_event(&mut state, &mut runner, event);
    assert_eq!(state.get_session_id(), Some("abc".to_string()));
    let mut saw_result = false;
    for n in &notes {
        if let Notification::AgentResult { success, text } = n {
            assert!(*success);
            assert_eq!(text, "done");
            saw_result = true;
        }
    }
    assert!(saw_result);
}

#[test]
fn nonsense_line_is_rejected_without_panic() {
    assert!(classify_line(r#"{"type":"nonsense"}"#).is_none());
    assert!(classify_line("not json at all").is_none());
}

#[test]
fn wrongly_typed_fields_reject_the_line() {
    assert!(classify_line(
        r#"{"type":"result","subtype":"success","result":"ok","session_id":123}"#
    )
    .is_none());
    assert!(classify_line(r#"{"type":"system","subtype":5}"#).is_none());
    assert!(classify_codex_line(r#"{"type":"thread.started","thread_id":7}"#).is_none());
    assert!(classify_codex_line(
        r#"{"type":"item.completed","item":{"type":"agent_message","text":3}}"#
    )
    .is_none());
    // A null field counts as absent, not as a type error.
    let ev = classify_line(
        r#"{"type":"result","subtype":"success","result":"ok","session_id":null}"#,
    )
    .unwrap();
    match ev {
        StreamEvent::Result { session_id, .. } => assert!(session_id.is_none()),
        _ => panic!("Expected Result event"),
    }
}

#[test]
fn wrongly_typed_question_fields_drop_the_list() {
    let input = parse_json(r#"{"questions":[{"question":"Pick","header":1}]}"#).unwrap();
    assert!(supiki::claude::runner::parse_questions(&input).is_empty());
    let input =
        parse_json(r#"{"questions":[{"question":"Pick","multiSelect":"yes"}]}"#).unwrap();
    assert!(supiki::claude::runner::parse_questions(&input).is_empty());
    let input = parse_json(r#"{"questions":[{"question":"Pick"}]}"#).unwrap();
    assert_eq!(supiki::claude::runner::parse_questions(&input).len(), 1);
}

#[test]
fn end_to_end_scenario_streams_then_result() {
    let mut state = AppState::new(false, false);
    let mut runner = ClaudeRunner::new();

    let line1 = r#"{"type":"assistant","message":{"content":[{"type":"text","text":"hi"}]}}"#;
    let ev1 = classify_line(line1).unwrap();
    let notes1 = handle_stream_event(&mut state, &mut runner, ev1);
    assert_eq!(notes1.len(), 1);
    match &notes1[0] {
        Notification::AgentStream { text } => assert_eq!(text, "hi"),
        _ => panic!("expected a streaming text notification"),
    }

    let line2 = r#"{"type":"result","subtype":"success","result":"hi","session_id":"s1"}"#;
    let ev2 = classify_line(line2).unwrap();
    let notes2 = handle_stream_event(&mut state, &mut runner, ev2);
    let results: Vec<_> = notes2
        .iter()
        .filter_map(|n| match n {
            Notification::AgentResult { success, text } => Some((*success, text.clone())),
            _ => None,
        })
        .collect();
    assert_eq!(results, vec![(true, "hi".to_string())]);
    assert_eq!(state.get_session_id(), Some("s1".to_string()));
}

#[test]
fn reply_injection_without_open_turn_fails() {
    let runner = ClaudeRunner::new();
    let err = runner.send_tool_result("toolu_1", "ok", false).unwrap_err();
    assert_eq!(err, "assistant stdin not available");
    let err = runner.confirm_exit_plan_mode("toolu_1").unwrap_err();
    assert_eq!(err, "assistant stdin not available");
    let err = runner.deny_exit_plan_mode("toolu_1", "stay").unwrap_err();
    assert_eq!(err, "assistant stdin not available");
    let answers = vec![("q".to_string(), "a".to_string())];
    let err = supiki::claude::runner::respond_to_ask_user_question(
        &runner,
        "toolu_1",
        r#"{"questions":[]}"#,
        &answers,
    )
    .unwrap_err();
    assert_eq!(err, "assistant stdin not available");
}

#[test]
fn tool_result_envelope_is_exact() {
    let runner = ClaudeRunner { stdin_open: true, active_subagents: Vec::new() };
    let line = runner.send_tool_result("toolu_1", "Plan mode exited.", false).unwrap();
    assert_eq!(
        line,
        "{\"type\":\"user\",\"message\":{\"role\":\"user\",\"content\":[{\"type\":\"tool_result\",\"tool_use_id\":\"toolu_1\",\"content\":\"Plan mode exited.\"}]}}"
    );
    let err_line = runner.send_tool_result("toolu_2", "no \"thanks\"", true).unwrap();
    assert_eq!(
        err_line,
        "{\"type\":\"user\",\"message\":{\"role\":\"user\",\"content\":[{\"type\":\"tool_result\",\"tool_use_id\":\"toolu_2\",\"content\":\"no \\\"thanks\\\"\",\"is_error\":true}]}}"
    );
}

#[test]
fn ask_question_reply_envelope() {
    let runner = ClaudeRunner { stdin_open: true, active_subagents: Vec::new() };
    let answers = vec![("Color?".to_string(), "blue".to_string())];
    let line = supiki::claude::runner::respond_to_ask_user_question(
        &runner,
        "toolu_9",
        r#"[{"question":"Color?"}]"#,
        &answers,
    )
    .unwrap();
    assert!(line.contains("\"tool_use_id\":\"toolu_9\""));
    assert!(line.contains(
        "User has answered your questions: \\\"Color?\\\"=\\\"blue\\\". You can now continue"
    ));
    assert!(line.contains("\"toolUseResult\":{\"questions\":[{\"question\":\"Color?\"}],\"answers\":{\"Color?\":\"blue\"}}"));
    assert!(line.contains("{\"type\":\"text\",\"text\":"));

    let err = supiki::claude::runner::respond_to_ask_user_question(
        &runner,
        "toolu_9",
        "not json",
        &answers,
    )
    .unwrap_err();
    assert_eq!(err, "Failed to parse questions JSON");
}

#[test]
fn subagent_bulk_flush_in_start_order() {
    let mut state = AppState::new(false, false);
    let mut runner = ClaudeRunner::new();
    let line = r#"{"type":"assistant","message":{"content":[
        {"type":"tool_use","id":"t1","name":"Task","input":{"description":"first job"}},
        {"type":"tool_use","id":"t2","name":"Task","input":{"description":"second job"}}
    ]}}"#
        .replace('\n', " ");
    let ev = classify_line(&line).unwrap();
    let notes = handle_stream_event(&mut state, &mut runner, ev);
    let starts: Vec<_> = notes
        .iter()
        .filter_map(|n| match n {
            Notification::SubagentStart(e) => Some(e.task_id.clone()),
            _ => None,
        })
        .collect();
    assert_eq!(starts, vec!["t1_first_job".to_string(), "t2_second_job".to_string()]);

    let ev2 = classify_line(r#"{"type":"result","subtype":"success","result":"ok"}"#).unwrap();
    let notes2 = handle_stream_event(&mut state, &mut runner, ev2);
    let ends: Vec<_> = notes2
        .iter()
        .filter_map(|n| match n {
            Notification::SubagentEnd(e) => Some(e.task_id.clone()),
            _ => None,
        })
        .collect();
    assert_eq!(ends, vec!["t1_first_job".to_string(), "t2_second_job".to_string()]);
}

#[test]
fn tool_use_fan_out() {
    let mut state = AppState::new(false, false);
    let mut runner = ClaudeRunner::new();
    let line = r#"{"type":"assistant","message":{"content":[{"type":"tool_use","id":"t3","name":"mcp__mascot__set_emotion","input":{"emotion":"happy"}}]}}"#;
    let ev = classify_line(line).unwrap();
    let notes = handle_stream_event(&mut state, &mut runner, ev);
    assert_eq!(notes.len(), 2);
    assert!(matches!(notes[0], Notification::AgentEmotion { .. }));
    match &notes[1] {
        Notification::AgentToolUse(e) => assert_eq!(e.tool, "mcp__mascot__set_emotion"),
        _ => panic!("expected the generic tool-used notification"),
    }
}

#[test]
fn exit_plan_mode_and_ask_question_events() {
    let mut state = AppState::new(false, false);
    let mut runner = ClaudeRunner::new();
    let line = r#"{"type":"assistant","message":{"content":[{"type":"tool_use","id":"t5","name":"ExitPlanMode","input":{}}]}}"#;
    let notes = handle_stream_event(&mut state, &mut runner, classify_line(line).unwrap());
    assert!(matches!(&notes[0], Notification::AgentExitPlanMode(e) if e.tool_use_id == "t5"));

    let line = r#"{"type":"assistant","message":{"content":[{"type":"tool_use","id":"t6","name":"AskUserQuestion","input":{"questions":[{"question":"Pick one","options":[{"label":"A"},{"label":"B","description":"second"}],"multiSelect":true}]}}]}}"#;
    let notes = handle_stream_event(&mut state, &mut runner, classify_line(line).unwrap());
    match &notes[0] {
        Notification::AgentAskQuestion(e) => {
            assert_eq!(e.question_id, "t6");
            assert_eq!(e.questions.len(), 1);
            assert_eq!(e.questions[0].question, "Pick one");
            assert!(e.questions[0].multi_select);
            assert_eq!(e.questions[0].options.len(), 2);
            assert_eq!(e.questions[0].options[1].label, "B");
            assert_eq!(e.questions[0].options[1].description.as_deref(), Some("second"));
        }
        _ => panic!("expected an ask-question notification"),
    }
}

#[test]
fn system_line_persists_session() {
    let mut state = AppState::new(false, false);
    let mut runner = ClaudeRunner::new();
    let line = r#"{"type":"system","subtype":"init","session_id":"sess-7"}"#;
    let notes = handle_stream_event(&mut state, &mut runner, classify_line(line).unwrap());
    assert_eq!(state.get_session_id(), Some("sess-7".to_string()));
    assert!(matches!(&notes[0], Notification::PersistSession { session_id } if session_id == "sess-7"));
}

#[test]
fn codex_accumulates_and_deduplicates_text() {
    let mut state = AppState::new(false, false);
    let mut acc = String::new();

    let ev = classify_codex_line(r#"{"type":"thread.started","thread_id":"th-1"}"#).unwrap();
    let _ = handle_codex_event(&mut state, &mut acc, ev);
    assert_eq!(state.get_codex_session_id(), Some("th-1".to_string()));

    let ev = classify_codex_line(
        r#"{"type":"item.started","item":{"type":"agent_message","text":"hi"}}"#,
    )
    .unwrap();
    let notes = handle_codex_event(&mut state, &mut acc, ev);
    assert_eq!(notes.len(), 1);
    assert!(matches!(&notes[0], Notification::AgentStream { text } if text == "hi"));

    // The completed item repeats the text; deduplication drops it.
    let ev = classify_codex_line(
        r#"{"type":"item.completed","item":{"type":"agent_message","text":"hi"}}"#,
    )
    .unwrap();
    let notes = handle_codex_event(&mut state, &mut acc, ev);
    assert!(notes.is_empty());

    let ev = classify_codex_line(r#"{"type":"turn.completed","turn_id":"tu-1"}"#).unwrap();
    let notes = handle_codex_event(&mut state, &mut acc, ev);
    assert_eq!(notes.len(), 1);
    assert!(matches!(&notes[0], Notification::AgentResult { success: true, text } if text == "hi"));
    assert!(acc.is_empty());
}

#[test]
fn codex_turn_failed_and_error() {
    let mut state = AppState::new(false, false);
    let mut acc = String::new();
    let ev = classify_codex_line(r#"{"type":"turn.failed","error":"boom"}"#).unwrap();
    let notes = handle_codex_event(&mut state, &mut acc, ev);
    assert!(matches!(&notes[0], Notification::AgentError { error } if error == "boom"));

    let ev = classify_codex_line(r#"{"type":"turn.failed"}"#).unwrap();
    let notes = handle_codex_event(&mut state, &mut acc, ev);
    assert!(matches!(&notes[0], Notification::AgentError { error } if error == "Turn failed"));

    let ev = classify_codex_line(r#"{"type":"error"}"#).unwrap();
    let notes = handle_codex_event(&mut state, &mut acc, ev);
    assert!(matches!(&notes[0], Notification::AgentError { error } if error == "Unknown error"));
}

#[test]
fn codex_tool_call_routes() {
    let ev = classify_codex_line(
        r#"{"type":"item.completed","item":{"type":"mcp_tool_call","server":"mascot","tool":"move_to","arguments":{"target":"left"}}}"#,
    )
    .unwrap();
    let mut state = AppState::new(false, false);
    let mut acc = String::new();
    let notes = handle_codex_event(&mut state, &mut acc, ev);
    assert_eq!(notes.len(), 2);
    assert!(matches!(notes[0], Notification::MascotMove { .. }));
    match &notes[1] {
        Notification::AgentToolUse(e) => assert_eq!(e.tool, "move_to"),
        _ => panic!("expected the generic tool-used notification"),
    }
}

#[test]
fn codex_message_blocks_stream() {
    let ev = classify_codex_line(
        r#"{"type":"item.started","item":{"type":"message","content":[{"type":"output_text","text":"one"},{"type":"text","text":""},{"type":"input_text","text":"two"}]}}"#,
    )
    .unwrap();
    let mut state = AppState::new(false, false);
    let mut acc = String::new();
    let notes = handle_codex_event(&mut state, &mut acc, ev);
    assert_eq!(notes.len(), 2);
    assert!(matches!(&notes[0], Notification::AgentStream { text } if text == "one"));
    assert!(matches!(&notes[1], Notification::AgentStream { text } if text == "two"));
    assert_eq!(acc, "onetwo");
}

#[test]
fn extract_text_from_content_variants() {
    let c = CodexContent::Text { text: Some("a".to_string()) };
    assert_eq!(extract_text_from_content(&c), Some("a".to_string()));
    let c = CodexContent::OutputText { text: None };
    assert_eq!(extract_text_from_content(&c), None);
}

#[test]
fn sidecar_dispatch() {
    let mut state = AppState::new(false, false);
    let mut open = true;

    let notes = supiki::sidecar::handle_sidecar_line(&mut state, &mut open, "not json");
    assert!(notes.is_empty());
    assert!(open);

    let notes = supiki::sidecar::handle_sidecar_line(
        &mut state,
        &mut open,
        r#"{"type":"stream","text":"hey"}"#,
    );
    assert!(matches!(&notes[0], SidecarNotification::Stream { text } if text == "hey"));

    let notes = supiki::sidecar::handle_sidecar_line(
        &mut state,
        &mut open,
        r#"{"type":"result","sessionId":"sc-1","text":"done"}"#,
    );
    assert_eq!(state.get_session_id(), Some("sc-1".to_string()));
    assert!(!open);
    assert!(matches!(&notes[0], SidecarNotification::PersistSession { session_id } if session_id == "sc-1"));
    assert!(matches!(notes[1], SidecarNotification::TurnResult { .. }));

    let mut open = true;
    let notes = supiki::sidecar::handle_sidecar_line(
        &mut state,
        &mut open,
        r#"{"type":"mystery","x":1}"#,
    );
    assert!(matches!(notes[0], SidecarNotification::Raw { .. }));
    assert!(open);
}

#[test]
fn sidecar_candidates_in_order() {
    let c = supiki::sidecar::sidecar_bundled_candidates("/opt/app");
    assert_eq!(c, vec![
        "/opt/app/resources/agent-sidecar.cjs".to_string(),
        "/opt/app/agent-sidecar.cjs".to_string()
    ]);
    let c = supiki::sidecar::sidecar_dev_candidates("/opt/app");
    assert_eq!(c.len(), 4);
    assert_eq!(c[0], "/opt/app/sidecar/agent-sidecar.mjs");
    assert_eq!(c[3], "sidecar/agent-sidecar.mjs");
    let c = supiki::sidecar::sidecar_exe_candidates("/opt/app");
    assert_eq!(c[0], "/opt/app/agent-sidecar.exe");
}

#[test]
fn query_args_modes() {
    let state = AppState::new(true, false);
    let args = supiki::claude::runner::build_query_args(&state, "/tmp/mascot-mcp.json", "");
    assert!(args.contains(&"--dangerously-skip-permissions".to_string()));
    assert!(!args.contains(&"--allowedTools".to_string()));
    assert!(args.contains(&"--mcp-config".to_string()));

    let mut state = AppState::new(false, false);
    state.set_session_id("sess-1".to_string());
    let args = supiki::claude::runner::build_query_args(&state, "/tmp/mascot-mcp.json", "");
    assert!(args.contains(&"--allowedTools".to_string()));
    assert!(args.contains(&"mcp__mascot__move_to".to_string()));
    let pos = args.iter().position(|a| a == "--resume").unwrap();
    assert_eq!(args[pos + 1], "sess-1");
}

#[test]
fn codex_query_args_first_turn_has_instructions() {
    let state = AppState::new(false, false);
    let images: Vec<String> = vec![];
    let args = supiki::codex::runner::build_codex_query_args(&state, &images, "hello".to_string(), "");
    assert_eq!(args.first(), Some(&"exec".to_string()));
    assert_eq!(args.last(), Some(&"hello".to_string()));
    assert!(args.iter().any(|a| a.starts_with("developer_instructions=")));

    let mut state = AppState::new(false, false);
    state.set_codex_session_id("th-9".to_string());
    let args = supiki::codex::runner::build_codex_query_args(&state, &images, "hi".to_string(), "");
    assert!(args.contains(&"resume".to_string()));
    assert!(args.contains(&"th-9".to_string()));
    assert!(!args.iter().any(|a| a.starts_with("developer_instructions=")));
}

#[test]
fn codex_exe_candidates_order() {
    let rd = "/res".to_string();
    let c = supiki::codex::runner::codex_exe_candidates(Some(&rd));
    assert_eq!(c[0], "/res/codex-x86_64-pc-windows-msvc.exe");
    assert_eq!(c[1], "../codex-x86_64-pc-windows-msvc.exe");
    let c = supiki::codex::runner::codex_exe_candidates(None);
    assert_eq!(c.len(), 2);
}

#[test]
fn mcp_config_json_exact() {
    let cfg = supiki::claude::runner::mcp_config_json("/opt/app/mascot");
    assert_eq!(
        cfg,
        "{\"mcpServers\":{\"mascot\":{\"command\":\"/opt/app/mascot\",\"args\":[\"--mcp\"]}}}"
    );
    let cfg = supiki::claude::runner::mcp_config_json("C:\\apps\\mascot.exe");
    assert!(cfg.contains("C:\\\\apps\\\\mascot.exe"));
}

#[test]
fn stream_json_message_without_images() {
    let images: Vec<String> = vec![];
    let m = supiki::claude::runner::build_stream_json_message("say \"hi\"", &images);
    assert_eq!(
        m,
        "{\"type\":\"user\",\"message\":{\"role\":\"user\",\"content\":[{\"type\":\"text\",\"text\":\"say \\\"hi\\\"\"}]}}"
    );
}

#[test]
fn assistant_without_content_defaults_to_empty() {
    let ev = classify_line(r#"{"type":"assistant","message":{}}"#).unwrap();
    match ev {
        StreamEvent::Assistant { message } => assert!(message.content.is_empty()),
        _ => panic!("Expected Assistant event"),
    }
    assert!(classify_line(r#"{"type":"assistant"}"#).is_none());
    assert!(
        classify_line(r#"{"type":"assistant","message":{"content":[{"type":"odd"}]}}"#).is_none()
    );
}

#[test]
fn user_line_produces_nothing() {
    let ev = classify_line(r#"{"type":"user","message":{}}"#).unwrap();
    assert!(matches!(ev, StreamEvent::User));
    let mut state = AppState::new(false, false);
    let mut runner = ClaudeRunner::new();
    assert!(handle_stream_event(&mut state, &mut runner, ev).is_empty());
}

#[test]
fn task_description_defaults() {
    let mut state = AppState::new(false, false);
    let mut runner = ClaudeRunner::new();
    let line = r#"{"type":"assistant","message":{"content":[{"type":"tool_use","id":"t7","name":"Task","input":{}}]}}"#;
    let notes = handle_stream_event(&mut state, &mut runner, classify_line(line).unwrap());
    match &notes[0] {
        Notification::SubagentStart(e) => {
            assert_eq!(e.task_id, "t7_task");
            assert_eq!(e.description, "task");
        }
        _ => panic!("expected a subagent-start notification"),
    }
}
