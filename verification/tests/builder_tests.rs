//! Tests for the three command-line builders.

use supiki::claude::command::ClaudeCommandBuilder as InteractiveBuilder;
use supiki::claude_command::ClaudeCommandBuilder;
use supiki::codex::command::CodexCommandBuilder;

#[test]
fn command_test_builder_basic() {
    let args = InteractiveBuilder::new().with_interactive_streaming().build();

    assert!(args.contains(&"--output-format".to_string()));
    assert!(args.contains(&"stream-json".to_string()));
    assert!(args.contains(&"--verbose".to_string()));
}

#[test]
fn command_test_builder_with_session() {
    let session = "test-session-123".to_string();
    let args = InteractiveBuilder::new().with_session_resume(Some(&session)).build();

    assert!(args.contains(&"--resume".to_string()));
    assert!(args.contains(&session));
}

#[test]
fn command_test_builder_with_tools() {
    let args = InteractiveBuilder::new().with_allowed_tools(&["tool1", "tool2"]).build();

    assert!(args.contains(&"--allowedTools".to_string()));
    assert!(args.contains(&"tool1".to_string()));
    assert!(args.contains(&"tool2".to_string()));
}

#[test]
fn test_builder_with_streaming_input() {
    let args = InteractiveBuilder::new().with_streaming_input().build();

    assert!(args.contains(&"--input-format".to_string()));
    assert!(args.contains(&"stream-json".to_string()));
}

#[test]
fn claude_command_test_builder_basic() {
    let args = ClaudeCommandBuilder::new()
        .with_streaming_output()
        .with_prompt("hello".to_string())
        .build();

    assert!(args.contains(&"--print".to_string()));
    assert!(args.contains(&"stream-json".to_string()));
    assert!(args.contains(&"hello".to_string()));
}

#[test]
fn claude_command_test_builder_with_session() {
    let session = "test-session-123".to_string();
    let args = ClaudeCommandBuilder::new().with_session_resume(Some(&session)).build();

    assert!(args.contains(&"--resume".to_string()));
    assert!(args.contains(&session));
}

#[test]
fn claude_command_test_builder_with_tools() {
    let args = ClaudeCommandBuilder::new().with_allowed_tools(&["tool1", "tool2"]).build();

    assert!(args.contains(&"--allowedTools".to_string()));
    assert!(args.contains(&"tool1".to_string()));
    assert!(args.contains(&"tool2".to_string()));
}

#[test]
fn test_builder_with_images() {
    let args = ClaudeCommandBuilder::new()
        .with_images(vec!["img1.png".to_string(), "img2.png".to_string()])
        .build();

    let image_count = args.iter().filter(|a| *a == "--image").count();
    assert_eq!(image_count, 2);
}

#[test]
fn test_builder_starts_with_exec() {
    let args = CodexCommandBuilder::new().build();
    assert_eq!(args.first(), Some(&"exec".to_string()));
}

#[test]
fn test_builder_with_json_and_full_auto() {
    let args = CodexCommandBuilder::new().with_json_output().with_full_auto().build();

    assert!(args.contains(&"--json".to_string()));
    assert!(args.contains(&"--full-auto".to_string()));
}

#[test]
fn test_builder_with_session() {
    let session = "thread-123".to_string();
    let args = CodexCommandBuilder::new().with_session_resume(Some(&session)).build();

    assert!(args.contains(&"resume".to_string()));
    assert!(args.contains(&session));
}

#[test]
fn test_builder_with_working_directory() {
    let cwd = "/some/path".to_string();
    let args = CodexCommandBuilder::new().with_working_directory(Some(&cwd)).build();

    assert!(args.contains(&"--cd".to_string()));
    assert!(args.contains(&cwd));
}

#[test]
fn test_builder_with_prompt() {
    let args = CodexCommandBuilder::new().with_prompt("hello".to_string()).build();

    assert_eq!(args.last(), Some(&"hello".to_string()));
}

#[test]
fn test_builder_with_system_prompt() {
    let args = CodexCommandBuilder::new().with_system_prompt("You are a helpful assistant.").build();

    assert!(args.contains(&"--config".to_string()));
    assert!(args.iter().any(|a| a.contains("developer_instructions=")));
    assert!(args.iter().any(|a| a.contains("helpful assistant")));
}

#[test]
fn test_builder_system_prompt_escapes_quotes() {
    let args = CodexCommandBuilder::new().with_system_prompt("Say \"hello\"").build();

    let config_arg = args.iter().find(|a| a.contains("developer_instructions=")).unwrap();
    assert!(config_arg.contains("\\\"hello\\\""));
}

#[test]
fn test_builder_with_config() {
    let args = CodexCommandBuilder::new().with_config("model", "\"gpt-4\"").build();

    assert!(args.contains(&"--config".to_string()));
    assert!(args.contains(&"model=\"gpt-4\"".to_string()));
}

#[test]
fn test_builder_with_default_model_config() {
    let args = CodexCommandBuilder::new().with_default_model_config().build();

    let config_count = args.iter().filter(|a| *a == "--config").count();
    assert_eq!(config_count, 2);

    assert!(args.iter().any(|a| a.contains("model=") && a.contains("gpt-5.2")));
    assert!(args.iter().any(|a| a.contains("model_reasoning_effort=") && a.contains("high")));
}

#[test]
fn test_builder_with_skip_git_repo_check() {
    let args = CodexCommandBuilder::new().with_skip_git_repo_check().build();

    assert!(args.contains(&"--skip-git-repo-check".to_string()));
}

#[test]
fn resume_flag_and_identifier_are_adjacent() {
    let session = "sess-42".to_string();
    let args = InteractiveBuilder::new()
        .with_interactive_streaming()
        .with_session_resume(Some(&session))
        .build();
    let pos = args.iter().position(|a| a == "--resume").unwrap();
    assert_eq!(args[pos + 1], "sess-42");

    let cargs = CodexCommandBuilder::new().with_session_resume(Some(&session)).build();
    let cpos = cargs.iter().position(|a| a == "resume").unwrap();
    assert_eq!(cargs[cpos + 1], "sess-42");
}

#[test]
fn escape_round_trip_concrete() {
    let original = "a\\b\"c\nd";
    let escaped = supiki::codex::command::escape_config_str(original);
    assert_eq!(escaped, "a\\\\b\\\"c\\nd");
    let back = supiki::codex::command::unescape_config_str(&escaped).unwrap();
    assert_eq!(back, original);
}

#[test]
fn unescape_rejects_bad_escapes() {
    assert!(supiki::codex::command::unescape_config_str("abc\\x").is_none());
    assert!(supiki::codex::command::unescape_config_str("trailing\\").is_none());
    assert_eq!(supiki::codex::command::unescape_config_str("plain").unwrap(), "plain");
}
