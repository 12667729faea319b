//! Tests for the session state store and the mode flags.

use supiki::state::AppState;

#[test]
fn test_session_id_mutex_operations() {
    let mut state = AppState::new(false, false);
    state.set_session_id("test-session-123".to_string());
    assert_eq!(state.get_session_id(), Some("test-session-123".to_string()));
    state.clear_session();
    assert!(state.get_session_id().is_none());
}

#[test]
fn test_dev_mode_mutex_operations() {
    let state = AppState::new(true, false);
    assert!(state.is_dev_mode());
    let state = AppState::new(false, false);
    assert!(!state.is_dev_mode());
}

#[test]
fn test_supiki_mode_mutex_operations() {
    let state = AppState::new(false, true);
    assert!(state.is_supiki_mode());
    let state = AppState::new(false, false);
    assert!(!state.is_supiki_mode());
}

#[test]
fn test_backend_mode_mutex_operations() {
    let mut state = AppState::new(false, false);
    assert_eq!(state.get_backend_mode(), "primary");
    state.set_backend_mode("codex").unwrap();
    assert_eq!(state.get_backend_mode(), "codex");
    state.set_backend_mode("primary").unwrap();
    assert_eq!(state.get_backend_mode(), "primary");
}

#[test]
fn test_codex_session_id_mutex_operations() {
    let mut state = AppState::new(false, false);
    state.set_codex_session_id("codex-thread-456".to_string());
    assert_eq!(state.get_codex_session_id(), Some("codex-thread-456".to_string()));
    state.clear_codex_session();
    assert!(state.get_codex_session_id().is_none());
}

#[test]
fn test_get_session_file_path() {
    let path = supiki::state::get_session_file_path();
    if let Some(p) = path {
        assert!(p.ends_with("session.txt"));
        assert!(p.contains("supiki"));
    }
}

#[test]
fn test_get_codex_session_file_path() {
    let path = supiki::state::get_codex_session_file_path();
    if let Some(p) = path {
        assert!(p.ends_with("codex-session.txt"));
        assert!(p.contains("supiki"));
    }
}

#[test]
fn session_path_builders_exact() {
    assert_eq!(
        supiki::state::session_path_of("/home/u/.local/share"),
        "/home/u/.local/share/supiki/session.txt"
    );
    assert_eq!(
        supiki::state::codex_session_path_of("/data"),
        "/data/supiki/codex-session.txt"
    );
}

#[test]
fn invalid_backend_mode_is_rejected() {
    let mut state = AppState::new(false, false);
    let err = state.set_backend_mode("gemini").unwrap_err();
    assert_eq!(err, "Invalid backend mode: gemini. Use 'primary' or 'codex'.");
    assert_eq!(state.get_backend_mode(), "primary");
}

#[test]
fn recent_dirs_dedup_and_front() {
    let mut state = AppState::new(false, false);
    state.set_sidecar_cwd("/a".to_string(), true).unwrap();
    state.set_sidecar_cwd("/b".to_string(), true).unwrap();
    state.set_sidecar_cwd("/a".to_string(), true).unwrap();
    let recent = state.get_recent_cwds();
    assert_eq!(recent, vec!["/a".to_string(), "/b".to_string()]);
}

#[test]
fn recent_dirs_bounded_drops_oldest() {
    let mut state = AppState::new(false, false);
    for d in ["/d1", "/d2", "/d3", "/d4", "/d5", "/d6"] {
        state.set_sidecar_cwd(d.to_string(), true).unwrap();
    }
    let recent = state.get_recent_cwds();
    assert_eq!(
        recent,
        vec![
            "/d6".to_string(),
            "/d5".to_string(),
            "/d4".to_string(),
            "/d3".to_string(),
            "/d2".to_string()
        ]
    );
}

#[test]
fn cwd_change_clears_both_sessions() {
    let mut state = AppState::new(false, false);
    state.set_session_id("s1".to_string());
    state.set_codex_session_id("t1".to_string());
    state.set_sidecar_cwd("/work".to_string(), true).unwrap();
    assert!(state.get_session_id().is_none());
    assert!(state.get_codex_session_id().is_none());
    assert_eq!(state.get_sidecar_cwd(), Some("/work".to_string()));
}

#[test]
fn invalid_cwd_is_rejected_and_state_kept() {
    let mut state = AppState::new(false, false);
    state.set_session_id("s1".to_string());
    let err = state.set_sidecar_cwd("/missing".to_string(), false).unwrap_err();
    assert_eq!(err, "Directory does not exist: /missing");
    assert_eq!(state.get_session_id(), Some("s1".to_string()));
    assert!(state.get_recent_cwds().is_empty());
}

#[test]
fn mode_flags_from_sources() {
    let args: Vec<String> = vec![];
    assert!(supiki::state::dev_mode_from("mascot_dev", &args, None));
    assert!(supiki::state::dev_mode_from("mascot-dev", &args, None));
    assert!(!supiki::state::dev_mode_from("mascot", &args, None));
    let args = vec!["--dev".to_string()];
    assert!(supiki::state::dev_mode_from("mascot", &args, None));
    let args: Vec<String> = vec![];
    let one = "1".to_string();
    assert!(supiki::state::dev_mode_from("mascot", &args, Some(&one)));
    assert!(supiki::state::supiki_mode_from("supiki-app"));
    assert!(!supiki::state::supiki_mode_from("mascot"));
}

#[test]
fn actual_cwd_prefers_override() {
    let mut state = AppState::new(false, false);
    assert_eq!(state.get_actual_cwd("/proc-cwd".to_string()), "/proc-cwd");
    state.set_sidecar_cwd("/chosen".to_string(), true).unwrap();
    assert_eq!(state.get_actual_cwd("/proc-cwd".to_string()), "/chosen");
}
