use crest::aurora_ipc::{apply_wallpaper_event, aurora_line_event, AuroraClient, AuroraState};
use crest::config::types::ModuleEntry;
use crest::control_ipc::{
    bad_request_response, ctl_report, handle_request, pipe_open_step, ControlAction, ControlInput, CtlOutcome,
    CtlResponse, PipeOpenError, PipeOpenStep,
};
use crest::module::aurora_wallpaper::{
    shorten_file_name, wallpaper_label, wallpaper_max_length, wallpaper_text, AuroraWallpaperModule,
};
use crest::module::workspaces::focus_workspace_args;
use crest::module::Module;
use crest::module::WiriState;
use crest::wiri_ipc::{apply_wiri_event, WindowInfoIpc, WiriClient, WiriEvent, WorkspaceInfo};

fn make_state_with_workspaces() -> WiriState {
    WiriState {
        workspaces: vec!["1".to_string(), "2".to_string(), "3".to_string()],
        focused_workspace: 0,
        ..Default::default()
    }
}

fn workspace(name: &str, id: u32, window_count: usize) -> WorkspaceInfo {
    WorkspaceInfo { name: name.to_string(), id, window_count }
}

// ---------------------------------------------------------------------------
// wiri events (decoded)
// ---------------------------------------------------------------------------

#[test]
fn test_wiri_ipc_parses_workspaces_changed_event() {
    let event = WiriEvent::WorkspacesChanged { workspaces: vec![workspace("1", 1, 2), workspace("2", 2, 0)] };
    let mut state = WiriState::default();
    apply_wiri_event(&mut state, event);
    assert_eq!(state.workspaces, vec!["1", "2"]);
}

#[test]
fn test_wiri_ipc_parses_workspace_activated_event() {
    let mut state = make_state_with_workspaces();
    apply_wiri_event(&mut state, WiriEvent::WorkspaceActivated { workspace: "2".to_string() });
    assert_eq!(state.focused_workspace, 1);
}

#[test]
fn test_wiri_ipc_parses_workspace_switched_event() {
    let mut state = make_state_with_workspaces();
    apply_wiri_event(&mut state, WiriEvent::WorkspaceSwitched { workspace_id: 3, monitor_id: 0 });
    assert_eq!(state.focused_workspace, 2);
}

#[test]
fn test_wiri_ipc_unknown_event_ignored() {
    let mut state = WiriState::default();
    apply_wiri_event(&mut state, WiriEvent::Unknown);
    assert!(state.workspaces.is_empty());
}

#[test]
fn test_wiri_ipc_window_focused_tracks_hwnd() {
    let mut state = WiriState::default();
    apply_wiri_event(&mut state, WiriEvent::WindowFocused { window_hwnd: 12345 });
    assert_eq!(state.focused_window_hwnd, Some(12345));
}

fn three_workspaces() -> WiriState {
    WiriState {
        workspaces: vec!["a".to_string(), "b".to_string(), "c".to_string()],
        focused_workspace: 0,
        focused_window_hwnd: None,
        focused_window_title: String::new(),
    }
}

#[test]
fn test_activation_of_unknown_name_changes_nothing() {
    let mut s = three_workspaces();
    s.focused_workspace = 2;
    apply_wiri_event(&mut s, WiriEvent::WorkspaceActivated { workspace: "zzz".to_string() });
    assert_eq!(s.focused_workspace, 2);
}

#[test]
fn test_switch_out_of_range_and_zero() {
    let mut s = three_workspaces();
    s.focused_workspace = 1;
    apply_wiri_event(&mut s, WiriEvent::WorkspaceSwitched { workspace_id: 4, monitor_id: 0 });
    assert_eq!(s.focused_workspace, 1);
    apply_wiri_event(&mut s, WiriEvent::WorkspaceSwitched { workspace_id: -1, monitor_id: 0 });
    assert_eq!(s.focused_workspace, 1);
    apply_wiri_event(&mut s, WiriEvent::WorkspaceSwitched { workspace_id: 0, monitor_id: 0 });
    assert_eq!(s.focused_workspace, 0);
}

#[test]
fn test_window_title_follows_focused_window() {
    let mut s = three_workspaces();
    apply_wiri_event(&mut s, WiriEvent::WindowFocused { window_hwnd: 7 });
    apply_wiri_event(
        &mut s,
        WiriEvent::WindowOpened { window: WindowInfoIpc { hwnd: 8, title: "other".to_string() } },
    );
    assert_eq!(s.focused_window_title, "");
    apply_wiri_event(
        &mut s,
        WiriEvent::WindowOpened { window: WindowInfoIpc { hwnd: 7, title: "Editor".to_string() } },
    );
    assert_eq!(s.focused_window_title, "Editor");
    apply_wiri_event(&mut s, WiriEvent::WindowClosed { window_hwnd: 8 });
    assert_eq!(s.focused_window_hwnd, Some(7));
    apply_wiri_event(&mut s, WiriEvent::WindowClosed { window_hwnd: 7 });
    assert_eq!(s.focused_window_hwnd, None);
    assert_eq!(s.focused_window_title, "");
}

// ---------------------------------------------------------------------------
// aurora events and the wallpaper module's text
// ---------------------------------------------------------------------------

#[test]
fn test_aurora_wallpaper_event() {
    let mut st = AuroraState::default();
    assert_eq!(wallpaper_text(&st, 40), "(no wallpaper)");
    assert!(apply_wallpaper_event(&mut st, "wallpaper_changed", Some("0".to_string()), Some("/pics/sunset.jpg".to_string())));
    assert_eq!(st.current_wallpapers.get("0"), Some("/pics/sunset.jpg".to_string()));
    assert_eq!(wallpaper_text(&st, 40), "sunset.jpg");
    assert_eq!(wallpaper_text(&st, 6), "sunset…");
    // incomplete event
    assert!(!apply_wallpaper_event(&mut st, "wallpaper_changed", None, Some("/x.png".to_string())));
    assert_eq!(st.current_wallpapers.get("0"), Some("/pics/sunset.jpg".to_string()));
    // other events change nothing
    assert!(apply_wallpaper_event(&mut st, "cycle_started", Some("0".to_string()), Some("/y.png".to_string())));
    assert_eq!(st.current_wallpapers.get("0"), Some("/pics/sunset.jpg".to_string()));
}

#[test]
fn test_wallpaper_label_and_shortening() {
    assert_eq!(wallpaper_label("/a/b/c.png".to_string(), Some("c.png".to_string()), 40), "c.png");
    assert_eq!(wallpaper_label("noname".to_string(), None, 40), "noname");
    assert_eq!(shorten_file_name("abcdef", 6), "abcdef");
    assert_eq!(shorten_file_name("abcdefg", 6), "abcdef…");
    // the limit is in bytes, the cut in characters
    assert_eq!(shorten_file_name("ééé", 4), "ééé…");
    assert_eq!(shorten_file_name("ééé", 6), "ééé");
    let mut e = ModuleEntry::default();
    assert_eq!(wallpaper_max_length(&e), 40);
    e.extra.insert("max-length".to_string(), "12".to_string());
    assert_eq!(wallpaper_max_length(&e), 12);
}

// ---------------------------------------------------------------------------
// control pipe
// ---------------------------------------------------------------------------

#[test]
fn test_control_status_and_quit() {
    let (r, a) = handle_request(ControlInput::Status);
    assert!(r.ok);
    assert_eq!(r.message, "running");
    assert!(matches!(a, ControlAction::Nothing));
    let (r, a) = handle_request(ControlInput::Quit);
    assert!(r.ok);
    assert_eq!(r.message, "quitting");
    assert!(matches!(a, ControlAction::Quit));
}

#[test]
fn test_control_reload() {
    let (r, a) = handle_request(ControlInput::Reload(Ok("bar {\n height 48\n}\n".to_string())));
    assert!(r.ok);
    assert_eq!(r.message, "config reloaded");
    match a {
        ControlAction::ReplaceConfig(c) => assert_eq!(c.bar.height, 48),
        _ => panic!("a reload replaces the configuration"),
    }
    let (r, a) = handle_request(ControlInput::Reload(Err("file not found".to_string())));
    assert!(!r.ok);
    assert_eq!(r.message, "read error: file not found");
    assert!(matches!(a, ControlAction::Nothing));
}

#[test]
fn test_control_bad_request() {
    let r = bad_request_response("expected value at line 1 column 1");
    assert!(!r.ok);
    assert_eq!(r.message, "parse error: expected value at line 1 column 1");
}

#[test]
fn test_ctl_reports() {
    let ok = ctl_report(CtlOutcome::Answered(CtlResponse { ok: true, message: "running".to_string() }));
    assert!(!ok.to_stderr);
    assert_eq!(ok.line, "ok: running");
    assert_eq!(ok.exit_code, 0);
    let bad = ctl_report(CtlOutcome::Answered(CtlResponse { ok: false, message: "parse error".to_string() }));
    assert!(bad.to_stderr);
    assert_eq!(bad.line, "error: parse error");
    assert_eq!(bad.exit_code, 1);
    let gone = ctl_report(CtlOutcome::Failed("pipe not found: crest daemon is not running".to_string()));
    assert_eq!(gone.line, "crest is not running (pipe not found)");
    assert_eq!(gone.exit_code, 1);
    let other = ctl_report(CtlOutcome::Failed("access denied".to_string()));
    assert_eq!(other.line, "crest-ctl: access denied");
}

#[test]
fn test_pipe_open_steps() {
    match pipe_open_step(PipeOpenError::NotFound, 0, 3000) {
        PipeOpenStep::GiveUp(m) => assert_eq!(m, "pipe not found: crest daemon is not running"),
        _ => panic!("a missing pipe ends the attempt"),
    }
    assert!(matches!(pipe_open_step(PipeOpenError::Busy, 100, 3000), PipeOpenStep::Retry));
    match pipe_open_step(PipeOpenError::Busy, 3000, 3000) {
        PipeOpenStep::GiveUp(m) => assert_eq!(m, "pipe busy timeout after 3000ms"),
        _ => panic!("a busy pipe past the deadline ends the attempt"),
    }
    assert!(matches!(pipe_open_step(PipeOpenError::Other, 0, 3000), PipeOpenStep::PassOn));
}

#[test]
fn test_aurora_client_and_module() {
    let client = AuroraClient::new();
    {
        let shared = client.state();
        let mut state = shared.write();
        assert!(apply_wallpaper_event(&mut state, "wallpaper_changed", Some("1".to_string()), Some("C:/w/forest.png".to_string())));
        assert!(!apply_wallpaper_event(&mut state, "wallpaper_changed", Some("1".to_string()), None));
    }
    let m = AuroraWallpaperModule::new(&ModuleEntry::default(), client.state());
    let snap = m.initial();
    assert_eq!(snap.text, "forest.png");
    assert_eq!(snap.region, crest::module::BarRegion::Right);
    assert_eq!(m.kind(), "aurora-wallpaper");
    assert_eq!(m.interval(), std::time::Duration::from_secs(2));
    let empty = AuroraWallpaperModule::new(&ModuleEntry::default(), AuroraClient::new().state());
    assert_eq!(empty.initial().text, "(no wallpaper)");
}

#[test]
fn test_focus_workspace_args() {
    assert_eq!(focus_workspace_args(0), vec!["focus-workspace".to_string(), "1".to_string()]);
    assert_eq!(focus_workspace_args(4), vec!["focus-workspace".to_string(), "5".to_string()]);
}

#[test]
fn test_aurora_line_event() {
    assert_eq!(aurora_line_event("   "), None);
    assert_eq!(aurora_line_event("not json"), None);
    assert_eq!(
        aurora_line_event(r#"{"type":"wallpaper_changed","monitor_id":"0"}"#),
        Some(("wallpaper_changed".to_string(), Some("0".to_string()), None))
    );
    assert_eq!(aurora_line_event(r#"{"monitor_id":7}"#), Some((String::new(), None, None)));
    let (kind, monitor, path) =
        aurora_line_event(r#"{"type":"wallpaper_changed","monitor_id":"0","path":"C:/a/b.png"}"#).unwrap();
    let client = AuroraClient::new();
    {
        let shared = client.state();
        assert!(apply_wallpaper_event(&mut shared.write(), &kind, monitor, path));
    }
    let m = AuroraWallpaperModule::new(&ModuleEntry::default(), client.state());
    assert_eq!(m.initial().text, "b.png");
}

#[test]
fn test_wiri_client_state_is_one_shared_lock() {
    let client = WiriClient::new();
    let a = client.state();
    let b = client.state();
    assert!(std::sync::Arc::ptr_eq(&a, &b));
    a.write().unwrap().focused_workspace = 4;
    assert_eq!(b.read().unwrap().focused_workspace, 4);
}
