use herd::events::{actions_for, initial_window, next_state, AppAction, AppEvent, WindowState};
use herd::notify::{crash_notice, info_notice, restart_notice, Urgency};
use herd::terminal::keys::{key_to_bytes, Key, NamedKey};
use herd::collections::NamedMap;
use herd::config::schema::ProcessConfig;
use herd::runtime::process::ProcessState;
use herd::runtime::supervisor::Supervisor;
use herd::sidebar::sidebar_rows;
use herd::status::{crash_status, project_status, start_all_status, stop_all_status};

#[test]
fn crash_notices_name_the_exit() {
    let n = crash_notice("web", Some(1));
    assert_eq!(n.summary, "Herd: Process Crashed");
    assert_eq!(n.body, "Process 'web' exited with code 1");
    assert_eq!(n.icon, "dialog-warning");
    assert_eq!(n.urgency, Urgency::Critical);
    assert_eq!(crash_notice("web", Some(-2)).body, "Process 'web' exited with code -2");
    assert_eq!(crash_notice("db", None).body, "Process 'db' was killed by a signal");
}

#[test]
fn restart_and_info_notices() {
    let n = restart_notice("web");
    assert_eq!(n.summary, "Herd: Process Restarted");
    assert_eq!(n.body, "Process 'web' has been restarted");
    assert_eq!(n.urgency, Urgency::Normal);
    let i = info_notice("Title", "Body");
    assert_eq!((i.summary.as_str(), i.body.as_str(), i.icon.as_str()), ("Title", "Body", "dialog-information"));
}

#[test]
fn characters_are_sent_as_utf8() {
    assert_eq!(key_to_bytes(&Key::Character("a".to_string()), false), Some(b"a".to_vec()));
    assert_eq!(key_to_bytes(&Key::Character("é".to_string()), false), Some("é".as_bytes().to_vec()));
    assert_eq!(key_to_bytes(&Key::Character(String::new()), false), None);
}

#[test]
fn control_letters_send_control_codes() {
    assert_eq!(key_to_bytes(&Key::Character("c".to_string()), true), Some(vec![3]));
    assert_eq!(key_to_bytes(&Key::Character("C".to_string()), true), Some(vec![3]));
    assert_eq!(key_to_bytes(&Key::Character("z".to_string()), true), Some(vec![26]));
    // not a letter: sent as typed
    assert_eq!(key_to_bytes(&Key::Character("1".to_string()), true), Some(b"1".to_vec()));
    // the low byte of U+0161 is 'a'
    assert_eq!(key_to_bytes(&Key::Character("\u{161}".to_string()), true), Some(vec![1]));
}

#[test]
fn named_keys_send_escape_sequences() {
    assert_eq!(key_to_bytes(&Key::Named(NamedKey::Enter), false), Some(b"\r".to_vec()));
    assert_eq!(key_to_bytes(&Key::Named(NamedKey::Backspace), false), Some(vec![0x7f]));
    assert_eq!(key_to_bytes(&Key::Named(NamedKey::ArrowUp), true), Some(b"\x1b[A".to_vec()));
    assert_eq!(key_to_bytes(&Key::Named(NamedKey::PageDown), false), Some(b"\x1b[6~".to_vec()));
    assert_eq!(key_to_bytes(&Key::Named(NamedKey::Delete), false), Some(b"\x1b[3~".to_vec()));
    assert_eq!(key_to_bytes(&Key::Named(NamedKey::Other), false), None);
    assert_eq!(key_to_bytes(&Key::Unidentified, false), None);
}

#[test]
fn sidebar_rows_head_each_change_of_section() {

    let config = |name: &str, section: &str| ProcessConfig {
        name: name.to_string(),
        command: "run".to_string(),
        working_dir: None,
        auto_restart: false,
        section: section.to_string(),
        lazy: false,
        interactive: false,
        restart_delay_ms: None,
        watch: None,
        env: NamedMap::new(),
    };
    let mut sup = Supervisor::new("test", None);
    sup.add_process(&config("web", "services"));
    sup.add_process(&config("db", "services"));
    sup.add_process(&config("agent", "agents"));
    sup.set_state("db", ProcessState::Running);
    let order: Vec<String> =
        ["web", "db", "agent", "ghost", "web"].iter().map(|s| s.to_string()).collect();
    let rows = sidebar_rows(&sup, &order, Some("agent"));
    let headings: Vec<Option<&str>> = rows.iter().map(|r| r.heading.as_deref()).collect();
    assert_eq!(headings, vec![Some("services"), None, Some("agents"), Some("services"), None]);
    assert_eq!(rows[1].state, ProcessState::Running);
    assert_eq!(rows[3].state, ProcessState::Pending);
    assert!(rows[2].focused && !rows[0].focused);
    assert_eq!(rows[4].name, "web");
}

#[test]
fn status_messages() {
    assert_eq!(project_status(Some("my-app")), "Project: my-app");
    assert_eq!(project_status(None), "No herd.toml found \u{2014} create one to get started");
    assert_eq!(start_all_status(0), "All processes started");
    assert_eq!(start_all_status(2), "2 process(es) failed to start");
    assert_eq!(stop_all_status(), "All processes stopped");
    assert_eq!(crash_status("web"), "Process 'web' crashed");
}

// ── Window events ──

fn window(started: bool, has_config: bool) -> WindowState {
    WindowState { started, has_config, focused: None, status: "Project: demo".to_string() }
}

#[test]
fn first_tick_of_a_configured_project_starts_the_processes() {
    let actions = actions_for(&window(false, true), &AppEvent::Tick);
    assert_eq!(
        actions,
        vec![
            AppAction::StartAll,
            AppAction::ProcessPendingRestarts,
            AppAction::ReapExited,
            AppAction::PublishState,
            AppAction::RefreshTerminal
        ]
    );
    assert_eq!(actions_for(&window(true, true), &AppEvent::Tick)[0], AppAction::ProcessPendingRestarts);
    assert_eq!(actions_for(&window(false, false), &AppEvent::Tick).len(), 4);
    let quiet = next_state(window(false, true), &AppEvent::Tick, 0);
    assert!(quiet.started);
    assert_eq!(quiet.status, "Project: demo");
    let failed = next_state(window(false, true), &AppEvent::Tick, 2);
    assert_eq!(failed.status, "2 process(es) failed to start");
    let later = next_state(window(true, true), &AppEvent::Tick, 5);
    assert_eq!(later.status, "Project: demo");
}

#[test]
fn user_events_set_focus_and_status() {
    let s = next_state(window(false, true), &AppEvent::SelectProcess("web".to_string()), 0);
    assert_eq!(s.focused, Some("web".to_string()));
    assert!(!s.started);
    assert_eq!(actions_for(&s, &AppEvent::SelectProcess("x".to_string())), vec![AppAction::RefreshTerminal]);
    let s = next_state(s, &AppEvent::StartAll, 0);
    assert!(s.started);
    assert_eq!(s.status, "All processes started");
    let s = next_state(s, &AppEvent::StopAll, 0);
    assert_eq!(s.status, "All processes stopped");
    assert_eq!(
        actions_for(&s, &AppEvent::StopAll),
        vec![AppAction::StopAll, AppAction::PublishState, AppAction::RefreshTerminal]
    );
}

#[test]
fn window_opens_on_the_first_process() {
    let names = vec!["web".to_string(), "worker".to_string()];
    let w = initial_window(Some("demo"), &names);
    assert!(!w.started);
    assert!(w.has_config);
    assert_eq!(w.focused, Some("web".to_string()));
    assert_eq!(w.status, "Project: demo");
    let empty = initial_window(None, &vec![]);
    assert!(!empty.has_config);
    assert_eq!(empty.focused, None);
    assert_eq!(empty.status, "No herd.toml found \u{2014} create one to get started");
}
