use herd::collections::NamedMap;
use herd::config::schema::ProcessConfig;
use herd::runtime::orphan::{
    is_process_alive, pids_in_file, proc_path, signal_targets, to_nix_pid, OrphanTracker,
};
use herd::seqs::keep_where_vec;
use herd::runtime::process::{ProcessInfo, ProcessState};
use herd::runtime::pty::{
    default_window_size, window_size_from_pixels, DEFAULT_CELL_HEIGHT, DEFAULT_CELL_WIDTH,
    DEFAULT_COLS, DEFAULT_ROWS,
};
use herd::runtime::supervisor::{ManagedProcess, Supervisor, SupervisorError};
use herd::runtime::watcher::ChangeFilter;
use herd::soloterm::orphan::OrphanTracker as SoloOrphanTracker;

// ── Orphan tracking ──

#[test]
fn new_creates_tracker_with_correct_path() {
    let tracker = OrphanTracker::new("my-project");
    let path_str = tracker.pid_file();
    assert!(path_str.ends_with("herd/pids/my-project.pids"), "unexpected pid_file path: {path_str}");
}

#[test]
fn register_adds_pid_and_unregister_removes_it() {
    let mut tracker = OrphanTracker::new_in("/tmp/herd-test", "herd", "reg");
    tracker.register(1001);
    tracker.register(1002);
    assert!(tracker.contains(1001));
    assert!(tracker.contains(1002));
    tracker.unregister(1001);
    assert!(!tracker.contains(1001));
    assert!(tracker.contains(1002));
}

#[test]
fn cleanup_orphans_on_empty_file_returns_empty_vec() {
    let mut tracker = OrphanTracker::new_in("/tmp/herd-test", "herd", "empty");
    let killed = tracker.cleanup_orphans(Some(""));
    assert!(killed.is_empty());
}

#[test]
fn cleanup_orphans_on_missing_file_returns_empty_vec() {
    let mut tracker = OrphanTracker::new_in("/tmp/herd-test", "herd", "missing");
    let killed = tracker.cleanup_orphans(None);
    assert!(killed.is_empty());
}

#[test]
fn round_trip_register_save_load() {
    let mut tracker = OrphanTracker::new_in("/tmp/herd-test", "herd", "roundtrip");
    tracker.register(42);
    tracker.register(99);
    let content = tracker.pid_file_contents();
    let saved = pids_in_file(&content);
    assert!(saved.contains(&42));
    assert!(saved.contains(&99));
    assert_eq!(saved.len(), 2);
}

#[test]
fn save_persists_after_unregister() {
    let mut tracker = OrphanTracker::new_in("/tmp/herd-test", "herd", "persist");
    tracker.register(10);
    tracker.register(20);
    tracker.unregister(10);
    let saved = pids_in_file(&tracker.pid_file_contents());
    assert!(!saved.contains(&10));
    assert!(saved.contains(&20));
}

#[test]
fn is_process_alive_returns_false_for_nonexistent_pid() {
    assert!(!is_process_alive(4_000_000_000));
}

#[test]
fn to_nix_pid_rejects_zero() {
    assert!(to_nix_pid(0).is_none());
}

#[test]
fn to_nix_pid_accepts_valid_pid() {
    let result = to_nix_pid(123);
    assert!(result.is_some());
}

#[test]
fn to_nix_pid_bounds() {
    assert_eq!(to_nix_pid(123), Some(123));
    assert_eq!(to_nix_pid(0x7fff_ffff), Some(0x7fff_ffff));
    assert_eq!(to_nix_pid(0x8000_0000), None);
}

#[test]
fn pid_file_text_is_one_pid_per_line() {
    let mut tracker = OrphanTracker::new_in("/cfg", "herd", "p");
    assert_eq!(tracker.pid_file(), "/cfg/herd/pids/p.pids");
    assert_eq!(tracker.pid_file_contents(), "");
    tracker.register(7);
    tracker.register(300);
    tracker.register(7);
    assert_eq!(tracker.pid_file_contents(), "7\n300");
}

#[test]
fn pid_file_lines_are_trimmed_and_bad_lines_skipped() {
    assert_eq!(pids_in_file(" 12 \r\nabc\n\n34\n-5\n99999999999\n"), vec![12, 34]);
}

#[test]
fn cleanup_clears_the_tracker() {
    let mut tracker = OrphanTracker::new_in("/cfg", "herd", "p");
    tracker.register(4_000_000_001);
    // a PID that names no live process is not signalled
    let killed = tracker.cleanup_orphans(Some("4000000001\n0"));
    assert!(killed.is_empty());
    assert!(!tracker.contains(4_000_000_001));
    assert_eq!(tracker.pid_file_contents(), "");
}

#[test]
fn soloterm_tracker_uses_its_own_directory() {
    let mut tracker = SoloOrphanTracker::new("proj");
    assert!(tracker.pid_file().ends_with("soloterm/pids/proj.pids"));
    tracker.register(5);
    tracker.register(6);
    tracker.unregister(5);
    assert_eq!(tracker.pid_file_contents(), "6");
    assert!(tracker.cleanup_orphans(None).is_empty());
    assert_eq!(tracker.pid_file_contents(), "");
}

// ── Process state and info ──

#[test]
fn process_state_enum_values_are_distinct() {
    let states = [
        ProcessState::Pending,
        ProcessState::Running,
        ProcessState::Stopped,
        ProcessState::Crashed,
        ProcessState::Exited,
        ProcessState::Restarting,
    ];
    for (i, a) in states.iter().enumerate() {
        for (j, b) in states.iter().enumerate() {
            if i == j {
                assert_eq!(a, b);
            } else {
                assert_ne!(a, b, "states at index {i} and {j} should differ");
            }
        }
    }
}

#[test]
fn process_state_is_copy_and_clone() {
    let s = ProcessState::Running;
    let s2 = s;
    let s3 = s;
    assert_eq!(s, s2);
    assert_eq!(s, s3);
}

#[test]
fn process_state_debug_format() {
    let dbg = format!("{:?}", ProcessState::Pending);
    assert_eq!(dbg, "Pending");
}

#[test]
fn process_state_names_labels_and_indicators() {
    assert_eq!(ProcessState::Restarting.name(), format!("{:?}", ProcessState::Restarting));
    assert_eq!(ProcessState::Crashed.label(), "crashed");
    assert_eq!(ProcessState::Running.indicator(), ("\u{25cf}", 0x00cc66));
    assert_eq!(ProcessState::Stopped.indicator(), ("\u{25a0}", 0x888888));
}

#[test]
fn process_info_stores_fields_correctly() {
    let mut env = NamedMap::new();
    env.insert("FOO".to_string(), "bar".to_string());

    let info = ProcessInfo {
        name: "web".to_string(),
        command: "npm start".to_string(),
        working_dir: Some("/tmp".to_string()),
        section: "services".to_string(),
        auto_restart: true,
        lazy: true,
        interactive: false,
        restart_delay_ms: Some(500),
        env,
    };

    assert_eq!(info.name, "web");
    assert_eq!(info.command, "npm start");
    assert_eq!(info.working_dir, Some("/tmp".to_string()));
    assert_eq!(info.section, "services");
    assert!(info.auto_restart);
    assert!(info.lazy);
    assert!(!info.interactive);
    assert_eq!(info.restart_delay_ms, Some(500));
    assert_eq!(info.env.get("FOO").unwrap(), "bar");
}

fn sample_info() -> ProcessInfo {
    ProcessInfo {
        name: "test-proc".to_string(),
        command: "echo hello".to_string(),
        working_dir: None,
        section: "default".to_string(),
        auto_restart: false,
        lazy: false,
        interactive: false,
        restart_delay_ms: None,
        env: NamedMap::new(),
    }
}

#[test]
fn is_running_returns_false_when_pending() {
    let p = ManagedProcess::new(sample_info());
    assert_eq!(p.state, ProcessState::Pending);
    assert!(p.pid.is_none());
    assert!(!p.is_running());
}

#[test]
fn is_running_reflects_state() {
    let mut p = ManagedProcess::new(sample_info());
    p.state = ProcessState::Running;
    assert!(p.is_running());
    p.state = ProcessState::Stopped;
    assert!(!p.is_running());
    p.state = ProcessState::Crashed;
    assert!(!p.is_running());
    p.state = ProcessState::Exited;
    assert!(!p.is_running());
    p.state = ProcessState::Restarting;
    assert!(!p.is_running());
}

#[test]
fn stopping_a_process_without_pid_changes_nothing() {
    let mut p = ManagedProcess::new(sample_info());
    p.stop();
    assert_eq!(p.state, ProcessState::Pending);
}

// ── Window sizes ──

#[test]
fn default_window_size_returns_expected_dimensions() {
    let ws = default_window_size();
    assert_eq!(ws.num_cols, DEFAULT_COLS);
    assert_eq!(ws.num_lines, DEFAULT_ROWS);
    assert_eq!(ws.cell_width, DEFAULT_CELL_WIDTH);
    assert_eq!(ws.cell_height, DEFAULT_CELL_HEIGHT);
}

#[test]
fn window_size_from_pixels_computes_correct_cols_and_rows() {
    let ws = window_size_from_pixels(640, 384, 8, 16);
    assert_eq!(ws.num_cols, 80);
    assert_eq!(ws.num_lines, 24);
    assert_eq!(ws.cell_width, 8);
    assert_eq!(ws.cell_height, 16);
}

#[test]
fn window_size_from_pixels_non_even_division() {
    let ws = window_size_from_pixels(100, 50, 8, 16);
    assert_eq!(ws.num_cols, 12);
    assert_eq!(ws.num_lines, 3);
}

#[test]
fn window_size_from_pixels_handles_zero_cell_width() {
    let ws = window_size_from_pixels(640, 384, 0, 16);
    assert_eq!(ws.num_cols, 640);
    assert_eq!(ws.num_lines, 24);
}

#[test]
fn window_size_from_pixels_handles_zero_cell_height() {
    let ws = window_size_from_pixels(640, 384, 8, 0);
    assert_eq!(ws.num_cols, 80);
    assert_eq!(ws.num_lines, 384);
}

#[test]
fn window_size_from_pixels_handles_both_zero() {
    let ws = window_size_from_pixels(200, 100, 0, 0);
    assert_eq!(ws.num_cols, 200);
    assert_eq!(ws.num_lines, 100);
}

#[test]
fn window_size_from_pixels_zero_pixel_dimensions() {
    let ws = window_size_from_pixels(0, 0, 8, 16);
    assert_eq!(ws.num_cols, 0);
    assert_eq!(ws.num_lines, 0);
}

// ── Supervisor ──

fn test_config(name: &str, lazy: bool) -> ProcessConfig {
    ProcessConfig {
        name: name.to_string(),
        command: "echo hello".to_string(),
        working_dir: None,
        auto_restart: false,
        section: "services".to_string(),
        lazy,
        interactive: false,
        restart_delay_ms: None,
        watch: None,
        env: NamedMap::new(),
    }
}

#[test]
fn test_add_process() {
    let mut sup = Supervisor::new("test", None);
    sup.add_process(&test_config("test", false));
    assert!(sup.get_process("test").is_some());
    assert!(sup.get_process("nonexistent").is_none());
}

#[test]
fn test_list_processes() {
    let mut sup = Supervisor::new("test", None);
    sup.add_process(&test_config("a", false));
    sup.add_process(&test_config("b", true));
    let list = sup.list_processes();
    assert_eq!(list.len(), 2);
}

#[test]
fn test_process_names_by_section() {
    let mut sup = Supervisor::new("test", None);
    sup.add_process(&test_config("a", false));
    sup.add_process(&test_config("b", false));
    let sections = sup.process_names_by_section();
    assert_eq!(sections.get("services").unwrap().len(), 2);
}

#[test]
fn test_handle_exit_crash_with_auto_restart() {
    let mut sup = Supervisor::new("test", None);
    let mut config = test_config("svc", false);
    config.auto_restart = true;
    config.restart_delay_ms = Some(100);
    sup.add_process(&config);

    sup.set_state("svc", ProcessState::Running);

    let crashed = sup.handle_exit("svc", Some(1), 0);
    assert!(crashed);
    assert_eq!(sup.get_process("svc").unwrap().state, ProcessState::Restarting);
    assert_eq!(sup.pending_restarts().len(), 1);
}

#[test]
fn test_handle_exit_clean() {
    let mut sup = Supervisor::new("test", None);
    sup.add_process(&test_config("svc", false));
    sup.set_state("svc", ProcessState::Running);

    let crashed = sup.handle_exit("svc", Some(0), 0);
    assert!(!crashed);
    assert_eq!(sup.get_process("svc").unwrap().state, ProcessState::Exited);
    assert!(sup.pending_restarts().is_empty());
}

#[test]
fn test_handle_exit_nonexistent_process() {
    let mut sup = Supervisor::new("test", None);
    let crashed = sup.handle_exit("nonexistent", Some(1), 0);
    assert!(!crashed);
}

#[test]
fn signal_exit_is_a_crash_and_restart_waits_for_its_delay() {
    let mut sup = Supervisor::new("test", None);
    let mut config = test_config("svc", false);
    config.auto_restart = true;
    sup.add_process(&config);
    assert!(sup.handle_exit("svc", None, 5_000));
    assert_eq!(sup.pending_restarts()[0].1, 6_000);
    assert!(sup.take_due_restarts(5_999).is_empty());
    assert_eq!(sup.take_due_restarts(6_000), vec!["svc".to_string()]);
    assert!(sup.pending_restarts().is_empty());
}

#[test]
fn crash_without_auto_restart_is_not_rescheduled() {
    let mut sup = Supervisor::new("test", None);
    sup.add_process(&test_config("svc", false));
    assert!(sup.handle_exit("svc", Some(-9), 0));
    assert_eq!(sup.get_process("svc").unwrap().state, ProcessState::Crashed);
    assert!(sup.pending_restarts().is_empty());
}

#[test]
fn restart_time_saturates_at_the_end_of_the_clock() {
    let mut sup = Supervisor::new("test", None);
    let mut config = test_config("svc", false);
    config.auto_restart = true;
    config.restart_delay_ms = Some(10);
    sup.add_process(&config);
    sup.handle_exit("svc", Some(2), u64::MAX - 3);
    assert_eq!(sup.pending_restarts()[0].1, u64::MAX);
}

#[test]
fn start_all_picks_pending_non_lazy_processes_in_order() {
    let mut sup = Supervisor::new("test", None);
    sup.add_process(&test_config("a", false));
    sup.add_process(&test_config("lazy", true));
    sup.add_process(&test_config("b", false));
    sup.add_process(&test_config("c", false));
    sup.set_state("b", ProcessState::Stopped);
    assert_eq!(sup.startable_names(), vec!["a".to_string(), "c".to_string()]);
}

#[test]
fn recording_a_start_tracks_the_pid_and_stop_forgets_it() {
    let mut sup = Supervisor::new("test", None);
    sup.add_process(&test_config("a", false));
    // a PID far above any real one: stopping it signals nothing
    assert!(sup.record_start("a", 4_000_000_000));
    assert_eq!(sup.get_process("a").unwrap().state, ProcessState::Running);
    assert_eq!(sup.get_process("a").unwrap().pid, Some(4_000_000_000));
    assert!(!sup.record_start("missing", 1));
    assert!(sup.stop_process("a").is_ok());
    assert_eq!(sup.get_process("a").unwrap().state, ProcessState::Stopped);
    match sup.stop_process("missing") {
        Err(e) => assert_eq!(e.message(), "Process not found: missing"),
        Ok(()) => panic!("a missing process cannot be stopped"),
    }
}

#[test]
fn stop_all_stops_running_processes_with_pids() {
    let mut sup = Supervisor::new("test", None);
    sup.add_process(&test_config("a", false));
    sup.add_process(&test_config("b", false));
    sup.add_process(&test_config("c", false));
    sup.record_start("a", 4_000_000_010);
    sup.record_start("b", 4_000_000_011);
    sup.set_state("b", ProcessState::Crashed);
    sup.stop_all();
    let list = sup.list_processes();
    assert_eq!(list[0], ("a", ProcessState::Stopped, Some(4_000_000_010)));
    assert_eq!(list[1], ("b", ProcessState::Crashed, Some(4_000_000_011)));
    assert_eq!(list[2], ("c", ProcessState::Pending, None));
}

#[test]
fn sections_keep_process_order() {
    let mut sup = Supervisor::new("test", None);
    let mut agent = test_config("agent", true);
    agent.section = "agents".to_string();
    sup.add_process(&test_config("web", false));
    sup.add_process(&agent);
    sup.add_process(&test_config("db", false));
    let sections = sup.process_names_by_section();
    assert_eq!(sections.get("services").unwrap(), &vec!["web".to_string(), "db".to_string()]);
    assert_eq!(sections.get("agents").unwrap(), &vec!["agent".to_string()]);
    assert!(sections.get("other").is_none());
}

#[test]
fn adding_a_process_again_replaces_it_in_place() {
    let mut sup = Supervisor::new("test", None);
    sup.add_process(&test_config("a", false));
    sup.add_process(&test_config("b", false));
    sup.record_start("a", 4_000_000_020);
    sup.add_process(&test_config("a", true));
    let list = sup.list_processes();
    assert_eq!(list.len(), 2);
    assert_eq!(list[0], ("a", ProcessState::Pending, None));
    assert!(sup.get_process("a").unwrap().info.lazy);
}

#[test]
fn supervisor_errors_have_messages() {
    let e = SupervisorError::ProcessNotFound("web".to_string());
    assert_eq!(e.message(), "Process not found: web");
}

// ── File changes ──

#[test]
fn change_filter_debounces_and_drops_ignored_paths() {
    let mut f = ChangeFilter::new("worker".to_string(), vec!["storage".to_string()], 0);
    // too soon after the filter was made
    assert!(f.on_event(vec!["app/a.php".to_string()], 100).is_none());
    let c = f
        .on_event(vec!["app/a.php".to_string(), "storage/log".to_string(), "config/b".to_string()], 600)
        .unwrap();
    assert_eq!(c.process_name, "worker");
    assert_eq!(c.paths, vec!["app/a.php".to_string(), "config/b".to_string()]);
    // within 500 ms of the accepted event
    assert!(f.on_event(vec!["app/c.php".to_string()], 1_099).is_none());
    // accepted, but every path is ignored
    assert!(f.on_event(vec!["storage/x".to_string()], 1_100).is_none());
    // the ignored-only event still counted as the last accepted one
    assert!(f.on_event(vec!["app/d.php".to_string()], 1_500).is_none());
    assert!(f.on_event(vec!["app/d.php".to_string()], 1_600).is_some());
}

#[test]
fn ignored_paths_match_whole_components() {
    let mut f = ChangeFilter::new("w".to_string(), vec!["storage".to_string()], 0);
    let c = f.on_event(vec!["storage2/x".to_string(), "storage".to_string()], 1_000).unwrap();
    assert_eq!(c.paths, vec!["storage2/x".to_string()]);
}

// ── Orphan cleanup decisions and reaping ──

#[test]
fn only_live_pids_that_name_one_process_are_signalled() {
    let pids = vec![5, 0, 3_000_000_000, 7, 9];
    let alive = vec![true, true, true, false, true];
    assert_eq!(signal_targets(&pids, &alive), vec![5, 9]);
    assert_eq!(keep_where_vec(&vec![5, 9], &vec![false, true]), vec![9]);
    assert_eq!(keep_where_vec(&vec![], &vec![]), Vec::<u32>::new());
}

#[test]
fn liveness_is_read_under_proc() {
    assert_eq!(proc_path(42), "/proc/42");
    assert_eq!(proc_path(0), "/proc/0");
}

#[test]
fn pid_file_keeps_registration_order() {
    let mut tracker = OrphanTracker::new_in("/tmp/herd-test", "herd", "order");
    tracker.register(3);
    tracker.register(1);
    tracker.register(2);
    tracker.register(1);
    assert_eq!(pids_in_file(&tracker.pid_file_contents()), vec![3, 1, 2]);
    tracker.unregister(1);
    assert_eq!(pids_in_file(&tracker.pid_file_contents()), vec![3, 2]);
    tracker.register(7);
    tracker.unregister(7);
    assert_eq!(pids_in_file(&tracker.pid_file_contents()), vec![3, 2]);
}

#[test]
fn reaping_handles_running_processes_reported_gone() {
    let mut sup = Supervisor::new("test", None);
    sup.add_process(&test_config("a", false));
    let mut b = test_config("b", false);
    b.auto_restart = true;
    sup.add_process(&b);
    sup.add_process(&test_config("c", false));
    sup.record_start("a", 4_000_000_020);
    sup.record_start("b", 4_000_000_021);
    let order: Vec<String> = ["a", "b", "c", "a"].iter().map(|n| n.to_string()).collect();
    assert!(sup.reap(&order, &vec![false, false, true, false], 100).is_empty());
    let crashed = sup.reap(&order, &vec![true, true, true, true], 100);
    assert_eq!(crashed, vec!["a".to_string(), "b".to_string()]);
    assert_eq!(sup.get_process("a").unwrap().state, ProcessState::Crashed);
    assert_eq!(sup.get_process("b").unwrap().state, ProcessState::Restarting);
    assert_eq!(sup.get_process("c").unwrap().state, ProcessState::Pending);
    assert_eq!(sup.pending_restarts()[0], ("b".to_string(), 1_100));
}

#[test]
fn reaping_finds_processes_that_are_gone() {
    let mut sup = Supervisor::new("test", None);
    sup.add_process(&test_config("a", false));
    sup.add_process(&test_config("b", false));
    // no process has such a PID, so it is reported gone
    sup.record_start("a", 4_000_000_030);
    let order = vec!["a".to_string(), "b".to_string()];
    assert_eq!(sup.reap_exited(&order, 0), vec!["a".to_string()]);
    assert_eq!(sup.get_process("a").unwrap().state, ProcessState::Crashed);
    assert_eq!(sup.get_process("b").unwrap().state, ProcessState::Pending);
}
