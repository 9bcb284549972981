//! How the window reacts to what happens to it: the work each event calls
//! for, in order, and the state the event leaves.  The window performs the
//! work and reports back how many processes failed to start.
use vstd::prelude::*;

use crate::status::{project_status, start_all_status, stop_all_status};
use crate::text::decimal_spec;

verus! {

/// What happens to the window.
pub enum AppEvent {
    /// The user picked a process in the sidebar.
    SelectProcess(String),
    /// The user asked to start every process.
    StartAll,
    /// The user asked to stop every process.
    StopAll,
    /// The periodic tick.
    Tick,
}

/// Work the window hands to the supervisor and the screen.
#[derive(Debug, Clone, Copy, PartialEq, Eq, Structural)]
pub enum AppAction {
    StartAll,
    StopAll,
    /// Start the processes whose restart is due.
    ProcessPendingRestarts,
    /// Handle the processes that exited without a report.
    ReapExited,
    /// Publish the process list to the MCP server.
    PublishState,
    /// Redraw the focused terminal.
    RefreshTerminal,
}

/// What the window remembers between events.
pub struct WindowState {
    /// Whether the processes were started once.
    pub started: bool,
    /// Whether a configuration was found.
    pub has_config: bool,
    /// The process whose terminal is shown.
    pub focused: Option<String>,
    /// The text of the status bar.
    pub status: String,
}

/// Whether a tick starts the processes: the first tick of a configured
/// project does.
pub open spec fn tick_starts(started: bool, has_config: bool) -> bool {
    !started && has_config
}

/// The work an event calls for, in order.
pub open spec fn actions_spec(started: bool, has_config: bool, event: AppEvent) -> Seq<AppAction> {
    match event {
        AppEvent::SelectProcess(_) => seq![AppAction::RefreshTerminal],
        AppEvent::StartAll => seq![AppAction::StartAll, AppAction::PublishState, AppAction::RefreshTerminal],
        AppEvent::StopAll => seq![AppAction::StopAll, AppAction::PublishState, AppAction::RefreshTerminal],
        AppEvent::Tick => (if tick_starts(started, has_config) {
            seq![AppAction::StartAll]
        } else {
            Seq::empty()
        }) + seq![
            AppAction::ProcessPendingRestarts,
            AppAction::ReapExited,
            AppAction::PublishState,
            AppAction::RefreshTerminal,
        ],
    }
}

/// The work that `event` calls for, in the order it is to be done.
pub fn actions_for(state: &WindowState, event: &AppEvent) -> (r: Vec<AppAction>)
    ensures
        r@ == actions_spec(state.started, state.has_config, *event),
{
    let r = match event {
        AppEvent::SelectProcess(_) => vec![AppAction::RefreshTerminal],
        AppEvent::StartAll => vec![AppAction::StartAll, AppAction::PublishState, AppAction::RefreshTerminal],
        AppEvent::StopAll => vec![AppAction::StopAll, AppAction::PublishState, AppAction::RefreshTerminal],
        AppEvent::Tick => {
            let mut r: Vec<AppAction> = Vec::new();
            if !state.started && state.has_config {
                r.push(AppAction::StartAll);
            }
            r.push(AppAction::ProcessPendingRestarts);
            r.push(AppAction::ReapExited);
            r.push(AppAction::PublishState);
            r.push(AppAction::RefreshTerminal);
            r
        },
    };
    proof {
        assert(r@ =~= actions_spec(state.started, state.has_config, *event));
    }
    r
}

/// The status after starting every process, `failures` of which failed.
pub open spec fn start_status_spec(failures: nat) -> Seq<char> {
    if failures == 0 {
        "All processes started"@
    } else {
        decimal_spec(failures) + " process(es) failed to start"@
    }
}

/// The state `event` leaves, once its work is done: `start_failures` is the
/// number of processes that failed to start, when the work started them.
/// Selecting a process focuses it; starting every process sets the status
/// and marks the processes started; stopping them sets the status; the
/// first tick of a configured project starts the processes and reports
/// failures only.
pub fn next_state(state: WindowState, event: &AppEvent, start_failures: u64) -> (s: WindowState)
    ensures
        s.has_config == state.has_config,
        match *event {
            AppEvent::SelectProcess(name) => s.focused == Some(name) && s.started == state.started
                && s.status@ == state.status@,
            AppEvent::StartAll => s.started && s.focused == state.focused && s.status@ == start_status_spec(
                start_failures as nat,
            ),
            AppEvent::StopAll => s.started == state.started && s.focused == state.focused && s.status@
                == "All processes stopped"@,
            AppEvent::Tick => s.focused == state.focused && s.started == (state.started
                || state.has_config) && s.status@ == (if tick_starts(state.started, state.has_config)
                && start_failures > 0 {
                start_status_spec(start_failures as nat)
            } else {
                state.status@
            }),
        },
{
    let WindowState { started, has_config, focused, status } = state;
    match event {
        AppEvent::SelectProcess(name) => WindowState {
            started,
            has_config,
            focused: Some(name.clone()),
            status,
        },
        AppEvent::StartAll => WindowState {
            started: true,
            has_config,
            focused,
            status: start_all_status(start_failures),
        },
        AppEvent::StopAll => WindowState { started, has_config, focused, status: stop_all_status() },
        AppEvent::Tick => {
            if !started && has_config {
                let status = if start_failures > 0 {
                    start_all_status(start_failures)
                } else {
                    status
                };
                WindowState { started: true, has_config, focused, status }
            } else {
                WindowState { started, has_config, focused, status }
            }
        },
    }
}

/// The window's state when it opens on a project: nothing started yet, the
/// first of `process_names` (the processes in the order of the configuration)
/// focused, and the project named in the status bar, or the hint to create a
/// configuration when `project_name` is `None`.
pub fn initial_window(project_name: Option<&str>, process_names: &Vec<String>) -> (w: WindowState)
    ensures
        !w.started,
        w.has_config == project_name is Some,
        w.focused == (if process_names@.len() > 0 {
            Some(process_names@[0])
        } else {
            None
        }),
        match project_name {
            Some(name) => w.status@ == "Project: "@ + name@,
            None => w.status@ == "No herd.toml found \u{2014} create one to get started"@,
        },
{
    let focused = if process_names.len() > 0 {
        Some(process_names[0].clone())
    } else {
        None
    };
    WindowState {
        started: false,
        has_config: project_name.is_some(),
        focused,
        status: project_status(project_name),
    }
}

/// The processes are started automatically at most once: after any tick, no
/// later tick starts them (the state a tick leaves is marked started whenever
/// the project is configured).
pub proof fn law_automatic_start_happens_once(started: bool, has_config: bool)
    ensures
        !tick_starts(started || has_config, has_config),
        !actions_spec(started || has_config, has_config, AppEvent::Tick).contains(AppAction::StartAll),
{
    let a = actions_spec(started || has_config, has_config, AppEvent::Tick);
    assert(a =~= seq![
        AppAction::ProcessPendingRestarts,
        AppAction::ReapExited,
        AppAction::PublishState,
        AppAction::RefreshTerminal,
    ]);
    if a.contains(AppAction::StartAll) {
        let i = choose|i: int| 0 <= i < a.len() && a[i] == AppAction::StartAll;
        assert(a[i] != AppAction::StartAll);
    }
}

} // verus!
