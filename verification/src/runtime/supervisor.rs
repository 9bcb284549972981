//! The supervisor's bookkeeping and decisions.
//!
//! The supervisor knows which processes are configured, the state and PID of
//! each, the PIDs recorded for orphan cleanup, and the restarts waiting for
//! their time.  Spawning a process on a pseudo-terminal is the caller's work:
//! it asks which processes to start, spawns them, and reports each PID back.
//! Time is given to the supervisor as milliseconds on a monotonic clock.
use vstd::prelude::*;

use crate::collections::{string_views, NamedMap};
use crate::config::schema::ProcessConfig;
use crate::host::send_sigterm;
use crate::runtime::orphan::{is_process_alive, pid_file_location, to_nix_pid, OrphanTracker};
use crate::seqs::is_subsequence;
use crate::runtime::process::{describes, ProcessInfo, ProcessState};
use crate::text::{push_str, to_owned_string};

verus! {

/// Restart delay of a process that does not set one.
pub const DEFAULT_RESTART_DELAY_MS: u64 = 1000;

/// A configured process as the supervisor sees it.
pub struct ManagedProcess {
    pub info: ProcessInfo,
    pub state: ProcessState,
    pub pid: Option<u32>,
}

/// What stopping does to a process: one that was given a PID counts as
/// stopped; one that never was is left as it is.
pub open spec fn stopped(p: ManagedProcess) -> ManagedProcess {
    if p.pid is Some {
        ManagedProcess { state: ProcessState::Stopped, ..p }
    } else {
        p
    }
}

impl ManagedProcess {
    /// A process that has not been started yet.
    pub fn new(info: ProcessInfo) -> (p: Self)
        ensures
            p.info == info,
            p.state == ProcessState::Pending,
            p.pid is None,
    {
        ManagedProcess { info, state: ProcessState::Pending, pid: None }
    }

    /// Check if the process is alive
    pub fn is_running(&self) -> (b: bool)
        ensures
            b == (self.state == ProcessState::Running),
    {
        self.state == ProcessState::Running
    }

    /// Send SIGTERM to stop the process.  A process with a PID that can name
    /// a single process is signalled; whether the signal arrives or not, a
    /// process that had a PID counts as stopped.
    pub fn stop(&mut self)
        ensures
            *final(self) == stopped(*old(self)),
    {
        if let Some(pid) = self.pid {
            if let Some(raw) = to_nix_pid(pid) {
                let _ = send_sigterm(raw);
            }
            self.state = ProcessState::Stopped;
        }
    }
}

/// Why the supervisor refused a request.
pub enum SupervisorError {
    /// No process of that name is configured.
    ProcessNotFound(String),
}

impl SupervisorError {
    /// The error's message.
    pub fn message(&self) -> (s: String)
        ensures
            match self {
                SupervisorError::ProcessNotFound(name) => s@ == "Process not found: "@ + name@,
            },
    {
        match self {
            SupervisorError::ProcessNotFound(name) => {
                let mut s = to_owned_string("Process not found: ");
                push_str(&mut s, name.as_str());
                s
            },
        }
    }
}

pub open spec fn pending_view(p: Seq<(String, u64)>) -> Seq<(Seq<char>, u64)> {
    p.map_values(|e: (String, u64)| (e.0@, e.1))
}

/// When a restart scheduled at `now` with `delay` (the default when `None`)
/// comes due; a time past the clock's range stays at its end.
pub open spec fn restart_time(now: u64, delay: Option<u64>) -> u64 {
    let d: u64 = match delay {
        Some(d) => d,
        None => DEFAULT_RESTART_DELAY_MS,
    };
    if now + d > u64::MAX {
        u64::MAX
    } else {
        (now + d) as u64
    }
}

/// The state a process takes when it exits.
pub open spec fn exit_state(crashed: bool, auto_restart: bool) -> ProcessState {
    if !crashed {
        ProcessState::Exited
    } else if auto_restart {
        ProcessState::Restarting
    } else {
        ProcessState::Crashed
    }
}

/// How an unreported exit leaves a process: crashed, or waiting to restart.
pub open spec fn reaped(p: ManagedProcess) -> ManagedProcess {
    ManagedProcess { state: exit_state(true, p.info.auto_restart), ..p }
}

/// The restarts that the crashes of the processes `names` schedule at `now`:
/// one for each that restarts automatically, in order.
pub open spec fn exit_restarts(names: Seq<Seq<char>>, processes: Map<Seq<char>, ManagedProcess>, now: u64) -> Seq<
    (Seq<char>, u64),
>
    decreases names.len(),
{
    if names.len() == 0 {
        Seq::empty()
    } else if processes[names.last()].info.auto_restart {
        exit_restarts(names.drop_last(), processes, now).push(
            (names.last(), restart_time(now, processes[names.last()].info.restart_delay_ms)),
        )
    } else {
        exit_restarts(names.drop_last(), processes, now)
    }
}

/// The processes that `reap` handles as exited: in the order of `order`,
/// each one named there that is gone (`gone[i]` for `order[i]`), running with a
/// PID, and not handled already.
pub open spec fn reap_names(
    order: Seq<Seq<char>>,
    gone: Seq<bool>,
    procs: Map<Seq<char>, ManagedProcess>,
) -> Seq<Seq<char>>
    decreases order.len(),
{
    if order.len() == 0 {
        Seq::empty()
    } else {
        let rest = reap_names(order.drop_last(), gone.drop_last(), procs);
        let k = order.last();
        if gone.last() && procs.contains_key(k) && procs[k].state == ProcessState::Running
            && procs[k].pid is Some && !rest.contains(k) {
            rest.push(k)
        } else {
            rest
        }
    }
}

/// The names of the pending restarts that are due at `now`, in order.
pub open spec fn due_names(p: Seq<(Seq<char>, u64)>, now: u64) -> Seq<Seq<char>>
    decreases p.len(),
{
    if p.len() == 0 {
        Seq::empty()
    } else if now >= p.last().1 {
        due_names(p.drop_last(), now).push(p.last().0)
    } else {
        due_names(p.drop_last(), now)
    }
}

/// The pending restarts that are not due at `now`, in order.
pub open spec fn waiting(p: Seq<(Seq<char>, u64)>, now: u64) -> Seq<(Seq<char>, u64)>
    decreases p.len(),
{
    if p.len() == 0 {
        Seq::empty()
    } else if now >= p.last().1 {
        waiting(p.drop_last(), now)
    } else {
        waiting(p.drop_last(), now).push(p.last())
    }
}

/// The names of the processes of `section`, in the order they were added.
pub open spec fn section_names(e: Seq<(String, ManagedProcess)>, section: Seq<char>) -> Seq<Seq<char>>
    decreases e.len(),
{
    if e.len() == 0 {
        Seq::empty()
    } else if e.last().1.info.section@ == section {
        section_names(e.drop_last(), section).push(e.last().0@)
    } else {
        section_names(e.drop_last(), section)
    }
}

/// The names of the processes that `start_all` starts: those that are not
/// lazy and have not been started, in the order they were added.
pub open spec fn startable(e: Seq<(String, ManagedProcess)>) -> Seq<Seq<char>>
    decreases e.len(),
{
    if e.len() == 0 {
        Seq::empty()
    } else if !e.last().1.info.lazy && e.last().1.state == ProcessState::Pending {
        startable(e.drop_last()).push(e.last().0@)
    } else {
        startable(e.drop_last())
    }
}

/// Manages multiple processes, handles lifecycle and restart logic.
pub struct Supervisor {
    processes: NamedMap<ManagedProcess>,
    orphan_tracker: OrphanTracker,
    /// Processes scheduled for delayed restart: `(name, restart_at)`.
    pending_restarts: Vec<(String, u64)>,
}

impl Supervisor {
    /// The configured processes, in the order they were added.
    pub closed spec fn entries(&self) -> Seq<(String, ManagedProcess)> {
        self.processes.entries()
    }

    /// The configured processes by name.
    pub closed spec fn processes(&self) -> Map<Seq<char>, ManagedProcess> {
        self.processes@
    }

    /// The names of the configured processes, in the order they were added.
    pub open spec fn process_names(&self) -> Seq<Seq<char>> {
        self.entries().map_values(|e: (String, ManagedProcess)| e.0@)
    }

    pub closed spec fn orphans(&self) -> OrphanTracker {
        self.orphan_tracker
    }

    /// The scheduled restarts, in the order they were scheduled.
    pub closed spec fn pending(&self) -> Seq<(Seq<char>, u64)> {
        pending_view(self.pending_restarts@)
    }

    /// A supervisor for project `project_id` with no processes.  The orphans
    /// that a previous session of the project left behind are cleaned up
    /// first: `previous_pids` is the text of that session's PID file, `None`
    /// when it could not be read.
    pub fn new(project_id: &str, previous_pids: Option<&str>) -> (s: Self)
        ensures
            s.processes() == Map::<Seq<char>, ManagedProcess>::empty(),
            s.entries().len() == 0,
            s.pending().len() == 0,
            s.orphans().pid_order() == Seq::<u32>::empty(),
            exists|base: Seq<char>|
                s.orphans().pid_file_spec() == pid_file_location(base, "herd"@, project_id@),
    {
        let mut orphan_tracker = OrphanTracker::new(project_id);
        let _killed = orphan_tracker.cleanup_orphans(previous_pids);
        Supervisor { processes: NamedMap::new(), orphan_tracker, pending_restarts: Vec::new() }
    }

    /// Add a process from config without starting it.  A process of the
    /// same name is replaced.
    pub fn add_process(&mut self, config: &ProcessConfig)
        ensures
            final(self).processes() == old(self).processes().insert(
                config.name@,
                final(self).processes()[config.name@],
            ),
            describes(final(self).processes()[config.name@].info, *config),
            final(self).processes()[config.name@].state == ProcessState::Pending,
            final(self).processes()[config.name@].pid is None,
            old(self).processes().contains_key(config.name@) ==> final(self).process_names()
                == old(self).process_names(),
            !old(self).processes().contains_key(config.name@) ==> final(self).process_names()
                == old(self).process_names().push(config.name@),
            final(self).pending() == old(self).pending(),
            final(self).orphans() == old(self).orphans(),
    {
        let info = ProcessInfo::from_config(config);
        let _ = self.processes.insert(config.name.clone(), ManagedProcess::new(info));
    }

    /// Get a reference to a process.
    pub fn get_process(&self, name: &str) -> (r: Option<&ManagedProcess>)
        ensures
            r is Some <==> self.processes().contains_key(name@),
            r matches Some(p) ==> *p == self.processes()[name@],
    {
        self.processes.get(name)
    }

    /// Gives the process at position `i` a new state and PID.
    fn set_at(&mut self, i: usize, state: ProcessState, pid: Option<u32>)
        requires
            i < old(self).entries().len(),
        ensures
            final(self).entries() == old(self).entries().update(
                i as int,
                (
                    old(self).entries()[i as int].0,
                    ManagedProcess { state, pid, ..old(self).entries()[i as int].1 },
                ),
            ),
            final(self).processes() == old(self).processes().insert(
                old(self).entries()[i as int].0@,
                ManagedProcess { state, pid, ..old(self).entries()[i as int].1 },
            ),
            final(self).process_names() == old(self).process_names(),
            final(self).pending() == old(self).pending(),
            final(self).orphans() == old(self).orphans(),
    {
        let vacant = ManagedProcess {
            info: ProcessInfo {
                name: String::new(),
                command: String::new(),
                working_dir: None,
                section: String::new(),
                auto_restart: false,
                lazy: false,
                interactive: false,
                restart_delay_ms: None,
                env: NamedMap::new(),
            },
            state: ProcessState::Pending,
            pid: None,
        };
        let mut p = self.processes.replace_at(i, vacant);
        p.state = state;
        p.pid = pid;
        let _ = self.processes.replace_at(i, p);
        proof {
            assert(self.processes@ == old(self).processes@.insert(
                old(self).entries()[i as int].0@,
                ManagedProcess { state, pid, ..old(self).entries()[i as int].1 },
            ));
            assert(self.process_names() =~= old(self).process_names());
        }
    }

    /// Set the state of a process.  Returns whether the process exists.
    pub fn set_state(&mut self, name: &str, state: ProcessState) -> (found: bool)
        ensures
            found == old(self).processes().contains_key(name@),
            found ==> final(self).processes() == old(self).processes().insert(
                name@,
                ManagedProcess { state, ..old(self).processes()[name@] },
            ),
            !found ==> final(self).processes() == old(self).processes(),
            final(self).entries().len() == old(self).entries().len(),
            final(self).process_names() == old(self).process_names(),
            final(self).pending() == old(self).pending(),
            final(self).orphans() == old(self).orphans(),
    {
        match self.processes.index_of(name) {
            Some(i) => {
                let pid = self.processes.value_at(i).pid;
                self.set_at(i, state, pid);
                true
            },
            None => false,
        }
    }

    /// Record that process `name` was spawned and runs as `pid`; the PID is
    /// recorded for orphan cleanup.  Returns whether the process exists.
    pub fn record_start(&mut self, name: &str, pid: u32) -> (found: bool)
        ensures
            found == old(self).processes().contains_key(name@),
            found ==> final(self).processes() == old(self).processes().insert(
                name@,
                ManagedProcess {
                    state: ProcessState::Running,
                    pid: Some(pid),
                    ..old(self).processes()[name@]
                },
            ),
            found ==> final(self).orphans().pid_set() == old(self).orphans().pid_set().insert(pid),
            !found ==> *final(self) == *old(self),
            final(self).process_names() == old(self).process_names(),
            final(self).orphans().pid_file_spec() == old(self).orphans().pid_file_spec(),
            final(self).pending() == old(self).pending(),
    {
        match self.processes.index_of(name) {
            Some(i) => {
                self.set_at(i, ProcessState::Running, Some(pid));
                self.orphan_tracker.register(pid);
                true
            },
            None => false,
        }
    }

    /// Stop a specific process by name: its PID is no longer recorded for
    /// orphan cleanup, and the process is sent `SIGTERM`.
    pub fn stop_process(&mut self, name: &str) -> (r: Result<(), SupervisorError>)
        ensures
            r is Ok <==> old(self).processes().contains_key(name@),
            r matches Err(SupervisorError::ProcessNotFound(n)) ==> n@ == name@ && *final(self)
                == *old(self),
            r is Ok ==> final(self).processes() == old(self).processes().insert(
                name@,
                stopped(old(self).processes()[name@]),
            ),
            r is Ok ==> final(self).orphans().pid_set() == (match old(self).processes()[name@].pid {
                Some(pid) => old(self).orphans().pid_set().remove(pid),
                None => old(self).orphans().pid_set(),
            }),
            final(self).orphans().pid_file_spec() == old(self).orphans().pid_file_spec(),
            final(self).pending() == old(self).pending(),
            final(self).entries().len() == old(self).entries().len(),
            final(self).process_names() == old(self).process_names(),
    {
        match self.processes.index_of(name) {
            Some(i) => {
                proof {
                    use_type_invariant(&self.processes);
                    self.processes.lemma_view();
                }
                self.stop_at(i);
                Ok(())
            },
            None => Err(SupervisorError::ProcessNotFound(to_owned_string(name))),
        }
    }

    /// Stops the process at position `i`.
    fn stop_at(&mut self, i: usize)
        requires
            i < old(self).entries().len(),
        ensures
            final(self).entries() == old(self).entries().update(
                i as int,
                (old(self).entries()[i as int].0, stopped(old(self).entries()[i as int].1)),
            ),
            final(self).processes() == old(self).processes().insert(
                old(self).entries()[i as int].0@,
                stopped(old(self).entries()[i as int].1),
            ),
            final(self).orphans().pid_set() == (match old(self).entries()[i as int].1.pid {
                Some(pid) => old(self).orphans().pid_set().remove(pid),
                None => old(self).orphans().pid_set(),
            }),
            final(self).orphans().pid_file_spec() == old(self).orphans().pid_file_spec(),
            final(self).pending() == old(self).pending(),
            final(self).process_names() == old(self).process_names(),
    {
        let p = self.processes.value_at(i);
        let pid = p.pid;
        let state = p.state;
        if let Some(x) = pid {
            self.orphan_tracker.unregister(x);
            if let Some(raw) = to_nix_pid(x) {
                let _ = send_sigterm(raw);
            }
            self.set_at(i, ProcessState::Stopped, pid);
        } else {
            self.set_at(i, state, pid);
        }
        proof {
            assert(stopped(old(self).entries()[i as int].1) == ManagedProcess {
                state: self.entries()[i as int].1.state,
                pid,
                ..old(self).entries()[i as int].1
            });
        }
    }

    /// Stop all running processes: every running process that has a PID is
    /// signalled and counts as stopped, and its PID is no longer recorded.
    pub fn stop_all(&mut self)
        ensures
            final(self).entries().len() == old(self).entries().len(),
            forall|i: int|
                0 <= i < old(self).entries().len() ==> #[trigger] final(self).entries()[i] == (
                if old(self).entries()[i].1.state == ProcessState::Running {
                    (old(self).entries()[i].0, stopped(old(self).entries()[i].1))
                } else {
                    old(self).entries()[i]
                }),
            forall|pid: u32| #[trigger]
                final(self).orphans().pid_set().contains(pid) <==> old(self).orphans().pid_set().contains(pid)
                    && !(exists|i: int|
                    0 <= i < old(self).entries().len() && old(self).entries()[i].1.state
                        == ProcessState::Running && #[trigger] old(self).entries()[i].1.pid == Some(pid)),
            final(self).orphans().pid_file_spec() == old(self).orphans().pid_file_spec(),
            final(self).pending() == old(self).pending(),
    {
        let n = self.processes.len();
        let mut i: usize = 0;
        while i < n
            invariant
                i <= n,
                n == old(self).entries().len(),
                self.entries().len() == n,
                forall|k: int|
                    0 <= k < i ==> #[trigger] self.entries()[k] == (
                    if old(self).entries()[k].1.state == ProcessState::Running {
                        (old(self).entries()[k].0, stopped(old(self).entries()[k].1))
                    } else {
                        old(self).entries()[k]
                    }),
                forall|k: int| i <= k < n ==> #[trigger] self.entries()[k] == old(self).entries()[k],
                forall|pid: u32| #[trigger]
                    self.orphans().pid_set().contains(pid) <==> old(self).orphans().pid_set().contains(pid)
                        && !(exists|k: int|
                        0 <= k < i && old(self).entries()[k].1.state == ProcessState::Running
                            && #[trigger] old(self).entries()[k].1.pid == Some(pid)),
                self.orphans().pid_file_spec() == old(self).orphans().pid_file_spec(),
                self.pending() == old(self).pending(),
            decreases n - i,
        {
            if self.processes.value_at(i).is_running() {
                let ghost before = *self;
                self.stop_at(i);
                proof {
                    assert forall|k: int| 0 <= k < i + 1 implies #[trigger] self.entries()[k] == (
                    if old(self).entries()[k].1.state == ProcessState::Running {
                        (old(self).entries()[k].0, stopped(old(self).entries()[k].1))
                    } else {
                        old(self).entries()[k]
                    }) by {
                        if k < i {
                            assert(self.entries()[k] == before.entries()[k]);
                        }
                    }
                    assert forall|pid: u32| #[trigger]
                        self.orphans().pid_set().contains(pid) <==> old(self).orphans().pid_set().contains(pid)
                            && !(exists|k: int|
                            0 <= k < i + 1 && old(self).entries()[k].1.state == ProcessState::Running
                                && #[trigger] old(self).entries()[k].1.pid == Some(pid)) by {
                        if exists|k: int|
                            0 <= k < i + 1 && old(self).entries()[k].1.state == ProcessState::Running
                                && #[trigger] old(self).entries()[k].1.pid == Some(pid) {
                            let k = choose|k: int|
                                0 <= k < i + 1 && old(self).entries()[k].1.state == ProcessState::Running
                                    && #[trigger] old(self).entries()[k].1.pid == Some(pid);
                            if k < i {
                                assert(before.orphans().pid_set().contains(pid) == false);
                            }
                        }
                        if !(exists|k: int|
                            0 <= k < i + 1 && old(self).entries()[k].1.state == ProcessState::Running
                                && #[trigger] old(self).entries()[k].1.pid == Some(pid)) {
                            assert(!(exists|k: int|
                                0 <= k < i && old(self).entries()[k].1.state == ProcessState::Running
                                    && #[trigger] old(self).entries()[k].1.pid == Some(pid)));
                        }
                    }
                }
            } else {
                proof {
                    assert forall|pid: u32| #[trigger]
                        self.orphans().pid_set().contains(pid) <==> old(self).orphans().pid_set().contains(pid)
                            && !(exists|k: int|
                            0 <= k < i + 1 && old(self).entries()[k].1.state == ProcessState::Running
                                && #[trigger] old(self).entries()[k].1.pid == Some(pid)) by {
                        if exists|k: int|
                            0 <= k < i + 1 && old(self).entries()[k].1.state == ProcessState::Running
                                && #[trigger] old(self).entries()[k].1.pid == Some(pid) {
                            let k = choose|k: int|
                                0 <= k < i + 1 && old(self).entries()[k].1.state == ProcessState::Running
                                    && #[trigger] old(self).entries()[k].1.pid == Some(pid);
                            assert(k < i);
                        }
                    }
                }
            }
            i = i + 1;
        }
    }

    /// List all processes with their current state, in the order they were
    /// added.
    pub fn list_processes(&self) -> (r: Vec<(&str, ProcessState, Option<u32>)>)
        ensures
            r@.len() == self.entries().len(),
            forall|i: int|
                0 <= i < r@.len() ==> (#[trigger] r@[i]).0@ == self.entries()[i].0@ && r@[i].1
                    == self.entries()[i].1.state && r@[i].2 == self.entries()[i].1.pid,
    {
        let n = self.processes.len();
        let mut r: Vec<(&str, ProcessState, Option<u32>)> = Vec::new();
        let mut i: usize = 0;
        while i < n
            invariant
                i <= n,
                n == self.entries().len(),
                r@.len() == i,
                forall|k: int|
                    0 <= k < i ==> (#[trigger] r@[k]).0@ == self.entries()[k].0@ && r@[k].1
                        == self.entries()[k].1.state && r@[k].2 == self.entries()[k].1.pid,
            decreases n - i,
        {
            let p = self.processes.value_at(i);
            r.push((self.processes.key_at(i).as_str(), p.state, p.pid));
            i = i + 1;
        }
        r
    }

    /// The names of the processes that `start_all` starts: those that are
    /// not lazy and have not been started, in the order they were added.
    pub fn startable_names(&self) -> (r: Vec<String>)
        ensures
            string_views(r@) == startable(self.entries()),
    {
        let n = self.processes.len();
        let mut r: Vec<String> = Vec::new();
        let mut i: usize = 0;
        while i < n
            invariant
                i <= n,
                n == self.entries().len(),
                string_views(r@) == startable(self.entries().take(i as int)),
            decreases n - i,
        {
            let p = self.processes.value_at(i);
            proof {
                let t = self.entries().take(i + 1);
                assert(t.drop_last() == self.entries().take(i as int));
                assert(t.last() == self.entries()[i as int]);
            }
            if !p.info.lazy && p.state == ProcessState::Pending {
                let ghost before = r@;
                r.push(self.processes.key_at(i).clone());
                proof {
                    assert(string_views(r@) == string_views(before).push(self.entries()[i as int].0@));
                }
            }
            i = i + 1;
        }
        proof {
            assert(self.entries().take(n as int) == self.entries());
        }
        r
    }

    /// Get process names grouped by section: each section that some process
    /// names, with its processes in the order they were added.
    #[verifier::spinoff_prover]
    pub fn process_names_by_section(&self) -> (r: NamedMap<Vec<String>>)
        ensures
            forall|s: Seq<char>| #[trigger]
                r@.contains_key(s) <==> exists|i: int|
                    0 <= i < self.entries().len() && #[trigger] self.entries()[i].1.info.section@ == s,
            forall|s: Seq<char>| #[trigger]
                r@.contains_key(s) ==> string_views(r@[s]@) == section_names(self.entries(), s),
    {
        let n = self.processes.len();
        let mut r: NamedMap<Vec<String>> = NamedMap::new();
        let mut i: usize = 0;
        while i < n
            invariant
                i <= n,
                n == self.entries().len(),
                forall|s: Seq<char>| #[trigger]
                    r@.contains_key(s) <==> exists|k: int|
                        0 <= k < i && #[trigger] self.entries()[k].1.info.section@ == s,
                forall|s: Seq<char>| #[trigger]
                    r@.contains_key(s) ==> string_views(r@[s]@) == section_names(
                        self.entries().take(i as int),
                        s,
                    ),
            decreases n - i,
        {
            let section = &self.processes.value_at(i).info.section;
            let name = self.processes.key_at(i).clone();
            let ghost t = self.entries().take(i + 1);
            proof {
                assert(t.drop_last() == self.entries().take(i as int));
                assert(t.last() == self.entries()[i as int]);
            }
            let ghost before = r@;
            match r.index_of(section.as_str()) {
                Some(j) => {
                    let mut names = r.replace_at(j, Vec::new());
                    let ghost old_names = names@;
                    names.push(name);
                    let _ = r.replace_at(j, names);
                    proof {
                        assert(string_views(names@) == string_views(old_names).push(
                            self.entries()[i as int].0@,
                        ));
                    }
                },
                None => {
                    let mut names: Vec<String> = Vec::new();
                    names.push(name);
                    proof {
                        lemma_section_names_absent(self.entries().take(i as int), section@);
                        assert(string_views(names@) == seq![self.entries()[i as int].0@]);
                        assert(section_names(self.entries().take(i as int), section@).push(
                            self.entries()[i as int].0@,
                        ) == seq![self.entries()[i as int].0@]);
                    }
                    let _ = r.insert(section.clone(), names);
                },
            }
            proof {
                assert forall|s: Seq<char>| #[trigger]
                    r@.contains_key(s) <==> exists|k: int|
                        0 <= k < i + 1 && #[trigger] self.entries()[k].1.info.section@ == s by {
                    if s == section@ {
                        assert(self.entries()[i as int].1.info.section@ == s);
                    } else if exists|k: int|
                        0 <= k < i + 1 && #[trigger] self.entries()[k].1.info.section@ == s {
                        let k = choose|k: int|
                            0 <= k < i + 1 && #[trigger] self.entries()[k].1.info.section@ == s;
                        assert(k < i);
                    }
                }
            }
            i = i + 1;
        }
        proof {
            assert(self.entries().take(n as int) == self.entries());
        }
        r
    }

    /// The orphan tracker, whose PID file the caller keeps on disk.
    pub fn orphan_tracker(&self) -> (r: &OrphanTracker)
        ensures
            *r == self.orphans(),
    {
        &self.orphan_tracker
    }

    /// The scheduled restarts, in the order they were scheduled.
    pub fn pending_restarts(&self) -> (r: &Vec<(String, u64)>)
        ensures
            pending_view(r@) == self.pending(),
    {
        &self.pending_restarts
    }

    /// Handle a process exit event — decide whether to restart.
    /// Returns `true` if the process crashed (for notification purposes).
    ///
    /// The process's PID is no longer recorded for orphan cleanup.  A crash
    /// is any exit but a clean one (code 0); a crashed process that restarts
    /// automatically is scheduled to restart `restart_delay_ms` (by default
    /// one second) after `now_ms`.
    pub fn handle_exit(&mut self, name: &str, exit_code: Option<i32>, now_ms: u64) -> (crashed: bool)
        ensures
            !old(self).processes().contains_key(name@) ==> !crashed && *final(self) == *old(self),
            old(self).processes().contains_key(name@) ==> {
                let p = old(self).processes()[name@];
                &&& crashed == (exit_code != Some(0i32))
                &&& final(self).processes() == old(self).processes().insert(
                    name@,
                    ManagedProcess { state: exit_state(crashed, p.info.auto_restart), ..p },
                )
                &&& final(self).pending() == (if crashed && p.info.auto_restart {
                    old(self).pending().push((name@, restart_time(now_ms, p.info.restart_delay_ms)))
                } else {
                    old(self).pending()
                })
                &&& final(self).orphans().pid_set() == (match p.pid {
                    Some(pid) => old(self).orphans().pid_set().remove(pid),
                    None => old(self).orphans().pid_set(),
                })
            },
            final(self).orphans().pid_file_spec() == old(self).orphans().pid_file_spec(),
            final(self).entries().len() == old(self).entries().len(),
            final(self).process_names() == old(self).process_names(),
    {
        let i = match self.processes.index_of(name) {
            Some(i) => i,
            None => {
                return false;
            },
        };
        proof {
            use_type_invariant(&self.processes);
            self.processes.lemma_view();
        }
        let p = self.processes.value_at(i);
        let pid = p.pid;
        let auto_restart = p.info.auto_restart;
        let delay = match p.info.restart_delay_ms {
            Some(d) => d,
            None => DEFAULT_RESTART_DELAY_MS,
        };
        if let Some(x) = pid {
            self.orphan_tracker.unregister(x);
        }
        let crashed = match exit_code {
            Some(code) => code != 0,
            None => true,
        };
        if crashed {
            if auto_restart {
                let restart_at = now_ms.saturating_add(delay);
                self.set_at(i, ProcessState::Restarting, pid);
                let ghost before = self.pending_restarts@;
                self.pending_restarts.push((to_owned_string(name), restart_at));
                proof {
                    assert(pending_view(self.pending_restarts@) == pending_view(before).push(
                        (name@, restart_at),
                    ));
                }
            } else {
                self.set_at(i, ProcessState::Crashed, pid);
            }
        } else {
            self.set_at(i, ProcessState::Exited, pid);
        }
        crashed
    }

    /// Handle the exits that went unreported, given which processes are gone:
    /// `gone[i]` tells whether the process of `order[i]` has disappeared.
    /// Every process named in `order` that is running with a PID and is gone
    /// is handled as an exit without a code (killed by a signal), at `now_ms`.
    /// Returns the names of those processes, in the order of `order`
    /// (`reap_names`); every other process, the scheduled restarts and the
    /// recorded PIDs change only as the exits of the returned processes demand.
    pub fn reap(&mut self, order: &Vec<String>, gone: &Vec<bool>, now_ms: u64) -> (crashed: Vec<String>)
        requires
            gone@.len() == order@.len(),
        ensures
            is_subsequence(string_views(crashed@), string_views(order@)),
            string_views(crashed@).no_duplicates(),
            forall|j: int|
                0 <= j < crashed@.len() ==> old(self).processes().contains_key(#[trigger] crashed@[j]@)
                    && old(self).processes()[crashed@[j]@].state == ProcessState::Running
                    && old(self).processes()[crashed@[j]@].pid is Some,
            final(self).processes().dom() == old(self).processes().dom(),
            forall|k: Seq<char>| #[trigger]
                old(self).processes().contains_key(k) ==> final(self).processes()[k] == (
                if string_views(crashed@).contains(k) {
                    reaped(old(self).processes()[k])
                } else {
                    old(self).processes()[k]
                }),
            final(self).pending() == old(self).pending() + exit_restarts(
                string_views(crashed@),
                old(self).processes(),
                now_ms,
            ),
            forall|x: u32| #[trigger]
                final(self).orphans().pid_set().contains(x) <==> old(self).orphans().pid_set().contains(x)
                    && !(exists|j: int|
                    0 <= j < crashed@.len() && old(self).processes()[#[trigger] crashed@[j]@].pid
                        == Some(x)),
            final(self).entries().len() == old(self).entries().len(),
            final(self).process_names() == old(self).process_names(),
            final(self).orphans().pid_file_spec() == old(self).orphans().pid_file_spec(),
            string_views(crashed@) == reap_names(string_views(order@), gone@, old(self).processes()),
    {
        let ghost procs0 = self.processes();
        let mut crashed: Vec<String> = Vec::new();
        let n = order.len();
        let mut i: usize = 0;
        proof {
            crate::seqs::lemma_subsequence_empty(string_views(order@.take(0)));
            assert(self.pending() + exit_restarts(string_views(crashed@), procs0, now_ms)
                =~= self.pending());
            assert(self.processes().dom() =~= procs0.dom());
        }
        while i < n
            invariant
                i <= n,
                n == order@.len(),
                procs0 == old(self).processes(),
                is_subsequence(string_views(crashed@), string_views(order@.take(i as int))),
                string_views(crashed@).no_duplicates(),
                forall|j: int|
                    0 <= j < crashed@.len() ==> procs0.contains_key(#[trigger] crashed@[j]@)
                        && procs0[crashed@[j]@].state == ProcessState::Running
                        && procs0[crashed@[j]@].pid is Some,
                self.processes().dom() == procs0.dom(),
                forall|k: Seq<char>| #[trigger]
                    procs0.contains_key(k) ==> self.processes()[k] == (
                    if string_views(crashed@).contains(k) {
                        reaped(procs0[k])
                    } else {
                        procs0[k]
                    }),
                self.pending() == old(self).pending() + exit_restarts(
                    string_views(crashed@),
                    procs0,
                    now_ms,
                ),
                forall|x: u32| #[trigger]
                    self.orphans().pid_set().contains(x) <==> old(self).orphans().pid_set().contains(x)
                        && !(exists|j: int|
                        0 <= j < crashed@.len() && procs0[#[trigger] crashed@[j]@].pid == Some(x)),
                self.entries().len() == old(self).entries().len(),
                self.process_names() == old(self).process_names(),
                self.orphans().pid_file_spec() == old(self).orphans().pid_file_spec(),
                gone@.len() == n,
                string_views(crashed@) == reap_names(
                    string_views(order@.take(i as int)),
                    gone@.take(i as int),
                    procs0,
                ),
            decreases n - i,
        {
            let name = &order[i];
            let ghost before = string_views(crashed@);
            proof {
                assert(string_views(order@.take(i + 1)) == string_views(order@.take(i as int)).push(name@));
            }
            let mut dead = false;
            match self.get_process(name.as_str()) {
                Some(p) => {
                    if p.state == ProcessState::Running && p.pid.is_some() {
                        dead = gone[i];
                    }
                },
                None => {},
            }
            let ghost cur = *self;
            proof {
                let k0 = name@;
                assert(string_views(order@.take(i + 1)).drop_last() == string_views(order@.take(i as int)));
                assert(gone@.take(i + 1).drop_last() == gone@.take(i as int));
                assert(gone@.take(i + 1).last() == gone@[i as int]);
                if before.contains(k0) {
                    assert(cur.processes()[k0] == reaped(procs0[k0]));
                }
            }
            if dead && self.handle_exit(name.as_str(), None, now_ms) {
                proof {
                    let k0 = name@;
                    assert(!before.contains(k0)) by {
                        if before.contains(k0) {
                            assert(cur.processes()[k0] == reaped(procs0[k0]));
                        }
                    }
                    assert(cur.processes()[k0] == procs0[k0]);
                    let after = before.push(k0);
                    assert(after.no_duplicates()) by {
                        assert forall|a: int, b: int|
                            0 <= a < after.len() && 0 <= b < after.len() && a != b implies after[a]
                            != after[b] by {
                            if a < before.len() && b < before.len() {
                                assert(after[a] == before[a] && after[b] == before[b]);
                            } else if a < before.len() {
                                assert(after[a] == before[a]);
                                assert(before.contains(before[a]));
                            } else {
                                assert(after[b] == before[b]);
                                assert(before.contains(before[b]));
                            }
                        }
                    }
                    assert(after.drop_last() == before);
                    assert(exit_restarts(after, procs0, now_ms) == (if procs0[k0].info.auto_restart {
                        exit_restarts(before, procs0, now_ms).push(
                            (k0, restart_time(now_ms, procs0[k0].info.restart_delay_ms)),
                        )
                    } else {
                        exit_restarts(before, procs0, now_ms)
                    }));
                    assert forall|k: Seq<char>| #[trigger] procs0.contains_key(k) implies self.processes()[k] == (
                    if after.contains(k) {
                        reaped(procs0[k])
                    } else {
                        procs0[k]
                    }) by {
                        if k == k0 {
                            assert(after[after.len() - 1] == k0);
                        } else {
                            if before.contains(k) {
                                let a = choose|a: int| 0 <= a < before.len() && before[a] == k;
                                assert(after[a] == k);
                            }
                            if after.contains(k) {
                                let a = choose|a: int| 0 <= a < after.len() && after[a] == k;
                                assert(a < before.len());
                                assert(before[a] == k);
                            }
                        }
                    }
                    assert(self.processes().dom() =~= procs0.dom());
                }
                let ghost old_crashed = crashed@;
                crashed.push(name.clone());
                proof {
                    let k0 = name@;
                    assert(string_views(crashed@) == before.push(k0));
                    crate::seqs::lemma_subsequence_push_both(before, string_views(order@.take(i as int)), k0);
                    assert(self.pending() =~= old(self).pending() + exit_restarts(
                        string_views(crashed@),
                        procs0,
                        now_ms,
                    ));
                    assert forall|j: int|
                        0 <= j < crashed@.len() implies procs0.contains_key(#[trigger] crashed@[j]@)
                            && procs0[crashed@[j]@].state == ProcessState::Running
                            && procs0[crashed@[j]@].pid is Some by {
                        if j < old_crashed.len() {
                            assert(crashed@[j] == old_crashed[j]);
                        }
                    }
                    let pid = procs0[k0].pid->0;
                    assert forall|x: u32| #[trigger]
                        self.orphans().pid_set().contains(x) <==> old(self).orphans().pid_set().contains(x)
                            && !(exists|j: int|
                            0 <= j < crashed@.len() && procs0[#[trigger] crashed@[j]@].pid == Some(x)) by {
                        if exists|j: int|
                            0 <= j < crashed@.len() && procs0[#[trigger] crashed@[j]@].pid == Some(x) {
                            let j = choose|j: int|
                                0 <= j < crashed@.len() && procs0[#[trigger] crashed@[j]@].pid == Some(x);
                            if j < old_crashed.len() {
                                assert(crashed@[j] == old_crashed[j]);
                                assert(procs0[old_crashed[j]@].pid == Some(x));
                            }
                        } else {
                            assert(!(exists|j: int|
                                0 <= j < old_crashed.len() && procs0[#[trigger] old_crashed[j]@].pid == Some(x))) by {
                                if exists|j: int|
                                    0 <= j < old_crashed.len() && procs0[#[trigger] old_crashed[j]@].pid == Some(x) {
                                    let j = choose|j: int|
                                        0 <= j < old_crashed.len() && procs0[#[trigger] old_crashed[j]@].pid == Some(x);
                                    assert(crashed@[j] == old_crashed[j]);
                                }
                            }
                            assert(crashed@[crashed@.len() - 1]@ == k0);
                        }
                    }
                }
            } else {
                proof {
                    crate::seqs::lemma_subsequence_push_right(before, string_views(order@.take(i as int)), name@);
                }
            }
            i = i + 1;
        }
        proof {
            assert(order@.take(n as int) == order@);
            assert(gone@.take(n as int) == gone@);
        }
        crashed
    }

    /// Handle the exits that went unreported: every process named in `order`
    /// that is running with a PID whose process is gone (`is_process_alive`)
    /// is handled as an exit without a code, at `now_ms` (`reap`).  Which
    /// processes are gone is a fact of the machine at the moment of the check;
    /// whatever it is, the result and the new state are those `reap` gives.
    pub fn reap_exited(&mut self, order: &Vec<String>, now_ms: u64) -> (crashed: Vec<String>)
        ensures
            is_subsequence(string_views(crashed@), string_views(order@)),
            string_views(crashed@).no_duplicates(),
            forall|j: int|
                0 <= j < crashed@.len() ==> old(self).processes().contains_key(#[trigger] crashed@[j]@)
                    && old(self).processes()[crashed@[j]@].state == ProcessState::Running
                    && old(self).processes()[crashed@[j]@].pid is Some,
            final(self).processes().dom() == old(self).processes().dom(),
            forall|k: Seq<char>| #[trigger]
                old(self).processes().contains_key(k) ==> final(self).processes()[k] == (
                if string_views(crashed@).contains(k) {
                    reaped(old(self).processes()[k])
                } else {
                    old(self).processes()[k]
                }),
            final(self).pending() == old(self).pending() + exit_restarts(
                string_views(crashed@),
                old(self).processes(),
                now_ms,
            ),
            forall|x: u32| #[trigger]
                final(self).orphans().pid_set().contains(x) <==> old(self).orphans().pid_set().contains(x)
                    && !(exists|j: int|
                    0 <= j < crashed@.len() && old(self).processes()[#[trigger] crashed@[j]@].pid
                        == Some(x)),
            final(self).entries().len() == old(self).entries().len(),
            final(self).process_names() == old(self).process_names(),
            final(self).orphans().pid_file_spec() == old(self).orphans().pid_file_spec(),
            exists|gone: Seq<bool>|
                #![trigger reap_names(string_views(order@), gone, old(self).processes())]
                gone.len() == order@.len() && string_views(crashed@) == reap_names(
                    string_views(order@),
                    gone,
                    old(self).processes(),
                ),
    {
        let mut gone: Vec<bool> = Vec::new();
        let mut i: usize = 0;
        while i < order.len()
            invariant
                i <= order@.len(),
                gone@.len() == i,
            decreases order@.len() - i,
        {
            let mut dead = false;
            match self.get_process(order[i].as_str()) {
                Some(p) => {
                    if p.state == ProcessState::Running {
                        if let Some(pid) = p.pid {
                            dead = !is_process_alive(pid);
                        }
                    }
                },
                None => {},
            }
            gone.push(dead);
            i = i + 1;
        }
        self.reap(order, &gone, now_ms)
    }

    /// Take the restarts that are due at `now_ms`, in the order they were
    /// scheduled; the others stay scheduled.  The caller starts each
    /// returned process.
    pub fn take_due_restarts(&mut self, now_ms: u64) -> (ready: Vec<String>)
        ensures
            string_views(ready@) == due_names(old(self).pending(), now_ms),
            final(self).pending() == waiting(old(self).pending(), now_ms),
            final(self).entries() == old(self).entries(),
            final(self).processes() == old(self).processes(),
            final(self).orphans() == old(self).orphans(),
    {
        let mut ready: Vec<String> = Vec::new();
        let mut kept: Vec<(String, u64)> = Vec::new();
        let n = self.pending_restarts.len();
        let mut i: usize = 0;
        while i < n
            invariant
                i <= n,
                n == self.pending_restarts@.len(),
                self.pending() == old(self).pending(),
                string_views(ready@) == due_names(self.pending().take(i as int), now_ms),
                pending_view(kept@) == waiting(self.pending().take(i as int), now_ms),
            decreases n - i,
        {
            let entry = &self.pending_restarts[i];
            proof {
                let t = self.pending().take(i + 1);
                assert(t.drop_last() == self.pending().take(i as int));
                assert(t.last() == (entry.0@, entry.1));
            }
            if now_ms >= entry.1 {
                let ghost before = ready@;
                ready.push(entry.0.clone());
                proof {
                    assert(string_views(ready@) == string_views(before).push(entry.0@));
                }
            } else {
                let ghost before = kept@;
                kept.push((entry.0.clone(), entry.1));
                proof {
                    assert(pending_view(kept@) == pending_view(before).push((entry.0@, entry.1)));
                }
            }
            i = i + 1;
        }
        proof {
            assert(self.pending().take(n as int) == self.pending());
        }
        self.pending_restarts = kept;
        ready
    }
}

/// A section that no process names has no processes.
pub proof fn lemma_section_names_absent(e: Seq<(String, ManagedProcess)>, section: Seq<char>)
    requires
        !(exists|k: int| 0 <= k < e.len() && #[trigger] e[k].1.info.section@ == section),
    ensures
        section_names(e, section) == Seq::<Seq<char>>::empty(),
    decreases e.len(),
{
    if e.len() > 0 {
        assert(e.last() == e[e.len() - 1]);
        assert forall|k: int| 0 <= k < e.drop_last().len() implies #[trigger] e.drop_last()[k].1.info.section@
            != section by {
            assert(e.drop_last()[k] == e[k]);
        }
        lemma_section_names_absent(e.drop_last(), section);
    }
}

// ---------------------------------------------------------------------------
// Laws
// ---------------------------------------------------------------------------

/// Taking the due restarts splits the scheduled ones in two: every scheduled
/// restart is either taken or stays scheduled, and those that stay are not due.
pub proof fn law_due_restarts_partition(p: Seq<(Seq<char>, u64)>, now: u64)
    ensures
        due_names(p, now).len() + waiting(p, now).len() == p.len(),
        forall|i: int| 0 <= i < waiting(p, now).len() ==> now < (#[trigger] waiting(p, now)[i]).1,
    decreases p.len(),
{
    if p.len() > 0 {
        law_due_restarts_partition(p.drop_last(), now);
    }
}

/// A restart is never scheduled before the exit that caused it; without
/// overflow it comes exactly the delay later.
pub proof fn law_restart_not_before_exit(now: u64, delay: Option<u64>)
    ensures
        restart_time(now, delay) >= now,
        now + (match delay {
            Some(d) => d,
            None => DEFAULT_RESTART_DELAY_MS,
        }) <= u64::MAX ==> restart_time(now, delay) == now + (match delay {
            Some(d) => d,
            None => DEFAULT_RESTART_DELAY_MS,
        }),
{
}

/// A restart scheduled last is taken once its time has come, after the
/// earlier due ones, and stays scheduled before that.
pub proof fn law_scheduled_restart_comes_due(p: Seq<(Seq<char>, u64)>, name: Seq<char>, at: u64, now: u64)
    ensures
        now >= at ==> due_names(p.push((name, at)), now) == due_names(p, now).push(name),
        now >= at ==> waiting(p.push((name, at)), now) == waiting(p, now),
        now < at ==> due_names(p.push((name, at)), now) == due_names(p, now),
        now < at ==> waiting(p.push((name, at)), now) == waiting(p, now).push((name, at)),
{
    assert(p.push((name, at)).drop_last() == p);
}

/// A process that was given a PID is no longer running once stopped.
pub proof fn law_stopped_process_not_running(p: ManagedProcess)
    requires
        p.pid is Some,
    ensures
        stopped(p).state == ProcessState::Stopped,
        stopped(p).info == p.info,
        stopped(p).pid == p.pid,
{
}

} // verus!
