//! Orphan process tracking for SoloTerm.
//!
//! The PID file lives under the `soloterm` configuration directory, and
//! cleanup reports every orphan that was still alive, whether or not the
//! signal reached it.
use vstd::prelude::*;

use crate::host::config_dir;
use crate::runtime::orphan::{
    pid_file_location, pid_file_text, pids_in_file, pids_in_file_spec, probe_alive, send_sigterm_to_each,
    signal_targets, without,
};
use crate::seqs::{keep_where, keep_where_vec};

verus! {

/// Tracks PIDs of managed processes to detect and clean up orphans on restart
pub struct OrphanTracker {
    inner: crate::runtime::orphan::OrphanTracker,
}

impl OrphanTracker {
    pub closed spec fn pid_file_spec(&self) -> Seq<char> {
        self.inner.pid_file_spec()
    }

    /// The recorded PIDs, as a set: those of the recorded order.
    pub open spec fn pid_set(&self) -> Set<u32> {
        self.pid_order().to_set()
    }

    /// The recorded PIDs, in the order in which they are written.
    pub closed spec fn pid_order(&self) -> Seq<u32> {
        self.inner.pid_order()
    }

    /// Default path: ~/.config/soloterm/pids/<project-hash>.pids (under the
    /// user's configuration directory)
    pub fn new(project_id: &str) -> (t: Self)
        ensures
            exists|base: Seq<char>|
                t.pid_file_spec() == pid_file_location(base, "soloterm"@, project_id@),
            t.pid_order() == Seq::<u32>::empty(),
    {
        let inner = match config_dir() {
            Some(dir) => crate::runtime::orphan::OrphanTracker::new_in(dir.as_str(), "soloterm", project_id),
            None => crate::runtime::orphan::OrphanTracker::new_in("~/.config", "soloterm", project_id),
        };
        OrphanTracker { inner }
    }

    pub fn pid_file(&self) -> (p: &str)
        ensures
            p@ == self.pid_file_spec(),
    {
        self.inner.pid_file()
    }

    /// Register a new PID
    pub fn register(&mut self, pid: u32)
        ensures
            final(self).pid_set() == old(self).pid_set().insert(pid),
            final(self).pid_order() == (if old(self).pid_order().contains(pid) {
                old(self).pid_order()
            } else {
                old(self).pid_order().push(pid)
            }),
            final(self).pid_file_spec() == old(self).pid_file_spec(),
    {
        self.inner.register(pid);
    }

    /// Unregister a PID (process exited normally)
    pub fn unregister(&mut self, pid: u32)
        ensures
            final(self).pid_set() == old(self).pid_set().remove(pid),
            final(self).pid_order() == without(old(self).pid_order(), pid),
            final(self).pid_file_spec() == old(self).pid_file_spec(),
    {
        self.inner.unregister(pid);
    }

    /// The text of the PID file: the recorded PIDs, one per line.
    pub fn pid_file_contents(&self) -> (s: String)
        ensures
            s@ == pid_file_text(self.pid_order()),
            self.pid_order().no_duplicates(),
    {
        self.inner.pid_file_contents()
    }

    /// Check for and kill orphaned processes from a previous session.
    ///
    /// `previous` is the text of the PID file as the previous session left it,
    /// or `None` when it could not be read.  Every recorded PID whose process
    /// is still alive is reported, in the order of the file, and those of them
    /// that name a single process are sent `SIGTERM` (`signal_targets`).
    /// Afterwards no PID is recorded.
    pub fn cleanup_orphans(&mut self, previous: Option<&str>) -> (killed: Vec<u32>)
        ensures
            final(self).pid_order() == Seq::<u32>::empty(),
            final(self).pid_file_spec() == old(self).pid_file_spec(),
            previous is None ==> killed@.len() == 0,
            previous matches Some(text) ==> exists|alive: Seq<bool>|
                #![trigger keep_where(pids_in_file_spec(text@), alive)]
                alive.len() == pids_in_file_spec(text@).len() && killed@ == keep_where(
                    pids_in_file_spec(text@),
                    alive,
                ),
    {
        let mut killed: Vec<u32> = Vec::new();
        if let Some(text) = previous {
            let pids = pids_in_file(text);
            let alive = probe_alive(&pids);
            let targets = signal_targets(&pids, &alive);
            let _sent = send_sigterm_to_each(&targets);
            killed = keep_where_vec(&pids, &alive);
        }
        self.inner.clear();
        killed
    }
}

/// Registering a PID that the tracker does not hold and then unregistering
/// it leaves the recorded PIDs, as a set and in order, and so the PID file's
/// text, as they were.  Stated over the PID orders that `register` and
/// `unregister` produce; `pid_set` is the set of `pid_order`.
pub proof fn law_register_then_unregister(order: Seq<u32>, pid: u32)
    requires
        !order.to_set().contains(pid),
    ensures
        without(order.push(pid), pid) == order,
        without(order.push(pid), pid).to_set() == order.to_set(),
        pid_file_text(without(order.push(pid), pid)) == pid_file_text(order),
{
    assert(!order.contains(pid)) by {
        if order.contains(pid) {
            assert(order.to_set().contains(pid));
        }
    }
    crate::runtime::orphan::law_register_then_unregister(order, pid);
}

} // verus!
