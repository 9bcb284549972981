//! Orphan process tracking.
//!
//! The PIDs of managed processes are kept in a PID file, one per line, so that
//! if the application crashes, orphaned child processes can be found and
//! cleaned up on the next launch.  Liveness is checked through `/proc/PID`
//! (Linux-specific).
use vstd::prelude::*;

use crate::host::{config_dir, path_exists, send_sigterm};
use crate::seqs::{keep_where, keep_where_vec};
use crate::text::{
    all_digits, chars_of, decimal_spec, join_path, lemma_parse_decimal, parse_u32, parse_u32_spec,
    path_join_spec, push_char, push_decimal_u64, push_str, to_owned_string, trim_bounds, trim_spec,
};

verus! {

/// `<config dir>/<app>/pids/<project id>.pids`
pub open spec fn pid_file_location(config_dir: Seq<char>, app: Seq<char>, project_id: Seq<char>) -> Seq<char> {
    path_join_spec(
        path_join_spec(path_join_spec(config_dir, app), "pids"@),
        project_id + ".pids"@,
    )
}

/// The PID file text for a list of PIDs: their decimal forms, one per line.
pub open spec fn pid_file_text(pids: Seq<u32>) -> Seq<char>
    decreases pids.len(),
{
    if pids.len() == 0 {
        Seq::empty()
    } else if pids.len() == 1 {
        decimal_spec(pids[0] as nat)
    } else {
        decimal_spec(pids[0] as nat) + seq!['\n'] + pid_file_text(pids.drop_first())
    }
}

/// Position of the first line break in `s`.
pub open spec fn first_newline(s: Seq<char>) -> Option<int>
    decreases s.len(),
{
    if s.len() == 0 {
        None
    } else if s[0] == '\n' {
        Some(0)
    } else {
        match first_newline(s.drop_first()) {
            Some(i) => Some(i + 1),
            None => None,
        }
    }
}

/// The lines of `s`, split at every line break.
pub open spec fn split_lines(s: Seq<char>) -> Seq<Seq<char>>
    decreases s.len(),
{
    match first_newline(s) {
        Some(i) => {
            proof {
                lemma_first_newline_bounds(s);
            }
            seq![s.take(i)] + split_lines(s.skip(i + 1))
        },
        None => seq![s],
    }
}

pub proof fn lemma_first_newline_bounds(s: Seq<char>)
    ensures
        first_newline(s) matches Some(i) ==> 0 <= i < s.len() && s[i] == '\n' && forall|k: int|
            0 <= k < i ==> s[k] != '\n',
        first_newline(s) is None ==> forall|k: int| 0 <= k < s.len() ==> s[k] != '\n',
    decreases s.len(),
{
    if s.len() > 0 {
        lemma_first_newline_bounds(s.drop_first());
        assert forall|k: int| 1 <= k < s.len() implies s[k] == s.drop_first()[k - 1] by {}
    }
}

/// The PIDs written in lines: every line that holds a number, once trimmed.
pub open spec fn pids_of_lines(lines: Seq<Seq<char>>) -> Seq<u32>
    decreases lines.len(),
{
    if lines.len() == 0 {
        Seq::empty()
    } else {
        (match parse_u32_spec(trim_spec(lines[0])) {
            Some(p) => seq![p],
            None => Seq::empty(),
        }) + pids_of_lines(lines.drop_first())
    }
}

/// The PIDs recorded in a PID file's text.
pub open spec fn pids_in_file_spec(text: Seq<char>) -> Seq<u32> {
    pids_of_lines(split_lines(text))
}

/// Tracks PIDs of managed processes to detect and clean up orphans on restart.
pub struct OrphanTracker {
    pid_file: String,
    pids: Vec<u32>,
}

impl OrphanTracker {
    #[verifier::type_invariant]
    pub closed spec fn well_formed(self) -> bool {
        self.pids@.no_duplicates()
    }

    /// Where the PIDs are persisted.
    pub closed spec fn pid_file_spec(&self) -> Seq<char> {
        self.pid_file@
    }

    /// The recorded PIDs, in the order in which they are written.
    pub closed spec fn pid_order(&self) -> Seq<u32> {
        self.pids@
    }

    pub open spec fn pid_set(&self) -> Set<u32> {
        self.pid_order().to_set()
    }

    /// A tracker whose PID file is `<config_dir>/<app>/pids/<project_id>.pids`.
    pub fn new_in(config_dir: &str, app: &str, project_id: &str) -> (t: Self)
        ensures
            t.pid_file_spec() == pid_file_location(config_dir@, app@, project_id@),
            t.pid_order() == Seq::<u32>::empty(),
    {
        let app_dir = join_path(config_dir, app);
        let pid_dir = join_path(app_dir.as_str(), "pids");
        let mut file_name = to_owned_string(project_id);
        push_str(&mut file_name, ".pids");
        OrphanTracker { pid_file: join_path(pid_dir.as_str(), file_name.as_str()), pids: Vec::new() }
    }

    /// Create a new tracker. PID file stored at `~/.config/herd/pids/<project_id>.pids`
    /// (under the user's configuration directory).
    pub fn new(project_id: &str) -> (t: Self)
        ensures
            exists|base: Seq<char>| t.pid_file_spec() == pid_file_location(base, "herd"@, project_id@),
            t.pid_order() == Seq::<u32>::empty(),
    {
        match config_dir() {
            Some(dir) => OrphanTracker::new_in(dir.as_str(), "herd", project_id),
            None => OrphanTracker::new_in("~/.config", "herd", project_id),
        }
    }

    pub fn pid_file(&self) -> (p: &str)
        ensures
            p@ == self.pid_file_spec(),
    {
        self.pid_file.as_str()
    }

    pub fn contains(&self, pid: u32) -> (b: bool)
        ensures
            b == self.pid_set().contains(pid),
    {
        let mut i: usize = 0;
        while i < self.pids.len()
            invariant
                i <= self.pids@.len(),
                forall|j: int| 0 <= j < i ==> self.pids@[j] != pid,
            decreases self.pids@.len() - i,
        {
            if self.pids[i] == pid {
                proof {
                    assert(self.pids@.contains(pid));
                }
                return true;
            }
            i = i + 1;
        }
        proof {
            assert(!self.pids@.contains(pid));
        }
        false
    }

    /// Register a new PID.
    pub fn register(&mut self, pid: u32)
        ensures
            final(self).pid_set() == old(self).pid_set().insert(pid),
            final(self).pid_order() == (if old(self).pid_order().contains(pid) {
                old(self).pid_order()
            } else {
                old(self).pid_order().push(pid)
            }),
            final(self).pid_file_spec() == old(self).pid_file_spec(),
    {
        if self.contains(pid) {
            proof {
                assert(self.pid_set().insert(pid) =~= self.pid_set());
            }
            return;
        }
        proof {
            use_type_invariant(&*self);
        }
        let mut pids = Vec::new();
        std::mem::swap(&mut pids, &mut self.pids);
        let ghost before = pids@;
        pids.push(pid);
        proof {
            assert(pids@.no_duplicates()) by {
                assert forall|a: int, b: int| 0 <= a < pids@.len() && 0 <= b < pids@.len() && a != b implies pids@[a]
                    != pids@[b] by {
                    if a < before.len() && b < before.len() {
                        assert(pids@[a] == before[a] && pids@[b] == before[b]);
                    } else if a < before.len() {
                        assert(pids@[a] == before[a]);
                        assert(!before.contains(pid));
                    } else {
                        assert(pids@[b] == before[b]);
                        assert(!before.contains(pid));
                    }
                }
            }
        }
        self.pids = pids;
        proof {
            assert(self.pids@ == before.push(pid));
            assert forall|y: u32| #[trigger] self.pid_set().contains(y) <==> old(self).pid_set().insert(pid).contains(y) by {
                if y == pid {
                    assert(self.pids@[before.len() as int] == pid);
                } else if before.contains(y) {
                    let k = choose|k: int| 0 <= k < before.len() && before[k] == y;
                    assert(self.pids@[k] == y);
                } else if self.pids@.contains(y) {
                    let k = choose|k: int| 0 <= k < self.pids@.len() && self.pids@[k] == y;
                    assert(k < before.len());
                    assert(before[k] == y);
                }
            }
            assert(self.pid_set() =~= old(self).pid_set().insert(pid));
        }
    }

    /// Unregister a PID (process exited normally).
    pub fn unregister(&mut self, pid: u32)
        ensures
            final(self).pid_set() == old(self).pid_set().remove(pid),
            final(self).pid_order() == without(old(self).pid_order(), pid),
            final(self).pid_file_spec() == old(self).pid_file_spec(),
    {
        proof {
            use_type_invariant(&*self);
        }
        let mut kept: Vec<u32> = Vec::new();
        let mut i: usize = 0;
        while i < self.pids.len()
            invariant
                i <= self.pids@.len(),
                self.pids@.no_duplicates(),
                kept@.no_duplicates(),
                forall|x: u32| #[trigger] kept@.contains(x) <==> (exists|j: int| 0 <= j < i && self.pids@[j] == x) && x != pid,
                kept@ == without(self.pids@.take(i as int), pid),
            decreases self.pids@.len() - i,
        {
            let x = self.pids[i];
            proof {
                assert(self.pids@.take(i + 1).drop_last() == self.pids@.take(i as int));
            }
            if x != pid {
                let ghost before = kept@;
                kept.push(x);
                proof {
                    assert forall|y: u32| #[trigger] kept@.contains(y) <==> (exists|j: int| 0 <= j < i + 1 && self.pids@[j] == y) && y != pid by {
                        if kept@.contains(y) && y != x {
                            let k = choose|k: int| 0 <= k < kept@.len() && kept@[k] == y;
                            assert(before[k] == y);
                            assert(before.contains(y));
                        }
                        if y == x {
                            assert(kept@[kept@.len() - 1] == y);
                        }
                        if (exists|j: int| 0 <= j < i + 1 && self.pids@[j] == y) && y != pid && y != x {
                            let j = choose|j: int| 0 <= j < i + 1 && self.pids@[j] == y;
                            assert(j < i);
                            assert(before.contains(y));
                            let k = choose|k: int| 0 <= k < before.len() && before[k] == y;
                            assert(kept@[k] == y);
                        }
                    }
                    assert(kept@.no_duplicates()) by {
                        assert(!before.contains(x)) by {
                            if before.contains(x) {
                                let k = choose|k: int| 0 <= k < before.len() && before[k] == x;
                                assert(kept@[k] == x);
                                let j = choose|j: int| 0 <= j < i && self.pids@[j] == x;
                                assert(self.pids@[i as int] == x);
                            }
                        }
                        assert forall|a: int, b: int| 0 <= a < kept@.len() && 0 <= b < kept@.len() && a != b implies kept@[a]
                            != kept@[b] by {
                            if a < before.len() && b < before.len() {
                                assert(kept@[a] == before[a] && kept@[b] == before[b]);
                            } else if a < before.len() {
                                assert(kept@[a] == before[a]);
                            } else {
                                assert(kept@[b] == before[b]);
                            }
                        }
                    }
                }
            } else {
                proof {
                    assert forall|y: u32| #[trigger] kept@.contains(y) <==> (exists|j: int| 0 <= j < i + 1 && self.pids@[j] == y) && y != pid by {
                        if (exists|j: int| 0 <= j < i + 1 && self.pids@[j] == y) && y != pid {
                            let j = choose|j: int| 0 <= j < i + 1 && self.pids@[j] == y;
                            assert(j < i);
                        }
                    }
                }
            }
            i = i + 1;
        }
        proof {
            assert(self.pids@.take(self.pids@.len() as int) == self.pids@);
        }
        self.pids = kept;
        proof {
            assert forall|y: u32| #[trigger] self.pid_set().contains(y) <==> old(self).pid_set().remove(pid).contains(y) by {
                if old(self).pid_order().contains(y) && y != pid {
                    let j = choose|j: int| 0 <= j < old(self).pid_order().len() && old(self).pid_order()[j] == y;
                    assert(old(self).pids@[j] == y);
                }
            }
            assert(self.pid_set() =~= old(self).pid_set().remove(pid));
        }
    }

    /// Forget every PID.
    pub fn clear(&mut self)
        ensures
            final(self).pid_set() == Set::<u32>::empty(),
            final(self).pid_order() == Seq::<u32>::empty(),
            final(self).pid_file_spec() == old(self).pid_file_spec(),
    {
        self.pids = Vec::new();
        proof {
            assert(self.pid_set() =~= Set::<u32>::empty());
        }
    }

    /// The text of the PID file: the recorded PIDs, one per line.
    pub fn pid_file_contents(&self) -> (s: String)
        ensures
            s@ == pid_file_text(self.pid_order()),
            self.pid_order().no_duplicates(),
    {
        proof {
            use_type_invariant(self);
        }
        let mut s = String::new();
        let n = self.pids.len();
        if n == 0 {
            return s;
        }
        // built from the back: text(p[i..]) for decreasing i
        let mut i = n - 1;
        push_decimal_u64(&mut s, self.pids[i] as u64);
        proof {
            assert(self.pids@.skip(i as int).len() == 1);
            assert(s@ =~= pid_file_text(self.pids@.skip(i as int)));
        }
        while i > 0
            invariant
                i < n,
                n == self.pids@.len(),
                s@ == pid_file_text(self.pids@.skip(i as int)),
            decreases i,
        {
            i = i - 1;
            let mut line = String::new();
            push_decimal_u64(&mut line, self.pids[i] as u64);
            push_char(&mut line, '\n');
            push_str(&mut line, s.as_str());
            proof {
                let rest = self.pids@.skip(i as int);
                assert(rest.drop_first() == self.pids@.skip(i + 1));
                assert(rest[0] == self.pids@[i as int]);
            }
            s = line;
        }
        proof {
            assert(self.pids@.skip(0) == self.pids@);
        }
        s
    }

    /// Check for and kill orphaned processes from a previous session.
    ///
    /// `previous` is the text of the PID file as the previous session left it,
    /// or `None` when it could not be read.  Each PID recorded there is checked
    /// for a live process; those alive that name a single process are sent
    /// `SIGTERM` (`signal_targets`), and the PIDs to which the signal was sent
    /// are returned, in the order of the file.  Afterwards no PID is recorded.
    pub fn cleanup_orphans(&mut self, previous: Option<&str>) -> (killed: Vec<u32>)
        ensures
            final(self).pid_order() == Seq::<u32>::empty(),
            final(self).pid_file_spec() == old(self).pid_file_spec(),
            previous is None ==> killed@.len() == 0,
            previous matches Some(text) ==> exists|alive: Seq<bool>, sent: Seq<bool>|
                #![trigger keep_where(signal_targets_spec(pids_in_file_spec(text@), alive), sent)]
                alive.len() == pids_in_file_spec(text@).len() && sent.len()
                    == signal_targets_spec(pids_in_file_spec(text@), alive).len() && killed@
                    == keep_where(signal_targets_spec(pids_in_file_spec(text@), alive), sent),
    {
        let mut killed: Vec<u32> = Vec::new();
        if let Some(text) = previous {
            let pids = pids_in_file(text);
            let alive = probe_alive(&pids);
            let targets = signal_targets(&pids, &alive);
            let sent = send_sigterm_to_each(&targets);
            killed = keep_where_vec(&targets, &sent);
        }
        self.clear();
        killed
    }
}

/// Whether PID `pid` can be sent a signal as a single process: positive and
/// within the range of `pid_t`.
pub open spec fn in_signal_range(pid: u32) -> bool {
    0 < pid <= i32::MAX
}

/// The PIDs that orphan cleanup signals: those of `pids` whose process is
/// alive (`alive[i]` for `pids[i]`) and that name a single process.
pub open spec fn signal_targets_spec(pids: Seq<u32>, alive: Seq<bool>) -> Seq<u32>
    decreases pids.len(),
{
    if pids.len() == 0 {
        Seq::empty()
    } else {
        let rest = signal_targets_spec(pids.drop_last(), alive.drop_last());
        if alive.last() && in_signal_range(pids.last()) {
            rest.push(pids.last())
        } else {
            rest
        }
    }
}

/// The PIDs to send `SIGTERM`: those of `pids` whose process is alive
/// (`alive[i]` for `pids[i]`) and that name a single process, in order.
pub fn signal_targets(pids: &Vec<u32>, alive: &Vec<bool>) -> (t: Vec<u32>)
    requires
        pids@.len() == alive@.len(),
    ensures
        t@ == signal_targets_spec(pids@, alive@),
        forall|k: int| 0 <= k < t@.len() ==> in_signal_range(#[trigger] t@[k]),
{
    let mut t: Vec<u32> = Vec::new();
    let mut i: usize = 0;
    while i < pids.len()
        invariant
            i <= pids@.len(),
            pids@.len() == alive@.len(),
            t@ == signal_targets_spec(pids@.take(i as int), alive@.take(i as int)),
            forall|k: int| 0 <= k < t@.len() ==> in_signal_range(#[trigger] t@[k]),
        decreases pids@.len() - i,
    {
        proof {
            assert(pids@.take(i + 1).drop_last() == pids@.take(i as int));
            assert(alive@.take(i + 1).drop_last() == alive@.take(i as int));
        }
        if alive[i] && 0 < pids[i] && pids[i] <= 0x7fff_ffff {
            t.push(pids[i]);
        }
        i = i + 1;
    }
    proof {
        assert(pids@.take(pids@.len() as int) == pids@);
        assert(alive@.take(alive@.len() as int) == alive@);
    }
    t
}

/// Whether the process of each PID is alive, in order.
pub(crate) fn probe_alive(pids: &Vec<u32>) -> (alive: Vec<bool>)
    ensures
        alive@.len() == pids@.len(),
{
    let mut alive: Vec<bool> = Vec::new();
    let mut i: usize = 0;
    while i < pids.len()
        invariant
            i <= pids@.len(),
            alive@.len() == i,
        decreases pids@.len() - i,
    {
        alive.push(is_process_alive(pids[i]));
        i = i + 1;
    }
    alive
}

/// Sends `SIGTERM` to each of `targets`, in order; whether each signal was
/// sent is returned in the same order.
pub(crate) fn send_sigterm_to_each(targets: &Vec<u32>) -> (sent: Vec<bool>)
    requires
        forall|k: int| 0 <= k < targets@.len() ==> in_signal_range(#[trigger] targets@[k]),
    ensures
        sent@.len() == targets@.len(),
{
    let mut sent: Vec<bool> = Vec::new();
    let mut i: usize = 0;
    while i < targets.len()
        invariant
            i <= targets@.len(),
            sent@.len() == i,
            forall|k: int| 0 <= k < targets@.len() ==> in_signal_range(#[trigger] targets@[k]),
        decreases targets@.len() - i,
    {
        let pid = targets[i];
        assert(in_signal_range(targets@[i as int]));
        sent.push(send_sigterm(pid as i32));
        i = i + 1;
    }
    sent
}

/// The PIDs recorded in a PID file's text: each line, trimmed, that parses as
/// a `u32`.
pub fn pids_in_file(text: &str) -> (r: Vec<u32>)
    ensures
        r@ == pids_in_file_spec(text@),
{
    let s = chars_of(text);
    let len = s.len();
    let mut r: Vec<u32> = Vec::new();
    let mut start: usize = 0;
    assert(s@.skip(0) == s@);
    loop
        invariant
            len == s@.len(),
            s@ == text@,
            start <= len,
            r@ + pids_of_lines(split_lines(s@.skip(start as int))) == pids_in_file_spec(text@),
        decreases len - start,
    {
        let ghost rest = s@.skip(start as int);
        let mut end = start;
        while end < len && s[end] != '\n'
            invariant
                start <= end <= len,
                len == s@.len(),
                rest == s@.skip(start as int),
                forall|k: int| start <= k < end ==> s@[k] != '\n',
            decreases len - end,
        {
            end = end + 1;
        }
        proof {
            lemma_first_newline_bounds(rest);
            if end < len {
                assert(rest[end - start] == '\n');
                lemma_first_newline_at(rest, end - start);
            } else {
                assert forall|k: int| 0 <= k < rest.len() implies rest[k] != '\n' by {
                    assert(rest[k] == s@[k + start]);
                }
            }
        }
        let (a, b) = trim_bounds(&s, start, end);
        let parsed = parse_u32(&s, a, b);
        proof {
            assert(s@.subrange(start as int, end as int) == rest.take(end - start));
        }
        match parsed {
            Some(p) => {
                r.push(p);
            },
            None => {},
        }
        proof {
            let lines = split_lines(rest);
            assert(lines[0] == rest.take(end - start));
            assert(lines.drop_first() == (if end < len {
                split_lines(rest.skip(end - start + 1))
            } else {
                Seq::<Seq<char>>::empty()
            }));
        }
        if end == len {
            proof {
                assert(split_lines(rest).len() == 1);
                assert(pids_of_lines(split_lines(rest).drop_first()) == Seq::<u32>::empty());
            }
            return r;
        }
        proof {
            assert(rest.skip(end - start + 1) == s@.skip(end + 1));
        }
        start = end + 1;
    }
}

proof fn lemma_first_newline_at(s: Seq<char>, i: int)
    requires
        0 <= i < s.len(),
        s[i] == '\n',
        forall|k: int| 0 <= k < i ==> s[k] != '\n',
    ensures
        first_newline(s) == Some(i),
    decreases i,
{
    if i > 0 {
        assert forall|k: int| 0 <= k < i - 1 implies s.drop_first()[k] != '\n' by {
            assert(s.drop_first()[k] == s[k + 1]);
        }
        lemma_first_newline_at(s.drop_first(), i - 1);
    }
}

/// `pid` as a signal target: positive and within the range of `pid_t`.
pub fn to_nix_pid(pid: u32) -> (r: Option<i32>)
    ensures
        r == (if 0 < pid && pid <= i32::MAX {
            Some(pid as i32)
        } else {
            None
        }),
{
    if 0 < pid && pid <= 0x7fff_ffff {
        Some(pid as i32)
    } else {
        None
    }
}

/// The path under which Linux lists process `pid`: `/proc/PID`.
pub fn proc_path(pid: u32) -> (p: String)
    ensures
        p@ == "/proc/"@ + decimal_spec(pid as nat),
{
    let mut path = to_owned_string("/proc/");
    push_decimal_u64(&mut path, pid as u64);
    path
}

/// Whether a process is alive (Linux-specific: whether `proc_path(pid)`
/// exists).  The answer depends on the machine and the moment, so no clause
/// states it.
pub fn is_process_alive(pid: u32) -> bool {
    path_exists(proc_path(pid).as_str())
}

// ---------------------------------------------------------------------------
// Laws
// ---------------------------------------------------------------------------

/// What the PID file holds is read back by the next launch: reading the text
/// written for a list of PIDs gives that list.
pub proof fn law_pid_file_round_trip(pids: Seq<u32>)
    ensures
        pids_in_file_spec(pid_file_text(pids)) == pids,
    decreases pids.len(),
{
    if pids.len() == 0 {
        assert(first_newline(Seq::<char>::empty()) is None);
        assert(split_lines(Seq::<char>::empty()) == seq![Seq::<char>::empty()]);
        assert(trim_spec(Seq::<char>::empty()) == Seq::<char>::empty());
        assert(parse_u32_spec(Seq::<char>::empty()) is None);
        assert(seq![Seq::<char>::empty()].drop_first() =~= Seq::<Seq<char>>::empty());
        assert(pids_of_lines(seq![Seq::<char>::empty()].drop_first()) == Seq::<u32>::empty());
        assert(pids_of_lines(seq![Seq::<char>::empty()]) =~= Seq::<u32>::empty());
    } else {
        let d = decimal_spec(pids[0] as nat);
        crate::text::lemma_decimal_digits(pids[0] as nat);
        lemma_parse_decimal(pids[0]);
        assert forall|k: int| 0 <= k < d.len() implies d[k] != '\n' by {
            assert(all_digits(d));
            assert(crate::text::is_ascii_digit(d[k]));
        }
        if pids.len() == 1 {
            lemma_first_newline_bounds(d);
            if first_newline(d) is Some {
                let i = first_newline(d)->0;
                assert(d[i] == '\n');
            }
            assert(split_lines(d) == seq![d]);
            assert(seq![d].drop_first() =~= Seq::<Seq<char>>::empty());
            assert(pids_of_lines(seq![d].drop_first()) == Seq::<u32>::empty());
            assert(pids_of_lines(seq![d]) == seq![pids[0]] + Seq::<u32>::empty());
            assert(pids =~= seq![pids[0]]);
        } else {
            let rest = pid_file_text(pids.drop_first());
            let t = d + seq!['\n'] + rest;
            assert(t[d.len() as int] == '\n');
            assert forall|k: int| 0 <= k < d.len() implies t[k] != '\n' by {
                assert(t[k] == d[k]);
            }
            lemma_first_newline_at(t, d.len() as int);
            assert(t.take(d.len() as int) == d);
            assert(t.skip(d.len() as int + 1) == rest);
            law_pid_file_round_trip(pids.drop_first());
            let lines = split_lines(t);
            assert(lines == seq![d] + split_lines(rest));
            assert(lines[0] == d);
            assert(lines.drop_first() == split_lines(rest));
            assert(pids == seq![pids[0]] + pids.drop_first());
        }
    }
}

/// `s` without the occurrences of `x`, in order.
pub open spec fn without(s: Seq<u32>, x: u32) -> Seq<u32>
    decreases s.len(),
{
    if s.len() == 0 {
        Seq::empty()
    } else {
        let rest = without(s.drop_last(), x);
        if s.last() != x {
            rest.push(s.last())
        } else {
            rest
        }
    }
}

proof fn lemma_without_absent(s: Seq<u32>, x: u32)
    requires
        !s.contains(x),
    ensures
        without(s, x) == s,
    decreases s.len(),
{
    if s.len() > 0 {
        assert(!s.drop_last().contains(x)) by {
            if s.drop_last().contains(x) {
                let k = choose|k: int| 0 <= k < s.drop_last().len() && s.drop_last()[k] == x;
                assert(s[k] == x);
            }
        }
        lemma_without_absent(s.drop_last(), x);
        assert(s.last() != x) by {
            assert(s[s.len() - 1] == s.last());
        }
        assert(s.drop_last().push(s.last()) == s);
    }
}

/// Registering a PID that was not recorded and then unregistering it
/// leaves the recorded PIDs, and so the PID file's text, as they were.
/// Stated over the PID orders that `register` and `unregister` produce.
pub proof fn law_register_then_unregister(s: Seq<u32>, pid: u32)
    requires
        !s.contains(pid),
    ensures
        without(s.push(pid), pid) == s,
        pid_file_text(without(s.push(pid), pid)) == pid_file_text(s),
{
    assert(s.push(pid).drop_last() == s);
    lemma_without_absent(s, pid);
}

} // verus!
