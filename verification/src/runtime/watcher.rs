//! Deciding which file-system events restart a process.
//!
//! A file watcher reports raw events; the filter here turns them into file
//! changes for one process.  Events that come within half a second of the last
//! accepted one are dropped, and paths under an ignored path are left out.
use vstd::prelude::*;

use crate::collections::string_views;

verus! {

/// Events closer than this to the last accepted event are dropped.
pub const DEBOUNCE_MS: u64 = 500;

/// What `std::path::Path::starts_with` answers for the paths written `path`
/// and `base`.
pub uninterp spec fn path_starts_with(path: Seq<char>, base: Seq<char>) -> bool;

/// `std::path::Path::starts_with`: whether `base` is a prefix of `path`,
/// compared component by component.  The answer depends on the two paths
/// alone.
#[verifier::external_body]
fn starts_with(path: &str, base: &str) -> (b: bool)
    ensures
        b == path_starts_with(path@, base@),
{
    std::path::Path::new(path).starts_with(base)
}

/// A debounced file change event
pub struct FileChange {
    pub paths: Vec<String>,
    pub process_name: String,
}

/// `path` lies under one of the ignored paths.
pub open spec fn is_ignored(path: Seq<char>, ignore: Seq<Seq<char>>) -> bool {
    exists|i: int| 0 <= i < ignore.len() && path_starts_with(path, #[trigger] ignore[i])
}

/// The paths that are not ignored, in order.
pub open spec fn relevant_paths(paths: Seq<Seq<char>>, ignore: Seq<Seq<char>>) -> Seq<Seq<char>>
    decreases paths.len(),
{
    if paths.len() == 0 {
        Seq::empty()
    } else if is_ignored(paths.last(), ignore) {
        relevant_paths(paths.drop_last(), ignore)
    } else {
        relevant_paths(paths.drop_last(), ignore).push(paths.last())
    }
}

/// An event at `now` comes too soon after one accepted at `last` (a clock that
/// went backwards counts as no time having passed).
pub open spec fn too_soon(last: u64, now: u64) -> bool {
    now < last || now - last < DEBOUNCE_MS
}

/// Turns the raw events of a file watcher into file changes for one process.
pub struct ChangeFilter {
    process_name: String,
    ignore: Vec<String>,
    last_event_ms: u64,
}

impl ChangeFilter {
    pub closed spec fn name(&self) -> Seq<char> {
        self.process_name@
    }

    pub closed spec fn ignored(&self) -> Seq<Seq<char>> {
        string_views(self.ignore@)
    }

    /// When the last event was accepted (or the filter was made).
    pub closed spec fn last_event(&self) -> u64 {
        self.last_event_ms
    }

    /// A filter for the events of `process_name`, made at `now_ms`.
    pub fn new(process_name: String, ignore: Vec<String>, now_ms: u64) -> (f: Self)
        ensures
            f.name() == process_name@,
            f.ignored() == string_views(ignore@),
            f.last_event() == now_ms,
    {
        ChangeFilter { process_name, ignore, last_event_ms: now_ms }
    }

    fn is_ignored(&self, path: &str) -> (b: bool)
        ensures
            b == is_ignored(path@, self.ignored()),
    {
        let mut i: usize = 0;
        while i < self.ignore.len()
            invariant
                i <= self.ignore@.len(),
                forall|k: int| 0 <= k < i ==> !path_starts_with(path@, #[trigger] self.ignored()[k]),
            decreases self.ignore@.len() - i,
        {
            if starts_with(path, self.ignore[i].as_str()) {
                proof {
                    assert(self.ignored()[i as int] == self.ignore@[i as int]@);
                }
                return true;
            }
            i = i + 1;
        }
        false
    }

    /// An event that touched `paths` at `now_ms`.  It is dropped when it comes
    /// too soon after the last accepted event; otherwise it is accepted, and
    /// its paths that are not ignored, if any, make a file change.
    pub fn on_event(&mut self, paths: Vec<String>, now_ms: u64) -> (r: Option<FileChange>)
        ensures
            final(self).name() == old(self).name(),
            final(self).ignored() == old(self).ignored(),
            too_soon(old(self).last_event(), now_ms) ==> r is None && final(self).last_event()
                == old(self).last_event(),
            !too_soon(old(self).last_event(), now_ms) ==> {
                let relevant = relevant_paths(string_views(paths@), old(self).ignored());
                &&& final(self).last_event() == now_ms
                &&& relevant.len() == 0 ==> r is None
                &&& relevant.len() > 0 ==> (r matches Some(c) && string_views(c.paths@) == relevant
                    && c.process_name@ == old(self).name())
            },
    {
        if now_ms < self.last_event_ms || now_ms - self.last_event_ms < DEBOUNCE_MS {
            return None;
        }
        self.last_event_ms = now_ms;
        let mut relevant: Vec<String> = Vec::new();
        let n = paths.len();
        let mut i: usize = 0;
        while i < n
            invariant
                i <= n,
                n == paths@.len(),
                string_views(relevant@) == relevant_paths(string_views(paths@.take(i as int)), self.ignored()),
            decreases n - i,
        {
            let p = &paths[i];
            proof {
                let t = string_views(paths@.take(i + 1));
                assert(t.drop_last() == string_views(paths@.take(i as int)));
                assert(t.last() == p@);
            }
            if !self.is_ignored(p.as_str()) {
                let ghost before = relevant@;
                relevant.push(p.clone());
                proof {
                    assert(string_views(relevant@) == string_views(before).push(p@));
                }
            }
            i = i + 1;
        }
        proof {
            assert(paths@.take(n as int) == paths@);
        }
        if relevant.len() == 0 {
            None
        } else {
            Some(FileChange { paths: relevant, process_name: self.process_name.clone() })
        }
    }
}

// ---------------------------------------------------------------------------
// Laws
// ---------------------------------------------------------------------------

/// A file change never reports an ignored path, and reports the others in the
/// order the event gave them.
pub proof fn law_change_paths_not_ignored(paths: Seq<Seq<char>>, ignore: Seq<Seq<char>>)
    ensures
        forall|i: int|
            0 <= i < relevant_paths(paths, ignore).len() ==> !is_ignored(
                #[trigger] relevant_paths(paths, ignore)[i],
                ignore,
            ),
        crate::seqs::is_subsequence(relevant_paths(paths, ignore), paths),
    decreases paths.len(),
{
    if paths.len() > 0 {
        law_change_paths_not_ignored(paths.drop_last(), ignore);
        let r = relevant_paths(paths.drop_last(), ignore);
        if is_ignored(paths.last(), ignore) {
            crate::seqs::lemma_subsequence_push_right(r, paths.drop_last(), paths.last());
        } else {
            crate::seqs::lemma_subsequence_push_both(r, paths.drop_last(), paths.last());
        }
        assert(paths.drop_last().push(paths.last()) == paths);
    }
}

/// With nothing ignored, every path of an accepted event is reported.
pub proof fn law_nothing_ignored_keeps_all(paths: Seq<Seq<char>>)
    ensures
        relevant_paths(paths, Seq::empty()) == paths,
    decreases paths.len(),
{
    if paths.len() > 0 {
        law_nothing_ignored_keeps_all(paths.drop_last());
        assert(paths.drop_last().push(paths.last()) == paths);
    }
}

/// Two events accepted one after the other are at least the debounce
/// interval apart.
pub proof fn law_accepted_events_are_spaced(last: u64, now: u64)
    requires
        !too_soon(last, now),
    ensures
        now >= last + DEBOUNCE_MS,
{
}

} // verus!
