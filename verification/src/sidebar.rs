//! What the sidebar lists: one row per process, in the configured order,
//! with a section heading wherever the section changes.
use vstd::prelude::*;

use crate::collections::string_views;
use crate::runtime::process::ProcessState;
use crate::runtime::supervisor::{ManagedProcess, Supervisor};
use crate::text::{str_eq, to_owned_string};

verus! {

/// One row of the sidebar.
pub struct SidebarRow {
    /// The section heading shown above the row, when the section changes here.
    pub heading: Option<String>,
    pub name: String,
    pub state: ProcessState,
    pub focused: bool,
}

/// The state and section shown for `name`: the process's own, or a pending
/// process of the default section when the supervisor does not know it.
pub open spec fn shown_state(processes: Map<Seq<char>, ManagedProcess>, name: Seq<char>) -> (ProcessState, Seq<char>) {
    if processes.contains_key(name) {
        (processes[name].state, processes[name].info.section@)
    } else {
        (ProcessState::Pending, "services"@)
    }
}

/// The section shown before row `i` (none before the first row).
pub open spec fn previous_section(
    processes: Map<Seq<char>, ManagedProcess>,
    order: Seq<Seq<char>>,
    i: int,
) -> Seq<char> {
    if i == 0 {
        Seq::empty()
    } else {
        shown_state(processes, order[i - 1]).1
    }
}

/// `r` is row `i` of the sidebar for the processes named in `order`.
pub open spec fn row_spec(
    r: SidebarRow,
    processes: Map<Seq<char>, ManagedProcess>,
    order: Seq<Seq<char>>,
    focused: Option<Seq<char>>,
    i: int,
) -> bool {
    let (state, section) = shown_state(processes, order[i]);
    &&& r.name@ == order[i]
    &&& r.state == state
    &&& r.focused == (focused == Some(order[i]))
    &&& (section != previous_section(processes, order, i) ==> (r.heading matches Some(h) && h@
        == section))
    &&& (section == previous_section(processes, order, i) ==> r.heading is None)
}

/// The rows of the sidebar for the processes named in `order`, with
/// `focused` the name of the focused process, if any.
pub fn sidebar_rows(supervisor: &Supervisor, order: &Vec<String>, focused: Option<&str>) -> (rows: Vec<
    SidebarRow,
>)
    ensures
        rows@.len() == order@.len(),
        forall|i: int|
            0 <= i < rows@.len() ==> row_spec(
                #[trigger] rows@[i],
                supervisor.processes(),
                string_views(order@),
                match focused {
                    Some(f) => Some(f@),
                    None => None,
                },
                i,
            ),
{
    let ghost procs = supervisor.processes();
    let ghost names = string_views(order@);
    let ghost foc = match focused {
        Some(f) => Some(f@),
        None => None::<Seq<char>>,
    };
    let mut rows: Vec<SidebarRow> = Vec::new();
    let mut last: String = String::new();
    let n = order.len();
    let mut i: usize = 0;
    while i < n
        invariant
            i <= n,
            n == order@.len(),
            names == string_views(order@),
            procs == supervisor.processes(),
            foc == (match focused {
                Some(f) => Some(f@),
                None => None::<Seq<char>>,
            }),
            rows@.len() == i,
            last@ == previous_section(procs, names, i as int),
            forall|k: int| 0 <= k < i ==> row_spec(#[trigger] rows@[k], procs, names, foc, k),
        decreases n - i,
    {
        let name = &order[i];
        proof {
            assert(names[i as int] == name@);
        }
        let (state, section) = match supervisor.get_process(name.as_str()) {
            Some(p) => (p.state, p.info.section.clone()),
            None => (ProcessState::Pending, to_owned_string("services")),
        };
        let heading = if str_eq(section.as_str(), last.as_str()) {
            None
        } else {
            Some(section.clone())
        };
        let is_focused = match focused {
            Some(f) => str_eq(f, name.as_str()),
            None => false,
        };
        rows.push(SidebarRow { heading, name: name.clone(), state, focused: is_focused });
        last = section;
        i = i + 1;
    }
    rows
}

} // verus!
