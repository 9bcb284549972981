//! The messages of the status bar.
use vstd::prelude::*;

use crate::text::{decimal_spec, push_decimal_u64, push_str, to_owned_string};

verus! {

/// The status once a project's configuration has or has not been found.
pub fn project_status(project_name: Option<&str>) -> (s: String)
    ensures
        match project_name {
            Some(name) => s@ == "Project: "@ + name@,
            None => s@ == "No herd.toml found \u{2014} create one to get started"@,
        },
{
    match project_name {
        Some(name) => {
            let mut s = to_owned_string("Project: ");
            push_str(&mut s, name);
            s
        },
        None => to_owned_string("No herd.toml found \u{2014} create one to get started"),
    }
}

/// The status after starting every process, `failures` of which failed.
pub fn start_all_status(failures: u64) -> (s: String)
    ensures
        failures == 0 ==> s@ == "All processes started"@,
        failures > 0 ==> s@ == decimal_spec(failures as nat) + " process(es) failed to start"@,
{
    if failures == 0 {
        to_owned_string("All processes started")
    } else {
        let mut s = String::new();
        push_decimal_u64(&mut s, failures);
        push_str(&mut s, " process(es) failed to start");
        s
    }
}

/// The status after stopping every process.
pub fn stop_all_status() -> (s: String)
    ensures
        s@ == "All processes stopped"@,
{
    to_owned_string("All processes stopped")
}

/// The status after process `name` crashed.
pub fn crash_status(name: &str) -> (s: String)
    ensures
        s@ == "Process '"@ + name@ + "' crashed"@,
{
    let mut s = to_owned_string("Process '");
    push_str(&mut s, name);
    push_str(&mut s, "' crashed");
    s
}

} // verus!
