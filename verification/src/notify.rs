//! The desktop notifications sent about managed processes: their summary,
//! body, icon and urgency.  Showing a notification is the caller's work.
use vstd::prelude::*;

use crate::text::{push_decimal_i32, push_str, signed_decimal_spec, to_owned_string};

verus! {

/// How urgent a notification is.
#[derive(Debug, Clone, Copy, PartialEq, Eq, Structural)]
pub enum Urgency {
    Normal,
    Critical,
}

/// A desktop notification.
pub struct Notice {
    pub summary: String,
    pub body: String,
    pub icon: String,
    pub urgency: Urgency,
}

/// The body of the notification about a crash of `name` with `exit_code`.
pub open spec fn crash_body(name: Seq<char>, exit_code: Option<i32>) -> Seq<char> {
    match exit_code {
        Some(code) => "Process '"@ + name + "' exited with code "@ + signed_decimal_spec(code as int),
        None => "Process '"@ + name + "' was killed by a signal"@,
    }
}

/// The notification for a process crash
pub fn crash_notice(process_name: &str, exit_code: Option<i32>) -> (n: Notice)
    ensures
        n.summary@ == "Herd: Process Crashed"@,
        n.body@ == crash_body(process_name@, exit_code),
        n.icon@ == "dialog-warning"@,
        n.urgency == Urgency::Critical,
{
    let mut body = to_owned_string("Process '");
    push_str(&mut body, process_name);
    match exit_code {
        Some(code) => {
            push_str(&mut body, "' exited with code ");
            push_decimal_i32(&mut body, code);
        },
        None => {
            push_str(&mut body, "' was killed by a signal");
        },
    }
    Notice {
        summary: to_owned_string("Herd: Process Crashed"),
        body,
        icon: to_owned_string("dialog-warning"),
        urgency: Urgency::Critical,
    }
}

/// The notification for a process restart
pub fn restart_notice(process_name: &str) -> (n: Notice)
    ensures
        n.summary@ == "Herd: Process Restarted"@,
        n.body@ == "Process '"@ + process_name@ + "' has been restarted"@,
        n.icon@ == "dialog-information"@,
        n.urgency == Urgency::Normal,
{
    let mut body = to_owned_string("Process '");
    push_str(&mut body, process_name);
    push_str(&mut body, "' has been restarted");
    Notice {
        summary: to_owned_string("Herd: Process Restarted"),
        body,
        icon: to_owned_string("dialog-information"),
        urgency: Urgency::Normal,
    }
}

/// A generic info notification
pub fn info_notice(title: &str, body: &str) -> (n: Notice)
    ensures
        n.summary@ == title@,
        n.body@ == body@,
        n.icon@ == "dialog-information"@,
        n.urgency == Urgency::Normal,
{
    Notice {
        summary: to_owned_string(title),
        body: to_owned_string(body),
        icon: to_owned_string("dialog-information"),
        urgency: Urgency::Normal,
    }
}

} // verus!
