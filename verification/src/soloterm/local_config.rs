//! Where a project's local configuration overrides live.
use vstd::prelude::*;

use crate::host::{parent, path_parent};
use crate::text::{join_path, path_join_spec};

verus! {

/// The file of local overrides, next to the project's configuration file.
pub const LOCAL_FILE_NAME: &'static str = ".solo.local";

/// Find the .solo.local file next to a solo.toml
pub fn local_path_for(config_path: &str) -> (r: Option<String>)
    ensures
        match path_parent(config_path@) {
            Some(dir) => r matches Some(p) && p@ == path_join_spec(dir, ".solo.local"@),
            None => r is None,
        },
{
    match parent(config_path) {
        Some(dir) => Some(join_path(dir.as_str(), LOCAL_FILE_NAME)),
        None => None,
    }
}

/// Merges local overrides into a project's settings: the local processes are
/// appended after the project's, in order, and each UI setting that the local
/// file sets (`Some`) replaces the project's, whatever its value.  The font
/// size is generic so that the setting's own type can be used where the
/// configuration is read.
pub fn merge_local_settings<P, F>(
    processes: &mut Vec<P>,
    theme: &mut String,
    font_size: &mut F,
    local_processes: Vec<P>,
    local_theme: Option<String>,
    local_font_size: Option<F>,
)
    ensures
        final(processes)@ == old(processes)@ + local_processes@,
        final(theme)@ == (match local_theme {
            Some(t) => t@,
            None => old(theme)@,
        }),
        *final(font_size) == (match local_font_size {
            Some(f) => f,
            None => *old(font_size),
        }),
{
    let mut local = local_processes;
    processes.append(&mut local);
    if let Some(t) = local_theme {
        *theme = t;
    }
    if let Some(f) = local_font_size {
        *font_size = f;
    }
}

} // verus!
