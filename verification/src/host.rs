//! The library's contact with the machine it runs on: the user's configuration
//! directory, what is on disk, and signals to other processes.  What these
//! calls return depends on the machine and the moment, so nothing is promised
//! about it; the library's functions take the results as they come.
use vstd::prelude::*;

verus! {

/// `dirs::config_dir`: the user's configuration directory, when the platform
/// has one and its path is valid UTF-8.
#[verifier::external_body]
pub fn config_dir() -> Option<String> {
    match dirs::config_dir() {
        Some(p) => p.into_os_string().into_string().ok(),
        None => None,
    }
}

/// `std::path::Path::exists`: whether something exists at `path`.
#[verifier::external_body]
pub fn path_exists(path: &str) -> bool {
    std::path::Path::new(path).exists()
}

/// `std::path::Path::read_dir`: the names of the entries of directory `dir`
/// (an entry that could not be read is `None`; names that are not valid
/// UTF-8 are converted lossily), or `None` when the directory cannot be read.
#[verifier::external_body]
pub fn read_dir_names(dir: &str) -> Option<Vec<Option<String>>> {
    match std::path::Path::new(dir).read_dir() {
        Ok(entries) => {
            let mut names = Vec::new();
            for entry in entries {
                names.push(match entry {
                    Ok(e) => Some(e.file_name().to_string_lossy().into_owned()),
                    Err(_) => None,
                });
            }
            Some(names)
        },
        Err(_) => None,
    }
}

/// What `std::path::Path::parent` answers for the path written `path`.
pub uninterp spec fn path_parent(path: Seq<char>) -> Option<Seq<char>>;

/// `std::path::Path::parent`: the path without its final component, or
/// `None` for a root or the empty path.  The answer depends on the path alone,
/// and a path without its final component is shorter than the path.
#[verifier::external_body]
pub fn parent(path: &str) -> (r: Option<String>)
    ensures
        match r {
            Some(p) => path_parent(path@) == Some(p@) && p@.len() < path@.len(),
            None => path_parent(path@) is None,
        },
{
    match std::path::Path::new(path).parent() {
        Some(p) => Some(p.to_string_lossy().into_owned()),
        None => None,
    }
}

/// `nix::sys::signal::kill` with `SIGTERM`: asks process `pid` to terminate.
/// Returns whether the signal was sent.  Whether that succeeds depends on the
/// machine (the process may be gone, or belong to another user), so no clause
/// states the result; `pid` must name a single process, never a group.
#[verifier::external_body]
pub fn send_sigterm(pid: i32) -> bool
    requires
        pid > 0,
{
    nix::sys::signal::kill(nix::unistd::Pid::from_raw(pid), nix::sys::signal::Signal::SIGTERM).is_ok()
}

} // verus!
