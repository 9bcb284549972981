//! Process management: process records, terminal sizes, orphan tracking and
//! the supervisor's lifecycle and restart decisions.
pub mod orphan;
pub mod process;
pub mod pty;
pub mod supervisor;
pub mod watcher;
