//! What the supervisor knows about a managed process.
use vstd::prelude::*;

use crate::collections::NamedMap;
use crate::config::schema::ProcessConfig;
use crate::config::trust::opt_string_view;

verus! {

/// Current state of a managed process
#[derive(Debug, Clone, Copy, PartialEq, Eq, Structural)]
pub enum ProcessState {
    /// Not yet started
    Pending,
    /// Currently running
    Running,
    /// Stopped by user
    Stopped,
    /// Crashed (exited with non-zero or signal)
    Crashed,
    /// Exited cleanly
    Exited,
    /// Waiting before auto-restart
    Restarting,
}

/// The state's name as `Debug` writes it.
pub open spec fn state_name(s: ProcessState) -> Seq<char> {
    match s {
        ProcessState::Pending => "Pending"@,
        ProcessState::Running => "Running"@,
        ProcessState::Stopped => "Stopped"@,
        ProcessState::Crashed => "Crashed"@,
        ProcessState::Exited => "Exited"@,
        ProcessState::Restarting => "Restarting"@,
    }
}

/// The state as the terminal header shows it.
pub open spec fn state_label(s: ProcessState) -> Seq<char> {
    match s {
        ProcessState::Pending => "pending"@,
        ProcessState::Running => "running"@,
        ProcessState::Stopped => "stopped"@,
        ProcessState::Crashed => "crashed"@,
        ProcessState::Exited => "exited"@,
        ProcessState::Restarting => "restarting"@,
    }
}

/// The sidebar's indicator for a state: a symbol and its colour (`0xRRGGBB`).
pub open spec fn state_indicator(s: ProcessState) -> (Seq<char>, u32) {
    match s {
        ProcessState::Running => ("\u{25cf}"@, 0x00cc66),
        ProcessState::Pending => ("\u{25cb}"@, 0x666666),
        ProcessState::Stopped => ("\u{25a0}"@, 0x888888),
        ProcessState::Crashed => ("\u{25cf}"@, 0xff4444),
        ProcessState::Exited => ("\u{25cb}"@, 0x448844),
        ProcessState::Restarting => ("\u{25cc}"@, 0xffaa00),
    }
}

impl ProcessState {
    /// The state's name as `Debug` writes it.
    pub fn name(&self) -> (s: &'static str)
        ensures
            s@ == state_name(*self),
    {
        match self {
            ProcessState::Pending => "Pending",
            ProcessState::Running => "Running",
            ProcessState::Stopped => "Stopped",
            ProcessState::Crashed => "Crashed",
            ProcessState::Exited => "Exited",
            ProcessState::Restarting => "Restarting",
        }
    }

    /// The state as the terminal header shows it.
    pub fn label(&self) -> (s: &'static str)
        ensures
            s@ == state_label(*self),
    {
        match self {
            ProcessState::Pending => "pending",
            ProcessState::Running => "running",
            ProcessState::Stopped => "stopped",
            ProcessState::Crashed => "crashed",
            ProcessState::Exited => "exited",
            ProcessState::Restarting => "restarting",
        }
    }

    /// The sidebar's indicator for the state: a symbol and its colour
    /// (`0xRRGGBB`).
    pub fn indicator(&self) -> (r: (&'static str, u32))
        ensures
            (r.0@, r.1) == state_indicator(*self),
    {
        match self {
            ProcessState::Running => ("\u{25cf}", 0x00cc66),
            ProcessState::Pending => ("\u{25cb}", 0x666666),
            ProcessState::Stopped => ("\u{25a0}", 0x888888),
            ProcessState::Crashed => ("\u{25cf}", 0xff4444),
            ProcessState::Exited => ("\u{25cb}", 0x448844),
            ProcessState::Restarting => ("\u{25cc}", 0xffaa00),
        }
    }
}

/// Static info about a configured process
pub struct ProcessInfo {
    pub name: String,
    pub command: String,
    pub working_dir: Option<String>,
    pub section: String,
    pub auto_restart: bool,
    pub lazy: bool,
    pub interactive: bool,
    pub restart_delay_ms: Option<u64>,
    pub env: NamedMap<String>,
}

/// `info` describes the process that `config` configures.
pub open spec fn describes(info: ProcessInfo, config: ProcessConfig) -> bool {
    &&& info.name@ == config.name@
    &&& info.command@ == config.command@
    &&& opt_string_view(info.working_dir) == opt_string_view(config.working_dir)
    &&& info.section@ == config.section@
    &&& info.auto_restart == config.auto_restart
    &&& info.lazy == config.lazy
    &&& info.interactive == config.interactive
    &&& info.restart_delay_ms == config.restart_delay_ms
    &&& info.env.entries() == config.env.entries()
}

impl ProcessInfo {
    /// The static information of the process that `config` configures.
    pub fn from_config(config: &ProcessConfig) -> (info: ProcessInfo)
        ensures
            describes(info, *config),
    {
        ProcessInfo {
            name: config.name.clone(),
            command: config.command.clone(),
            working_dir: match &config.working_dir {
                Some(d) => Some(d.clone()),
                None => None,
            },
            section: config.section.clone(),
            auto_restart: config.auto_restart,
            lazy: config.lazy,
            interactive: config.interactive,
            restart_delay_ms: config.restart_delay_ms,
            env: config.env.copy(),
        }
    }
}

/// Events emitted by managed processes
#[derive(Debug, Clone)]
pub enum ProcessEvent {
    /// Terminal content changed (needs re-render)
    Render(String),
    /// Process exited with a code
    Exited { name: String, code: Option<i32> },
    /// Bell character received
    Bell(String),
    /// Title changed
    TitleChanged { name: String, title: String },
}

} // verus!
