# herd

The verified core of Herd, a desktop manager for a project's development
processes (servers, workers, agents), each running in its own terminal.

`src/` is the library, written in Verus and proved:

- `config` — the project configuration: its sections and defaults,
  `${VAR}` / `${VAR:-default}` references, where `herd.toml` is found,
  framework detection with suggested processes, and the store of trusted
  commands (SHA-256 command identities, project-wide trust tied to the hash
  of the configuration file).
- `runtime` — the supervisor's bookkeeping and decisions (what starts, what
  stops, crash detection, delayed restarts), orphan tracking through a PID
  file, terminal sizes, and the filter that turns file-system events into
  restarts.
- `terminal` — the sanitizer that strips dangerous escape sequences from
  process output, the colour palette, colour decisions for drawing a cell,
  and the bytes a key press sends.
- `mcp` — which reply each MCP request gets, the tools and resources the
  server lists, and the process snapshots it reports.
- `notify` — the desktop notifications about crashes and restarts.
- `events`, `sidebar`, `status` — the work each window event calls for and
  the state it leaves, the rows of the process list and the messages of the
  status bar.
- `soloterm` — the SoloTerm workspace's own policies: its sanitizer, trust
  store with a plain fingerprint, orphan cleanup, MCP replies and the
  location of local overrides.
- `collections`, `text`, `seqs`, `host` — string-keyed maps and sets, string
  and number helpers, facts about sequences, and the calls that observe the
  machine.

Public functions state in `ensures` what they return or change.  Where the
answer depends on the machine (what is on disk, which processes are alive,
whether a signal was delivered), the function that asks the machine states
what holds whatever the answer, and a verified function that takes the
answers as arguments (`markers_from`, `first_found`, `signal_targets`,
`Supervisor::reap`) states exactly what is done with them.  The `law_*` proof
functions state properties that relate several calls.

`app/` holds the window (iced), the terminals (alacritty_terminal), file I/O,
the file watchers (notify), desktop notifications (notify-rust) and the JSON
of the MCP server (serde_json).  `tests/` exercises the library on concrete
values.
