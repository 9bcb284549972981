//! Which commands the user has trusted, per project.
//!
//! A command is identified by the SHA-256 hash of its command line, working
//! directory and environment.  Trusting every command of a project is scoped to
//! the hash of the project's configuration file: when the file changes, that
//! blanket trust no longer applies, while individually trusted commands stay
//! trusted.
use vstd::prelude::*;
use vstd::string::StringSliceAdditionalSpecFns;

use crate::collections::{NamedMap, StringSet};
use crate::config::command_identity::{command_identity, command_identity_spec, opt_view};
use crate::host::config_dir;
use crate::text::{
    hex_bytes, hex_bytes_spec, is_hex_char, join_path, path_join_spec, str_eq, to_owned_string,
};

verus! {

/// What the store records for one project.
pub struct ProjectTrustView {
    pub trusted_commands: Set<Seq<char>>,
    pub trust_all_config_hash: Option<Seq<char>>,
}

pub struct ProjectTrust {
    /// SHA-256 hashes of trusted command strings.
    pub trusted_commands: StringSet,
    /// Whether all commands are trusted, scoped to a specific config hash.
    /// When the config file changes, this is invalidated.
    pub trust_all_config_hash: Option<String>,
}

pub open spec fn opt_string_view(o: Option<String>) -> Option<Seq<char>> {
    match o {
        Some(s) => Some(s@),
        None => None,
    }
}

impl View for ProjectTrust {
    type V = ProjectTrustView;

    open spec fn view(&self) -> ProjectTrustView {
        ProjectTrustView {
            trusted_commands: self.trusted_commands@,
            trust_all_config_hash: opt_string_view(self.trust_all_config_hash),
        }
    }
}

pub open spec fn empty_project_trust() -> ProjectTrustView {
    ProjectTrustView { trusted_commands: Set::empty(), trust_all_config_hash: None }
}

impl Default for ProjectTrust {
    fn default() -> (r: Self)
        ensures
            r@ == empty_project_trust(),
    {
        ProjectTrust { trusted_commands: StringSet::new(), trust_all_config_hash: None }
    }
}

/// Tracks which commands have been trusted per-project.
pub struct TrustStore {
    /// Map of project path to trusted command set.
    pub projects: NamedMap<ProjectTrust>,
}

pub type TrustView = Map<Seq<char>, ProjectTrustView>;

impl View for TrustStore {
    type V = TrustView;

    open spec fn view(&self) -> TrustView {
        self.projects@.map_values(|pt: ProjectTrust| pt@)
    }
}

impl Default for TrustStore {
    fn default() -> (r: Self)
        ensures
            r@ == TrustView::empty(),
    {
        let r = TrustStore { projects: NamedMap::new() };
        proof {
            assert(r@ =~= TrustView::empty());
        }
        r
    }
}

/// The record of `project`, or an empty one.
pub open spec fn project_trust(t: TrustView, project: Seq<char>) -> ProjectTrustView {
    if t.contains_key(project) {
        t[project]
    } else {
        empty_project_trust()
    }
}

/// Whether a command is trusted: either the project trusts all commands of the
/// configuration with hash `config_hash`, or it trusts this command.
pub open spec fn is_trusted_spec(
    t: TrustView,
    project: Seq<char>,
    command_hash: Seq<char>,
    config_hash: Seq<char>,
) -> bool {
    t.contains_key(project) && (t[project].trust_all_config_hash == Some(config_hash)
        || t[project].trusted_commands.contains(command_hash))
}

pub open spec fn trust_command_spec(t: TrustView, project: Seq<char>, command_hash: Seq<char>) -> TrustView {
    let pt = project_trust(t, project);
    t.insert(
        project,
        ProjectTrustView {
            trusted_commands: pt.trusted_commands.insert(command_hash),
            trust_all_config_hash: pt.trust_all_config_hash,
        },
    )
}

pub open spec fn trust_all_spec(t: TrustView, project: Seq<char>, config_hash: Seq<char>) -> TrustView {
    let pt = project_trust(t, project);
    t.insert(
        project,
        ProjectTrustView {
            trusted_commands: pt.trusted_commands,
            trust_all_config_hash: Some(config_hash),
        },
    )
}

impl TrustStore {
    /// Default path: `~/.config/herd/trust.toml` (under the user's
    /// configuration directory; `~/.config` when there is none)
    pub fn default_path() -> (p: String)
        ensures
            exists|base: Seq<char>|
                p@ == path_join_spec(path_join_spec(base, "herd"@), "trust.toml"@),
    {
        let base = match config_dir() {
            Some(d) => d,
            None => to_owned_string("~/.config"),
        };
        let dir = join_path(base.as_str(), "herd");
        join_path(dir.as_str(), "trust.toml")
    }
    /// Check if a command is trusted for a given project.
    ///
    /// `config_hash` is the SHA-256 of the current config file content.
    /// If `trust_all` was set for a different config hash, it is invalidated.
    pub fn is_trusted(&self, project_path: &str, command_hash: &str, config_hash: &str) -> (r: bool)
        ensures
            r == is_trusted_spec(self@, project_path@, command_hash@, config_hash@),
    {
        match self.projects.get(project_path) {
            Some(pt) => {
                let trust_all_valid = match &pt.trust_all_config_hash {
                    Some(h) => str_eq(h.as_str(), config_hash),
                    None => false,
                };
                trust_all_valid || pt.trusted_commands.contains(command_hash)
            },
            None => false,
        }
    }

    /// Takes the record of `project_path` out of the store for an update,
    /// leaving an empty record in its place; returns its position too.
    fn take_project(&mut self, project_path: &str) -> (r: (usize, ProjectTrust))
        ensures
            r.0 < final(self).projects.entries().len(),
            final(self).projects.entries()[r.0 as int].0@ == project_path@,
            r.1@ == project_trust(old(self)@, project_path@),
            final(self).projects@.dom() == old(self).projects@.dom().insert(project_path@),
            forall|k: Seq<char>|
                k != project_path@ && #[trigger] old(self).projects@.contains_key(k)
                    ==> final(self).projects@[k] == old(self).projects@[k],
    {
        match self.projects.index_of(project_path) {
            Some(i) => {
                let pt = self.projects.replace_at(i, ProjectTrust::default());
                (i, pt)
            },
            None => {
                self.projects.insert(to_owned_string(project_path), ProjectTrust::default());
                let i = self.projects.index_of(project_path);
                match i {
                    Some(i) => (i, ProjectTrust::default()),
                    None => {
                        proof {
                            assert(false);
                        }
                        (0, ProjectTrust::default())
                    },
                }
            },
        }
    }

    pub fn trust_command(&mut self, project_path: &str, command_hash: String)
        ensures
            final(self)@ == trust_command_spec(old(self)@, project_path@, command_hash@),
    {
        let (i, mut project) = self.take_project(project_path);
        project.trusted_commands.insert(command_hash);
        self.projects.replace_at(i, project);
        proof {
            assert(final(self)@ =~= trust_command_spec(old(self)@, project_path@, command_hash@));
        }
    }

    /// Trust all commands for a project, scoped to the current config file hash.
    /// If the config file changes, this trust is automatically invalidated.
    pub fn trust_all(&mut self, project_path: &str, config_hash: String)
        ensures
            final(self)@ == trust_all_spec(old(self)@, project_path@, config_hash@),
    {
        let (i, mut project) = self.take_project(project_path);
        project.trust_all_config_hash = Some(config_hash);
        self.projects.replace_at(i, project);
        proof {
            assert(final(self)@ =~= trust_all_spec(old(self)@, project_path@, config_hash@));
        }
    }
}

/// SHA-256 digest of some bytes.
pub uninterp spec fn sha256_spec(data: Seq<u8>) -> Seq<u8>;

/// `sha2::Sha256::digest`: the SHA-256 digest of `data`, 32 bytes long.
#[verifier::external_body]
fn sha256(data: &[u8]) -> (d: Vec<u8>)
    ensures
        d@ == sha256_spec(data@),
        d@.len() == 32,
{
    <sha2::Sha256 as sha2::Digest>::digest(data).to_vec()
}

/// Lower-case hexadecimal SHA-256 of the UTF-8 bytes of `s`.
pub open spec fn sha256_hex_spec(s: Seq<char>) -> Seq<char> {
    hex_bytes_spec(sha256_spec(vstd::utf8::encode_utf8(s)))
}

fn sha256_hex(s: &str) -> (r: String)
    ensures
        r@ == sha256_hex_spec(s@),
        r@.len() == 64,
        forall|k: int| 0 <= k < r@.len() ==> is_hex_char(#[trigger] r@[k]),
{
    let digest = sha256(s.as_bytes());
    hex_bytes(digest.as_slice())
}

/// Compute SHA-256 hash of a command with its context for trust verification.
pub fn hash_command(command: &str, working_dir: Option<&str>, env: &NamedMap<String>) -> (r: String)
    ensures
        r@ == sha256_hex_spec(command_identity_spec(command@, opt_view(working_dir), env@)),
        r@.len() == 64,
        forall|k: int| 0 <= k < r@.len() ==> is_hex_char(#[trigger] r@[k]),
{
    let input = command_identity(command, working_dir, env);
    sha256_hex(input.as_str())
}

/// Compute SHA-256 hash of a config file's content.
pub fn hash_config_content(content: &str) -> (r: String)
    ensures
        r@ == sha256_hex_spec(content@),
        r@.len() == 64,
        forall|k: int| 0 <= k < r@.len() ==> is_hex_char(#[trigger] r@[k]),
{
    sha256_hex(content)
}


// ---------------------------------------------------------------------------
// Laws
// ---------------------------------------------------------------------------

/// An empty store trusts nothing.
pub proof fn law_empty_store_trusts_nothing(p: Seq<char>, h: Seq<char>, c: Seq<char>)
    ensures
        !is_trusted_spec(TrustView::empty(), p, h, c),
{
}

/// A command is trusted once it has been trusted, whatever the config hash.
pub proof fn law_trusted_after_trust_command(t: TrustView, p: Seq<char>, h: Seq<char>, c: Seq<char>)
    ensures
        is_trusted_spec(trust_command_spec(t, p, h), p, h, c),
{
}

/// Trusting all commands trusts every command while the config hash matches.
pub proof fn law_trust_all_applies_to_its_config(
    t: TrustView,
    p: Seq<char>,
    h: Seq<char>,
    c: Seq<char>,
)
    ensures
        is_trusted_spec(trust_all_spec(t, p, c), p, h, c),
{
}

/// When the config hash changes, blanket trust no longer applies: only
/// individually trusted commands stay trusted.
pub proof fn law_trust_all_invalidated_on_config_change(
    t: TrustView,
    p: Seq<char>,
    h: Seq<char>,
    c: Seq<char>,
    c2: Seq<char>,
)
    requires
        c2 != c,
    ensures
        is_trusted_spec(trust_all_spec(t, p, c), p, h, c2) == project_trust(
            t,
            p,
        ).trusted_commands.contains(h),
{
}

/// Trust is per project: trusting in one project changes nothing for another.
pub proof fn law_trust_is_per_project(
    t: TrustView,
    p: Seq<char>,
    q: Seq<char>,
    x: Seq<char>,
    h: Seq<char>,
    c: Seq<char>,
)
    requires
        q != p,
    ensures
        is_trusted_spec(trust_command_spec(t, p, x), q, h, c) == is_trusted_spec(t, q, h, c),
        is_trusted_spec(trust_all_spec(t, p, x), q, h, c) == is_trusted_spec(t, q, h, c),
{
}

/// Trusting a command never withdraws trust.
pub proof fn law_trust_command_only_adds_trust(
    t: TrustView,
    p: Seq<char>,
    x: Seq<char>,
    q: Seq<char>,
    h: Seq<char>,
    c: Seq<char>,
)
    requires
        is_trusted_spec(t, q, h, c),
    ensures
        is_trusted_spec(trust_command_spec(t, p, x), q, h, c),
{
}

/// Trusting the same command twice is the same as trusting it once: the store
/// keeps a set of hashes.
pub proof fn law_trust_command_idempotent(t: TrustView, p: Seq<char>, h: Seq<char>)
    ensures
        trust_command_spec(trust_command_spec(t, p, h), p, h) == trust_command_spec(t, p, h),
{
    let once = trust_command_spec(t, p, h);
    assert(project_trust(once, p).trusted_commands.insert(h) =~= project_trust(
        once,
        p,
    ).trusted_commands);
    assert(trust_command_spec(once, p, h) =~= once);
}

/// The command hash depends on the environment's contents only, not on the
/// order in which its variables were inserted.
pub proof fn law_command_hash_ignores_env_order(
    command: Seq<char>,
    working_dir: Option<Seq<char>>,
    env1: NamedMap<String>,
    env2: NamedMap<String>,
)
    requires
        env1@ == env2@,
    ensures
        sha256_hex_spec(command_identity_spec(command, working_dir, env1@)) == sha256_hex_spec(
            command_identity_spec(command, working_dir, env2@),
        ),
{
}

} // verus!
