//! Which commands the user has trusted, per project, with a project-wide
//! "trust everything" switch and a light-weight command fingerprint.
use vstd::prelude::*;
use vstd::string::StringSliceAdditionalSpecFns;
use vstd::utf8::encode_utf8;

use crate::collections::NamedMap;
use crate::config::command_identity::{command_identity, command_identity_spec, opt_view};
use crate::host::config_dir;
use crate::text::{hex_spec, join_path, path_join_spec, push_hex_u64, str_eq, to_owned_string};

verus! {

/// What the store records for one project.
pub struct ProjectTrustView {
    pub trusted_commands: Seq<Seq<char>>,
    pub trust_all: bool,
}

pub struct ProjectTrust {
    /// Hashes of trusted command strings, without repetitions.
    pub trusted_commands: Vec<String>,
    /// Whether all commands in this project are trusted.
    pub trust_all: bool,
}

impl View for ProjectTrust {
    type V = ProjectTrustView;

    open spec fn view(&self) -> ProjectTrustView {
        ProjectTrustView {
            trusted_commands: self.trusted_commands@.map_values(|s: String| s@),
            trust_all: self.trust_all,
        }
    }
}

pub open spec fn empty_project_trust() -> ProjectTrustView {
    ProjectTrustView { trusted_commands: Seq::empty(), trust_all: false }
}

impl Default for ProjectTrust {
    fn default() -> (r: Self)
        ensures
            r@ == empty_project_trust(),
    {
        let r = ProjectTrust { trusted_commands: Vec::new(), trust_all: false };
        proof {
            assert(r@.trusted_commands =~= Seq::<Seq<char>>::empty());
        }
        r
    }
}

/// Tracks which commands have been trusted per project.
pub struct TrustStore {
    /// Map of project path to its trust record.
    pub projects: NamedMap<ProjectTrust>,
}

pub type TrustView = Map<Seq<char>, ProjectTrustView>;

impl View for TrustStore {
    type V = TrustView;

    open spec fn view(&self) -> TrustView {
        self.projects@.map_values(|pt: ProjectTrust| pt@)
    }
}

impl Default for TrustStore {
    fn default() -> (r: Self)
        ensures
            r@ == TrustView::empty(),
    {
        let r = TrustStore { projects: NamedMap::new() };
        proof {
            assert(r@ =~= TrustView::empty());
        }
        r
    }
}

pub open spec fn project_trust(t: TrustView, project: Seq<char>) -> ProjectTrustView {
    if t.contains_key(project) {
        t[project]
    } else {
        empty_project_trust()
    }
}

pub open spec fn is_trusted_spec(t: TrustView, project: Seq<char>, command_hash: Seq<char>) -> bool {
    t.contains_key(project) && (t[project].trust_all || t[project].trusted_commands.contains(
        command_hash,
    ))
}

/// The list with `h` appended, unless it is already there.
pub open spec fn add_once(s: Seq<Seq<char>>, h: Seq<char>) -> Seq<Seq<char>> {
    if s.contains(h) {
        s
    } else {
        s.push(h)
    }
}

pub open spec fn trust_command_spec(t: TrustView, project: Seq<char>, command_hash: Seq<char>) -> TrustView {
    let pt = project_trust(t, project);
    t.insert(
        project,
        ProjectTrustView {
            trusted_commands: add_once(pt.trusted_commands, command_hash),
            trust_all: pt.trust_all,
        },
    )
}

pub open spec fn trust_all_spec(t: TrustView, project: Seq<char>) -> TrustView {
    let pt = project_trust(t, project);
    t.insert(project, ProjectTrustView { trusted_commands: pt.trusted_commands, trust_all: true })
}

fn vec_contains(v: &Vec<String>, s: &str) -> (r: bool)
    ensures
        r == v@.map_values(|x: String| x@).contains(s@),
{
    let ghost views = v@.map_values(|x: String| x@);
    let mut i: usize = 0;
    while i < v.len()
        invariant
            i <= v@.len(),
            views == v@.map_values(|x: String| x@),
            forall|j: int| 0 <= j < i ==> views[j] != s@,
        decreases v@.len() - i,
    {
        if str_eq(v[i].as_str(), s) {
            proof {
                assert(views[i as int] == s@);
            }
            return true;
        }
        i = i + 1;
    }
    false
}

impl TrustStore {
    /// Default path: `~/.config/soloterm/trust.toml` (under the user's
    /// configuration directory; `~/.config` when there is none)
    pub fn default_path() -> (p: String)
        ensures
            exists|base: Seq<char>|
                p@ == path_join_spec(path_join_spec(base, "soloterm"@), "trust.toml"@),
    {
        let base = match config_dir() {
            Some(d) => d,
            None => to_owned_string("~/.config"),
        };
        let dir = join_path(base.as_str(), "soloterm");
        join_path(dir.as_str(), "trust.toml")
    }
    pub fn is_trusted(&self, project_path: &str, command_hash: &str) -> (r: bool)
        ensures
            r == is_trusted_spec(self@, project_path@, command_hash@),
    {
        match self.projects.get(project_path) {
            Some(pt) => pt.trust_all || vec_contains(&pt.trusted_commands, command_hash),
            None => false,
        }
    }

    /// Takes the record of `project_path` out of the store for an update,
    /// leaving an empty record in its place; returns its position too.
    fn take_project(&mut self, project_path: &str) -> (r: (usize, ProjectTrust))
        ensures
            r.0 < final(self).projects.entries().len(),
            final(self).projects.entries()[r.0 as int].0@ == project_path@,
            r.1@ == project_trust(old(self)@, project_path@),
            final(self).projects@.dom() == old(self).projects@.dom().insert(project_path@),
            forall|k: Seq<char>|
                k != project_path@ && #[trigger] old(self).projects@.contains_key(k)
                    ==> final(self).projects@[k] == old(self).projects@[k],
    {
        match self.projects.index_of(project_path) {
            Some(i) => {
                let pt = self.projects.replace_at(i, ProjectTrust::default());
                (i, pt)
            },
            None => {
                self.projects.insert(to_owned_string(project_path), ProjectTrust::default());
                let i = self.projects.index_of(project_path);
                match i {
                    Some(i) => (i, ProjectTrust::default()),
                    None => {
                        proof {
                            assert(false);
                        }
                        (0, ProjectTrust::default())
                    },
                }
            },
        }
    }

    pub fn trust_command(&mut self, project_path: &str, command_hash: String)
        ensures
            final(self)@ == trust_command_spec(old(self)@, project_path@, command_hash@),
    {
        let (i, mut project) = self.take_project(project_path);
        if !vec_contains(&project.trusted_commands, command_hash.as_str()) {
            let ghost before = project.trusted_commands@;
            project.trusted_commands.push(command_hash);
            proof {
                assert(project.trusted_commands@.map_values(|x: String| x@) =~= before.map_values(
                    |x: String| x@,
                ).push(command_hash@));
            }
        }
        self.projects.replace_at(i, project);
        proof {
            assert(final(self)@ =~= trust_command_spec(old(self)@, project_path@, command_hash@));
        }
    }

    pub fn trust_all(&mut self, project_path: &str)
        ensures
            final(self)@ == trust_all_spec(old(self)@, project_path@),
    {
        let (i, mut project) = self.take_project(project_path);
        project.trust_all = true;
        self.projects.replace_at(i, project);
        proof {
            assert(final(self)@ =~= trust_all_spec(old(self)@, project_path@));
        }
    }
}

/// `h` rotated left by 5 bits.
pub open spec fn rotate_left_5(h: u64) -> u64 {
    (h << 5u64) | (h >> 59u64)
}

/// The fingerprint of `bytes`, continuing from `h`: for each byte, rotate the
/// hash left by 5 bits and mix the byte in with exclusive or.
pub open spec fn fxhash_from(h: u64, bytes: Seq<u8>) -> u64
    decreases bytes.len(),
{
    if bytes.len() == 0 {
        h
    } else {
        fxhash_from(rotate_left_5(h) ^ (bytes[0] as u64), bytes.drop_first())
    }
}

pub open spec fn fxhash_spec(s: Seq<char>) -> u64 {
    fxhash_from(0, encode_utf8(s))
}

pub fn fxhash(s: &str) -> (hash: u64)
    ensures
        hash == fxhash_spec(s@),
{
    let bytes = s.as_bytes();
    let mut hash: u64 = 0;
    let mut i: usize = 0;
    assert(bytes@.skip(0) == bytes@);
    while i < bytes.len()
        invariant
            i <= bytes@.len(),
            bytes@ == s.spec_bytes(),
            fxhash_from(hash, bytes@.skip(i as int)) == fxhash_spec(s@),
        decreases bytes@.len() - i,
    {
        proof {
            assert(bytes@.skip(i as int).drop_first() == bytes@.skip(i + 1));
        }
        hash = ((hash << 5u64) | (hash >> 59u64)) ^ (bytes[i] as u64);
        i = i + 1;
    }
    proof {
        assert(bytes@.skip(i as int).len() == 0);
    }
    hash
}

/// Compute a simple hash of a command string for trust comparison: the
/// lower-case hexadecimal fingerprint of the command's identifying text.
pub fn hash_command(command: &str, working_dir: Option<&str>, env: &NamedMap<String>) -> (r: String)
    ensures
        r@ == hex_spec(fxhash_spec(command_identity_spec(command@, opt_view(working_dir), env@)) as nat),
{
    let input = command_identity(command, working_dir, env);
    let mut r = String::new();
    push_hex_u64(&mut r, fxhash(input.as_str()));
    r
}

// ---------------------------------------------------------------------------
// Laws
// ---------------------------------------------------------------------------

/// A command is trusted once it has been trusted.
pub proof fn law_trusted_after_trust_command(t: TrustView, p: Seq<char>, h: Seq<char>)
    ensures
        is_trusted_spec(trust_command_spec(t, p, h), p, h),
{
    let s = project_trust(t, p).trusted_commands;
    if !s.contains(h) {
        assert(s.push(h)[s.len() as int] == h);
    }
}

/// Trusting all commands of a project trusts every command of that project.
pub proof fn law_trust_all_trusts_everything(t: TrustView, p: Seq<char>, h: Seq<char>)
    ensures
        is_trusted_spec(trust_all_spec(t, p), p, h),
{
}

/// Trust is per project: trusting in one project changes nothing for another.
pub proof fn law_trust_is_per_project(t: TrustView, p: Seq<char>, q: Seq<char>, x: Seq<char>, h: Seq<char>)
    requires
        q != p,
    ensures
        is_trusted_spec(trust_command_spec(t, p, x), q, h) == is_trusted_spec(t, q, h),
        is_trusted_spec(trust_all_spec(t, p), q, h) == is_trusted_spec(t, q, h),
{
}

/// The list of trusted hashes never holds a hash twice.
pub proof fn law_trusted_commands_stay_distinct(t: TrustView, p: Seq<char>, h: Seq<char>)
    requires
        project_trust(t, p).trusted_commands.no_duplicates(),
    ensures
        project_trust(trust_command_spec(t, p, h), p).trusted_commands.no_duplicates(),
{
    let s = project_trust(t, p).trusted_commands;
    if !s.contains(h) {
        let s2 = s.push(h);
        assert forall|i: int, j: int| 0 <= i < s2.len() && 0 <= j < s2.len() && i != j implies s2[i]
            != s2[j] by {
            if i == s.len() {
                assert(s2[j] == s[j]);
            } else if j == s.len() {
                assert(s2[i] == s[i]);
            } else {
                assert(s2[i] == s[i] && s2[j] == s[j]);
            }
        }
    }
}

/// Trusting the same command twice is the same as trusting it once.
pub proof fn law_trust_command_idempotent(t: TrustView, p: Seq<char>, h: Seq<char>)
    ensures
        trust_command_spec(trust_command_spec(t, p, h), p, h) == trust_command_spec(t, p, h),
{
    let s = project_trust(t, p).trusted_commands;
    let once = trust_command_spec(t, p, h);
    if !s.contains(h) {
        assert(s.push(h)[s.len() as int] == h);
    }
    assert(project_trust(once, p).trusted_commands.contains(h));
    assert(trust_command_spec(once, p, h) =~= once);
}

} // verus!
