//! The sections of a project configuration file and their defaults.
use vstd::prelude::*;

use crate::collections::NamedMap;
use crate::config::env_resolver::{resolve_spec, resolve_with_env};
use crate::text::to_owned_string;

verus! {

/// The `[project]` section.
pub struct ProjectConfig {
    pub name: String,
}

impl Default for ProjectConfig {
    fn default() -> (r: Self)
        ensures
            r.name@ == Seq::<char>::empty(),
    {
        ProjectConfig { name: String::new() }
    }
}

/// One `[[process]]` entry.
pub struct ProcessConfig {
    pub name: String,
    pub command: String,
    pub working_dir: Option<String>,
    pub auto_restart: bool,
    pub section: String,
    pub lazy: bool,
    pub interactive: bool,
    pub restart_delay_ms: Option<u64>,
    pub watch: Option<WatchConfig>,
    pub env: NamedMap<String>,
}

/// Files whose changes restart a process.
pub struct WatchConfig {
    pub paths: Vec<String>,
    pub ignore: Vec<String>,
}

impl Default for WatchConfig {
    fn default() -> (r: Self)
        ensures
            r.paths@.len() == 0,
            r.ignore@.len() == 0,
    {
        WatchConfig { paths: Vec::new(), ignore: Vec::new() }
    }
}

/// The `[ai]` section.
pub struct AiConfig {
    pub mcp_enabled: bool,
    pub mcp_transport: String,
    pub providers: NamedMap<AiProviderConfig>,
}

impl Default for AiConfig {
    /// An absent `[ai]` section: everything off, empty.
    fn default() -> (r: Self)
        ensures
            !r.mcp_enabled,
            r.mcp_transport@ == Seq::<char>::empty(),
            r.providers@ == Map::<Seq<char>, AiProviderConfig>::empty(),
    {
        AiConfig { mcp_enabled: false, mcp_transport: String::new(), providers: NamedMap::new() }
    }
}

/// One `[ai.providers.<name>]` entry.
pub struct AiProviderConfig {
    pub api_key: String,
    pub model: Option<String>,
}

/// Section of a process that does not name one.
pub fn default_section() -> (s: String)
    ensures
        s@ == "services"@,
{
    to_owned_string("services")
}

/// Transport of the MCP server when `[ai]` does not name one.
pub fn default_mcp_transport() -> (s: String)
    ensures
        s@ == "stdio"@,
{
    to_owned_string("stdio")
}

pub fn default_theme() -> (s: String)
    ensures
        s@ == "dark"@,
{
    to_owned_string("dark")
}

pub fn default_font_family() -> (s: String)
    ensures
        s@ == "monospace"@,
{
    to_owned_string("monospace")
}

pub fn default_sidebar_width() -> (w: u32)
    ensures
        w == 280,
{
    280
}

/// `m` after resolving variable references in every value.
pub open spec fn values_resolved(
    before: Map<Seq<char>, String>,
    after: Map<Seq<char>, String>,
    env: Map<Seq<char>, String>,
) -> bool {
    &&& after.dom() == before.dom()
    &&& forall|k: Seq<char>| #[trigger]
        after.contains_key(k) ==> after[k]@ == resolve_spec(before[k]@, env)
}

/// Resolves the variable references in every value of `m`.
fn resolve_values(m: &mut NamedMap<String>, env: &NamedMap<String>)
    ensures
        values_resolved(old(m)@, final(m)@, env@),
{
    proof {
        use_type_invariant(&*m);
        m.lemma_view();
    }
    let ghost orig = m.entries();
    let n = m.len();
    let mut i: usize = 0;
    while i < n
        invariant
            n == orig.len(),
            i <= n,
            m.entries().len() == n,
            forall|j: int| 0 <= j < n ==> (#[trigger] m.entries()[j]).0 == orig[j].0,
            forall|j: int| 0 <= j < i ==> (#[trigger] m.entries()[j]).1@ == resolve_spec(orig[j].1@, env@),
            forall|j: int| i <= j < n ==> (#[trigger] m.entries()[j]).1 == orig[j].1,
        decreases n - i,
    {
        let resolved = resolve_with_env(m.value_at(i).as_str(), env);
        m.replace_at(i, resolved);
        i = i + 1;
    }
    proof {
        use_type_invariant(&*m);
        m.lemma_view();
        assert forall|k: Seq<char>| #[trigger] m@.contains_key(k) <==> old(m)@.contains_key(k) by {
            if m@.contains_key(k) {
                let j = choose|j: int| 0 <= j < m.entries().len() && #[trigger] m.entries()[j].0@ == k;
                assert(orig[j].0@ == k);
            }
            if old(m)@.contains_key(k) {
                let j = choose|j: int| 0 <= j < orig.len() && #[trigger] orig[j].0@ == k;
                assert(m.entries()[j].0@ == k);
            }
        }
        assert forall|k: Seq<char>| #[trigger] m@.contains_key(k) implies m@[k]@ == resolve_spec(
            old(m)@[k]@,
            env@,
        ) by {
            let j = choose|j: int| 0 <= j < m.entries().len() && #[trigger] m.entries()[j].0@ == k;
            assert(m@.contains_key(m.entries()[j].0@));
            assert(orig[j].0@ == k);
            assert(old(m)@.contains_key(orig[j].0@));
        }
        assert(m@.dom() =~= old(m)@.dom());
    }
}

impl ProcessConfig {
    /// Resolves environment variable references in the command and in the
    /// values of the process environment.
    pub fn resolve_env(&mut self, env: &NamedMap<String>)
        ensures
            final(self).command@ == resolve_spec(old(self).command@, env@),
            values_resolved(old(self).env@, final(self).env@, env@),
            final(self).name == old(self).name,
            final(self).working_dir == old(self).working_dir,
            final(self).auto_restart == old(self).auto_restart,
            final(self).section == old(self).section,
            final(self).lazy == old(self).lazy,
            final(self).interactive == old(self).interactive,
            final(self).restart_delay_ms == old(self).restart_delay_ms,
            final(self).watch == old(self).watch,
    {
        self.command = resolve_with_env(self.command.as_str(), env);
        resolve_values(&mut self.env, env);
    }
}

impl AiConfig {
    /// Resolves environment variable references in the providers' API keys.
    pub fn resolve_env(&mut self, env: &NamedMap<String>)
        ensures
            final(self).mcp_enabled == old(self).mcp_enabled,
            final(self).mcp_transport == old(self).mcp_transport,
            final(self).providers@.dom() == old(self).providers@.dom(),
            forall|k: Seq<char>| #[trigger]
                final(self).providers@.contains_key(k) ==> final(self).providers@[k].api_key@
                    == resolve_spec(old(self).providers@[k].api_key@, env@)
                    && final(self).providers@[k].model == old(self).providers@[k].model,
    {
        proof {
            use_type_invariant(&self.providers);
            self.providers.lemma_view();
        }
        let ghost orig = self.providers.entries();
        let n = self.providers.len();
        let mut i: usize = 0;
        while i < n
            invariant
                n == orig.len(),
                i <= n,
                self.providers.entries().len() == n,
                forall|j: int| 0 <= j < n ==> (#[trigger] self.providers.entries()[j]).0 == orig[j].0,
                forall|j: int|
                    0 <= j < i ==> (#[trigger] self.providers.entries()[j]).1.api_key@ == resolve_spec(
                        orig[j].1.api_key@,
                        env@,
                    ) && self.providers.entries()[j].1.model == orig[j].1.model,
                forall|j: int| i <= j < n ==> (#[trigger] self.providers.entries()[j]).1 == orig[j].1,
                self.mcp_enabled == old(self).mcp_enabled,
                self.mcp_transport == old(self).mcp_transport,
            decreases n - i,
        {
            let vacant = AiProviderConfig { api_key: String::new(), model: None };
            let mut provider = self.providers.replace_at(i, vacant);
            provider.api_key = resolve_with_env(provider.api_key.as_str(), env);
            self.providers.replace_at(i, provider);
            i = i + 1;
        }
        proof {
            use_type_invariant(&self.providers);
            self.providers.lemma_view();
            let m = self.providers@;
            let om = old(self).providers@;
            let es = self.providers.entries();
            assert forall|k: Seq<char>| #[trigger] m.contains_key(k) <==> om.contains_key(k) by {
                if m.contains_key(k) {
                    let j = choose|j: int| 0 <= j < es.len() && #[trigger] es[j].0@ == k;
                    assert(orig[j].0@ == k);
                }
                if om.contains_key(k) {
                    let j = choose|j: int| 0 <= j < orig.len() && #[trigger] orig[j].0@ == k;
                    assert(es[j].0@ == k);
                }
            }
            assert forall|k: Seq<char>| #[trigger] m.contains_key(k) implies m[k].api_key@
                == resolve_spec(om[k].api_key@, env@) && m[k].model == om[k].model by {
                let j = choose|j: int| 0 <= j < es.len() && #[trigger] es[j].0@ == k;
                assert(m.contains_key(es[j].0@));
                assert(orig[j].0@ == k);
                assert(om.contains_key(orig[j].0@));
            }
            assert(m.dom() =~= om.dom());
        }
    }
}

/// `after` is `before` with the variable references in its command and
/// environment values resolved against `env`.
pub open spec fn process_resolved(before: ProcessConfig, after: ProcessConfig, env: Map<Seq<char>, String>) -> bool {
    &&& after.command@ == resolve_spec(before.command@, env)
    &&& values_resolved(before.env@, after.env@, env)
    &&& after.name == before.name
    &&& after.working_dir == before.working_dir
    &&& after.auto_restart == before.auto_restart
    &&& after.section == before.section
    &&& after.lazy == before.lazy
    &&& after.interactive == before.interactive
    &&& after.restart_delay_ms == before.restart_delay_ms
    &&& after.watch == before.watch
}

/// Resolves the variable references of every process, keeping their order.
pub fn resolve_processes(processes: &mut Vec<ProcessConfig>, env: &NamedMap<String>)
    ensures
        final(processes)@.len() == old(processes)@.len(),
        forall|i: int|
            0 <= i < old(processes)@.len() ==> process_resolved(
                #[trigger] old(processes)@[i],
                final(processes)@[i],
                env@,
            ),
{
    let mut rest: Vec<ProcessConfig> = Vec::new();
    std::mem::swap(&mut rest, processes);
    let ghost orig = rest@;
    let mut done: Vec<ProcessConfig> = Vec::new();
    while rest.len() > 0
        invariant
            done@.len() + rest@.len() == orig.len(),
            rest@ == orig.skip(done@.len() as int),
            forall|i: int| 0 <= i < done@.len() ==> process_resolved(#[trigger] orig[i], done@[i], env@),
        decreases rest@.len(),
    {
        let mut p = rest.remove(0);
        proof {
            assert(p == orig[done@.len() as int]);
            assert(rest@ == orig.skip(done@.len() as int + 1));
        }
        p.resolve_env(env);
        done.push(p);
    }
    *processes = done;
}

} // verus!
