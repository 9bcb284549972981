//! Detection of a project's framework from the files in its directory, and
//! the processes suggested for each framework.
use vstd::prelude::*;

use crate::host::{path_exists, read_dir_names};
use crate::text::{chars_of, join_path};

verus! {

/// Detected framework/language for a project directory.
#[derive(Debug, Clone, PartialEq, Eq, Structural)]
pub enum Framework {
    Laravel,
    NodeJs,
    NextJs,
    Nuxt,
    Django,
    Flask,
    FastApi,
    Rails,
    Go,
    Rust,
    DotNet,
    Elixir,
    Spring,
    Svelte,
    Remix,
    Astro,
    Unknown,
}

/// The files found in a project directory that decide its framework.
pub struct ProjectMarkers {
    pub artisan: bool,
    /// `next.config.js`, `.mjs` or `.ts`
    pub next_config: bool,
    /// `nuxt.config.ts` or `.js`
    pub nuxt_config: bool,
    /// `svelte.config.js` or `.ts`
    pub svelte_config: bool,
    /// `remix.config.js` or `.ts`
    pub remix_config: bool,
    /// `astro.config.mjs` or `.ts`
    pub astro_config: bool,
    pub manage_py: bool,
    pub settings_py: bool,
    /// a `django` directory or a `wsgi.py` file
    pub django_layout: bool,
    pub gemfile: bool,
    pub config_ru: bool,
    pub mix_exs: bool,
    /// `pom.xml` or `build.gradle`
    pub java_build: bool,
    pub go_mod: bool,
    pub cargo_toml: bool,
    pub package_json: bool,
    /// an entry with extension `csproj` or `sln`
    pub dotnet_project: bool,
    /// `requirements.txt` or `pyproject.toml`
    pub python_project: bool,
}

/// The framework the markers point to, most specific first.
pub open spec fn classify_spec(m: ProjectMarkers) -> Framework {
    if m.artisan {
        Framework::Laravel
    } else if m.next_config {
        Framework::NextJs
    } else if m.nuxt_config {
        Framework::Nuxt
    } else if m.svelte_config {
        Framework::Svelte
    } else if m.remix_config {
        Framework::Remix
    } else if m.astro_config {
        Framework::Astro
    } else if m.manage_py && (m.settings_py || m.django_layout) {
        Framework::Django
    } else if m.gemfile && m.config_ru {
        Framework::Rails
    } else if m.mix_exs {
        Framework::Elixir
    } else if m.java_build {
        Framework::Spring
    } else if m.go_mod {
        Framework::Go
    } else if m.cargo_toml {
        Framework::Rust
    } else if m.package_json {
        Framework::NodeJs
    } else if m.dotnet_project {
        Framework::DotNet
    } else if m.python_project {
        // Generic Python: could be Flask or FastAPI; Flask is assumed
        Framework::Flask
    } else {
        Framework::Unknown
    }
}

/// Classify a project from the markers found in its directory.
pub fn classify_markers(m: &ProjectMarkers) -> (f: Framework)
    ensures
        f == classify_spec(*m),
{
    if m.artisan {
        Framework::Laravel
    } else if m.next_config {
        Framework::NextJs
    } else if m.nuxt_config {
        Framework::Nuxt
    } else if m.svelte_config {
        Framework::Svelte
    } else if m.remix_config {
        Framework::Remix
    } else if m.astro_config {
        Framework::Astro
    } else if m.manage_py && (m.settings_py || m.django_layout) {
        Framework::Django
    } else if m.gemfile && m.config_ru {
        Framework::Rails
    } else if m.mix_exs {
        Framework::Elixir
    } else if m.java_build {
        Framework::Spring
    } else if m.go_mod {
        Framework::Go
    } else if m.cargo_toml {
        Framework::Rust
    } else if m.package_json {
        Framework::NodeJs
    } else if m.dotnet_project {
        Framework::DotNet
    } else if m.python_project {
        Framework::Flask
    } else {
        Framework::Unknown
    }
}

/// The file names looked up in a project directory, in the order in which
/// the rules of `classify_spec` consult them.
pub open spec fn probed_names_spec() -> Seq<Seq<char>> {
    seq![
        "artisan"@,
        "next.config.js"@,
        "next.config.mjs"@,
        "next.config.ts"@,
        "nuxt.config.ts"@,
        "nuxt.config.js"@,
        "svelte.config.js"@,
        "svelte.config.ts"@,
        "remix.config.js"@,
        "remix.config.ts"@,
        "astro.config.mjs"@,
        "astro.config.ts"@,
        "manage.py"@,
        "settings.py"@,
        "django"@,
        "wsgi.py"@,
        "Gemfile"@,
        "config.ru"@,
        "mix.exs"@,
        "pom.xml"@,
        "build.gradle"@,
        "go.mod"@,
        "Cargo.toml"@,
        "package.json"@,
        "requirements.txt"@,
        "pyproject.toml"@,
    ]
}

/// How many file names are looked up.
pub const PROBED_COUNT: usize = 26;

pub open spec fn str_views(s: Seq<&str>) -> Seq<Seq<char>> {
    s.map_values(|t: &str| t@)
}

/// The file names looked up in a project directory.
pub fn probed_names() -> (names: Vec<&'static str>)
    ensures
        str_views(names@) == probed_names_spec(),
        names@.len() == PROBED_COUNT,
{
    let names = vec![
        "artisan",
        "next.config.js",
        "next.config.mjs",
        "next.config.ts",
        "nuxt.config.ts",
        "nuxt.config.js",
        "svelte.config.js",
        "svelte.config.ts",
        "remix.config.js",
        "remix.config.ts",
        "astro.config.mjs",
        "astro.config.ts",
        "manage.py",
        "settings.py",
        "django",
        "wsgi.py",
        "Gemfile",
        "config.ru",
        "mix.exs",
        "pom.xml",
        "build.gradle",
        "go.mod",
        "Cargo.toml",
        "package.json",
        "requirements.txt",
        "pyproject.toml",
    ];
    proof {
        assert(str_views(names@) =~= probed_names_spec());
    }
    names
}

/// The markers of a project, from `found[i]`, whether the `i`-th name of
/// `probed_names_spec` exists in its directory, and `dotnet_entry`, whether
/// the directory lists a .NET project or solution file.
pub open spec fn markers_spec(found: Seq<bool>, dotnet_entry: bool) -> ProjectMarkers {
    ProjectMarkers {
        artisan: found[0],
        next_config: found[1] || found[2] || found[3],
        nuxt_config: found[4] || found[5],
        svelte_config: found[6] || found[7],
        remix_config: found[8] || found[9],
        astro_config: found[10] || found[11],
        manage_py: found[12],
        settings_py: found[13],
        django_layout: found[14] || found[15],
        gemfile: found[16],
        config_ru: found[17],
        mix_exs: found[18],
        java_build: found[19] || found[20],
        go_mod: found[21],
        cargo_toml: found[22],
        package_json: found[23],
        dotnet_project: dotnet_entry,
        python_project: found[24] || found[25],
    }
}

/// The markers of a project from what was found in its directory: `found[i]`
/// tells whether the `i`-th of `probed_names()` exists there, and
/// `dotnet_entry` whether the directory lists a .NET project or solution file.
pub fn markers_from(found: &Vec<bool>, dotnet_entry: bool) -> (m: ProjectMarkers)
    requires
        found@.len() == PROBED_COUNT,
    ensures
        m == markers_spec(found@, dotnet_entry),
{
    ProjectMarkers {
        artisan: found[0],
        next_config: found[1] || found[2] || found[3],
        nuxt_config: found[4] || found[5],
        svelte_config: found[6] || found[7],
        remix_config: found[8] || found[9],
        astro_config: found[10] || found[11],
        manage_py: found[12],
        settings_py: found[13],
        django_layout: found[14] || found[15],
        gemfile: found[16],
        config_ru: found[17],
        mix_exs: found[18],
        java_build: found[19] || found[20],
        go_mod: found[21],
        cargo_toml: found[22],
        package_json: found[23],
        dotnet_project: dotnet_entry,
        python_project: found[24] || found[25],
    }
}

/// A project whose directory holds `next.config.js` and no `artisan` is a
/// Next.js project, whatever else it holds (`package.json` among it).
pub proof fn law_next_config_wins(found: Seq<bool>, dotnet_entry: bool)
    requires
        found.len() == PROBED_COUNT,
        found[1],
        !found[0],
    ensures
        probed_names_spec()[0] == "artisan"@,
        probed_names_spec()[1] == "next.config.js"@,
        probed_names_spec()[23] == "package.json"@,
        classify_spec(markers_spec(found, dotnet_entry)) == Framework::NextJs,
{
}

/// The framework that the `i`-th probed file marks on its own, by the file
/// names of `probed_names_spec()` (checked by `law_each_marker_file_decides`):
/// `artisan` Laravel; `next.config.*` Next.js; `nuxt.config.*` Nuxt;
/// `svelte.config.*` Svelte; `remix.config.*` Remix; `astro.config.*` Astro;
/// `mix.exs` Elixir; `pom.xml`, `build.gradle` Spring; `go.mod` Go;
/// `Cargo.toml` Rust; `package.json` Node.js; `requirements.txt`,
/// `pyproject.toml` Flask.  The Django and Rails files decide only together.
pub open spec fn marker_framework_at(i: int) -> Option<Framework> {
    if i == 0 {
        Some(Framework::Laravel)
    } else if 1 <= i <= 3 {
        Some(Framework::NextJs)
    } else if 4 <= i <= 5 {
        Some(Framework::Nuxt)
    } else if 6 <= i <= 7 {
        Some(Framework::Svelte)
    } else if 8 <= i <= 9 {
        Some(Framework::Remix)
    } else if 10 <= i <= 11 {
        Some(Framework::Astro)
    } else if i == 18 {
        Some(Framework::Elixir)
    } else if 19 <= i <= 20 {
        Some(Framework::Spring)
    } else if i == 21 {
        Some(Framework::Go)
    } else if i == 22 {
        Some(Framework::Rust)
    } else if i == 23 {
        Some(Framework::NodeJs)
    } else if 24 <= i <= 25 {
        Some(Framework::Flask)
    } else {
        None
    }
}

/// Each framework's own file decides the framework when no file listed before
/// it marks another one (for the Python files, when no .NET project is listed
/// either): for example `svelte.config.js` beside `package.json` is a Svelte
/// project.  The names are those of `probed_names_spec()`.
#[verifier::spinoff_prover]
pub proof fn law_each_marker_file_decides(found: Seq<bool>, dotnet_entry: bool, i: int)
    requires
        found.len() == PROBED_COUNT,
        0 <= i < PROBED_COUNT,
        marker_framework_at(i) is Some,
        found[i],
        forall|j: int| 0 <= j < i ==> !found[j] || marker_framework_at(j) == marker_framework_at(i),
        i >= 24 ==> !dotnet_entry,
    ensures
        classify_spec(markers_spec(found, dotnet_entry)) == marker_framework_at(i)->0,
        probed_names_spec()[6] == "svelte.config.js"@,
        probed_names_spec()[7] == "svelte.config.ts"@,
        probed_names_spec()[21] == "go.mod"@,
        probed_names_spec()[22] == "Cargo.toml"@,
{
    if i == 0 {
    } else if i == 1 {
        assert(!found[0] || marker_framework_at(0) == marker_framework_at(1));
    } else if i == 2 {
        assert(!found[0] || marker_framework_at(0) == marker_framework_at(2));
        assert(!found[1] || marker_framework_at(1) == marker_framework_at(2));
    } else if i == 3 {
        assert(!found[0] || marker_framework_at(0) == marker_framework_at(3));
        assert(!found[1] || marker_framework_at(1) == marker_framework_at(3));
        assert(!found[2] || marker_framework_at(2) == marker_framework_at(3));
    } else if i == 4 {
        assert(!found[0] || marker_framework_at(0) == marker_framework_at(4));
        assert(!found[1] || marker_framework_at(1) == marker_framework_at(4));
        assert(!found[2] || marker_framework_at(2) == marker_framework_at(4));
        assert(!found[3] || marker_framework_at(3) == marker_framework_at(4));
    } else if i == 5 {
        assert(!found[0] || marker_framework_at(0) == marker_framework_at(5));
        assert(!found[1] || marker_framework_at(1) == marker_framework_at(5));
        assert(!found[2] || marker_framework_at(2) == marker_framework_at(5));
        assert(!found[3] || marker_framework_at(3) == marker_framework_at(5));
        assert(!found[4] || marker_framework_at(4) == marker_framework_at(5));
    } else if i == 6 {
        assert(!found[0] || marker_framework_at(0) == marker_framework_at(6));
        assert(!found[1] || marker_framework_at(1) == marker_framework_at(6));
        assert(!found[2] || marker_framework_at(2) == marker_framework_at(6));
        assert(!found[3] || marker_framework_at(3) == marker_framework_at(6));
        assert(!found[4] || marker_framework_at(4) == marker_framework_at(6));
        assert(!found[5] || marker_framework_at(5) == marker_framework_at(6));
    } else if i == 7 {
        assert(!found[0] || marker_framework_at(0) == marker_framework_at(7));
        assert(!found[1] || marker_framework_at(1) == marker_framework_at(7));
        assert(!found[2] || marker_framework_at(2) == marker_framework_at(7));
        assert(!found[3] || marker_framework_at(3) == marker_framework_at(7));
        assert(!found[4] || marker_framework_at(4) == marker_framework_at(7));
        assert(!found[5] || marker_framework_at(5) == marker_framework_at(7));
        assert(!found[6] || marker_framework_at(6) == marker_framework_at(7));
    } else if i == 8 {
        assert(!found[0] || marker_framework_at(0) == marker_framework_at(8));
        assert(!found[1] || marker_framework_at(1) == marker_framework_at(8));
        assert(!found[2] || marker_framework_at(2) == marker_framework_at(8));
        assert(!found[3] || marker_framework_at(3) == marker_framework_at(8));
        assert(!found[4] || marker_framework_at(4) == marker_framework_at(8));
        assert(!found[5] || marker_framework_at(5) == marker_framework_at(8));
        assert(!found[6] || marker_framework_at(6) == marker_framework_at(8));
        assert(!found[7] || marker_framework_at(7) == marker_framework_at(8));
    } else if i == 9 {
        assert(!found[0] || marker_framework_at(0) == marker_framework_at(9));
        assert(!found[1] || marker_framework_at(1) == marker_framework_at(9));
        assert(!found[2] || marker_framework_at(2) == marker_framework_at(9));
        assert(!found[3] || marker_framework_at(3) == marker_framework_at(9));
        assert(!found[4] || marker_framework_at(4) == marker_framework_at(9));
        assert(!found[5] || marker_framework_at(5) == marker_framework_at(9));
        assert(!found[6] || marker_framework_at(6) == marker_framework_at(9));
        assert(!found[7] || marker_framework_at(7) == marker_framework_at(9));
        assert(!found[8] || marker_framework_at(8) == marker_framework_at(9));
    } else if i == 10 {
        assert(!found[0] || marker_framework_at(0) == marker_framework_at(10));
        assert(!found[1] || marker_framework_at(1) == marker_framework_at(10));
        assert(!found[2] || marker_framework_at(2) == marker_framework_at(10));
        assert(!found[3] || marker_framework_at(3) == marker_framework_at(10));
        assert(!found[4] || marker_framework_at(4) == marker_framework_at(10));
        assert(!found[5] || marker_framework_at(5) == marker_framework_at(10));
        assert(!found[6] || marker_framework_at(6) == marker_framework_at(10));
        assert(!found[7] || marker_framework_at(7) == marker_framework_at(10));
        assert(!found[8] || marker_framework_at(8) == marker_framework_at(10));
        assert(!found[9] || marker_framework_at(9) == marker_framework_at(10));
    } else if i == 11 {
        assert(!found[0] || marker_framework_at(0) == marker_framework_at(11));
        assert(!found[1] || marker_framework_at(1) == marker_framework_at(11));
        assert(!found[2] || marker_framework_at(2) == marker_framework_at(11));
        assert(!found[3] || marker_framework_at(3) == marker_framework_at(11));
        assert(!found[4] || marker_framework_at(4) == marker_framework_at(11));
        assert(!found[5] || marker_framework_at(5) == marker_framework_at(11));
        assert(!found[6] || marker_framework_at(6) == marker_framework_at(11));
        assert(!found[7] || marker_framework_at(7) == marker_framework_at(11));
        assert(!found[8] || marker_framework_at(8) == marker_framework_at(11));
        assert(!found[9] || marker_framework_at(9) == marker_framework_at(11));
        assert(!found[10] || marker_framework_at(10) == marker_framework_at(11));
    } else if i == 18 {
        assert(!found[0] || marker_framework_at(0) == marker_framework_at(18));
        assert(!found[1] || marker_framework_at(1) == marker_framework_at(18));
        assert(!found[2] || marker_framework_at(2) == marker_framework_at(18));
        assert(!found[3] || marker_framework_at(3) == marker_framework_at(18));
        assert(!found[4] || marker_framework_at(4) == marker_framework_at(18));
        assert(!found[5] || marker_framework_at(5) == marker_framework_at(18));
        assert(!found[6] || marker_framework_at(6) == marker_framework_at(18));
        assert(!found[7] || marker_framework_at(7) == marker_framework_at(18));
        assert(!found[8] || marker_framework_at(8) == marker_framework_at(18));
        assert(!found[9] || marker_framework_at(9) == marker_framework_at(18));
        assert(!found[10] || marker_framework_at(10) == marker_framework_at(18));
        assert(!found[11] || marker_framework_at(11) == marker_framework_at(18));
        assert(!found[12] || marker_framework_at(12) == marker_framework_at(18));
        assert(!found[13] || marker_framework_at(13) == marker_framework_at(18));
        assert(!found[14] || marker_framework_at(14) == marker_framework_at(18));
        assert(!found[15] || marker_framework_at(15) == marker_framework_at(18));
        assert(!found[16] || marker_framework_at(16) == marker_framework_at(18));
        assert(!found[17] || marker_framework_at(17) == marker_framework_at(18));
    } else if i == 19 {
        assert(!found[0] || marker_framework_at(0) == marker_framework_at(19));
        assert(!found[1] || marker_framework_at(1) == marker_framework_at(19));
        assert(!found[2] || marker_framework_at(2) == marker_framework_at(19));
        assert(!found[3] || marker_framework_at(3) == marker_framework_at(19));
        assert(!found[4] || marker_framework_at(4) == marker_framework_at(19));
        assert(!found[5] || marker_framework_at(5) == marker_framework_at(19));
        assert(!found[6] || marker_framework_at(6) == marker_framework_at(19));
        assert(!found[7] || marker_framework_at(7) == marker_framework_at(19));
        assert(!found[8] || marker_framework_at(8) == marker_framework_at(19));
        assert(!found[9] || marker_framework_at(9) == marker_framework_at(19));
        assert(!found[10] || marker_framework_at(10) == marker_framework_at(19));
        assert(!found[11] || marker_framework_at(11) == marker_framework_at(19));
        assert(!found[12] || marker_framework_at(12) == marker_framework_at(19));
        assert(!found[13] || marker_framework_at(13) == marker_framework_at(19));
        assert(!found[14] || marker_framework_at(14) == marker_framework_at(19));
        assert(!found[15] || marker_framework_at(15) == marker_framework_at(19));
        assert(!found[16] || marker_framework_at(16) == marker_framework_at(19));
        assert(!found[17] || marker_framework_at(17) == marker_framework_at(19));
        assert(!found[18] || marker_framework_at(18) == marker_framework_at(19));
    } else if i == 20 {
        assert(!found[0] || marker_framework_at(0) == marker_framework_at(20));
        assert(!found[1] || marker_framework_at(1) == marker_framework_at(20));
        assert(!found[2] || marker_framework_at(2) == marker_framework_at(20));
        assert(!found[3] || marker_framework_at(3) == marker_framework_at(20));
        assert(!found[4] || marker_framework_at(4) == marker_framework_at(20));
        assert(!found[5] || marker_framework_at(5) == marker_framework_at(20));
        assert(!found[6] || marker_framework_at(6) == marker_framework_at(20));
        assert(!found[7] || marker_framework_at(7) == marker_framework_at(20));
        assert(!found[8] || marker_framework_at(8) == marker_framework_at(20));
        assert(!found[9] || marker_framework_at(9) == marker_framework_at(20));
        assert(!found[10] || marker_framework_at(10) == marker_framework_at(20));
        assert(!found[11] || marker_framework_at(11) == marker_framework_at(20));
        assert(!found[12] || marker_framework_at(12) == marker_framework_at(20));
        assert(!found[13] || marker_framework_at(13) == marker_framework_at(20));
        assert(!found[14] || marker_framework_at(14) == marker_framework_at(20));
        assert(!found[15] || marker_framework_at(15) == marker_framework_at(20));
        assert(!found[16] || marker_framework_at(16) == marker_framework_at(20));
        assert(!found[17] || marker_framework_at(17) == marker_framework_at(20));
        assert(!found[18] || marker_framework_at(18) == marker_framework_at(20));
        assert(!found[19] || marker_framework_at(19) == marker_framework_at(20));
    } else if i == 21 {
        assert(!found[0] || marker_framework_at(0) == marker_framework_at(21));
        assert(!found[1] || marker_framework_at(1) == marker_framework_at(21));
        assert(!found[2] || marker_framework_at(2) == marker_framework_at(21));
        assert(!found[3] || marker_framework_at(3) == marker_framework_at(21));
        assert(!found[4] || marker_framework_at(4) == marker_framework_at(21));
        assert(!found[5] || marker_framework_at(5) == marker_framework_at(21));
        assert(!found[6] || marker_framework_at(6) == marker_framework_at(21));
        assert(!found[7] || marker_framework_at(7) == marker_framework_at(21));
        assert(!found[8] || marker_framework_at(8) == marker_framework_at(21));
        assert(!found[9] || marker_framework_at(9) == marker_framework_at(21));
        assert(!found[10] || marker_framework_at(10) == marker_framework_at(21));
        assert(!found[11] || marker_framework_at(11) == marker_framework_at(21));
        assert(!found[12] || marker_framework_at(12) == marker_framework_at(21));
        assert(!found[13] || marker_framework_at(13) == marker_framework_at(21));
        assert(!found[14] || marker_framework_at(14) == marker_framework_at(21));
        assert(!found[15] || marker_framework_at(15) == marker_framework_at(21));
        assert(!found[16] || marker_framework_at(16) == marker_framework_at(21));
        assert(!found[17] || marker_framework_at(17) == marker_framework_at(21));
        assert(!found[18] || marker_framework_at(18) == marker_framework_at(21));
        assert(!found[19] || marker_framework_at(19) == marker_framework_at(21));
        assert(!found[20] || marker_framework_at(20) == marker_framework_at(21));
    } else if i == 22 {
        assert(!found[0] || marker_framework_at(0) == marker_framework_at(22));
        assert(!found[1] || marker_framework_at(1) == marker_framework_at(22));
        assert(!found[2] || marker_framework_at(2) == marker_framework_at(22));
        assert(!found[3] || marker_framework_at(3) == marker_framework_at(22));
        assert(!found[4] || marker_framework_at(4) == marker_framework_at(22));
        assert(!found[5] || marker_framework_at(5) == marker_framework_at(22));
        assert(!found[6] || marker_framework_at(6) == marker_framework_at(22));
        assert(!found[7] || marker_framework_at(7) == marker_framework_at(22));
        assert(!found[8] || marker_framework_at(8) == marker_framework_at(22));
        assert(!found[9] || marker_framework_at(9) == marker_framework_at(22));
        assert(!found[10] || marker_framework_at(10) == marker_framework_at(22));
        assert(!found[11] || marker_framework_at(11) == marker_framework_at(22));
        assert(!found[12] || marker_framework_at(12) == marker_framework_at(22));
        assert(!found[13] || marker_framework_at(13) == marker_framework_at(22));
        assert(!found[14] || marker_framework_at(14) == marker_framework_at(22));
        assert(!found[15] || marker_framework_at(15) == marker_framework_at(22));
        assert(!found[16] || marker_framework_at(16) == marker_framework_at(22));
        assert(!found[17] || marker_framework_at(17) == marker_framework_at(22));
        assert(!found[18] || marker_framework_at(18) == marker_framework_at(22));
        assert(!found[19] || marker_framework_at(19) == marker_framework_at(22));
        assert(!found[20] || marker_framework_at(20) == marker_framework_at(22));
        assert(!found[21] || marker_framework_at(21) == marker_framework_at(22));
    } else if i == 23 {
        assert(!found[0] || marker_framework_at(0) == marker_framework_at(23));
        assert(!found[1] || marker_framework_at(1) == marker_framework_at(23));
        assert(!found[2] || marker_framework_at(2) == marker_framework_at(23));
        assert(!found[3] || marker_framework_at(3) == marker_framework_at(23));
        assert(!found[4] || marker_framework_at(4) == marker_framework_at(23));
        assert(!found[5] || marker_framework_at(5) == marker_framework_at(23));
        assert(!found[6] || marker_framework_at(6) == marker_framework_at(23));
        assert(!found[7] || marker_framework_at(7) == marker_framework_at(23));
        assert(!found[8] || marker_framework_at(8) == marker_framework_at(23));
        assert(!found[9] || marker_framework_at(9) == marker_framework_at(23));
        assert(!found[10] || marker_framework_at(10) == marker_framework_at(23));
        assert(!found[11] || marker_framework_at(11) == marker_framework_at(23));
        assert(!found[12] || marker_framework_at(12) == marker_framework_at(23));
        assert(!found[13] || marker_framework_at(13) == marker_framework_at(23));
        assert(!found[14] || marker_framework_at(14) == marker_framework_at(23));
        assert(!found[15] || marker_framework_at(15) == marker_framework_at(23));
        assert(!found[16] || marker_framework_at(16) == marker_framework_at(23));
        assert(!found[17] || marker_framework_at(17) == marker_framework_at(23));
        assert(!found[18] || marker_framework_at(18) == marker_framework_at(23));
        assert(!found[19] || marker_framework_at(19) == marker_framework_at(23));
        assert(!found[20] || marker_framework_at(20) == marker_framework_at(23));
        assert(!found[21] || marker_framework_at(21) == marker_framework_at(23));
        assert(!found[22] || marker_framework_at(22) == marker_framework_at(23));
    } else if i == 24 {
        assert(!found[0] || marker_framework_at(0) == marker_framework_at(24));
        assert(!found[1] || marker_framework_at(1) == marker_framework_at(24));
        assert(!found[2] || marker_framework_at(2) == marker_framework_at(24));
        assert(!found[3] || marker_framework_at(3) == marker_framework_at(24));
        assert(!found[4] || marker_framework_at(4) == marker_framework_at(24));
        assert(!found[5] || marker_framework_at(5) == marker_framework_at(24));
        assert(!found[6] || marker_framework_at(6) == marker_framework_at(24));
        assert(!found[7] || marker_framework_at(7) == marker_framework_at(24));
        assert(!found[8] || marker_framework_at(8) == marker_framework_at(24));
        assert(!found[9] || marker_framework_at(9) == marker_framework_at(24));
        assert(!found[10] || marker_framework_at(10) == marker_framework_at(24));
        assert(!found[11] || marker_framework_at(11) == marker_framework_at(24));
        assert(!found[12] || marker_framework_at(12) == marker_framework_at(24));
        assert(!found[13] || marker_framework_at(13) == marker_framework_at(24));
        assert(!found[14] || marker_framework_at(14) == marker_framework_at(24));
        assert(!found[15] || marker_framework_at(15) == marker_framework_at(24));
        assert(!found[16] || marker_framework_at(16) == marker_framework_at(24));
        assert(!found[17] || marker_framework_at(17) == marker_framework_at(24));
        assert(!found[18] || marker_framework_at(18) == marker_framework_at(24));
        assert(!found[19] || marker_framework_at(19) == marker_framework_at(24));
        assert(!found[20] || marker_framework_at(20) == marker_framework_at(24));
        assert(!found[21] || marker_framework_at(21) == marker_framework_at(24));
        assert(!found[22] || marker_framework_at(22) == marker_framework_at(24));
        assert(!found[23] || marker_framework_at(23) == marker_framework_at(24));
    } else if i == 25 {
        assert(!found[0] || marker_framework_at(0) == marker_framework_at(25));
        assert(!found[1] || marker_framework_at(1) == marker_framework_at(25));
        assert(!found[2] || marker_framework_at(2) == marker_framework_at(25));
        assert(!found[3] || marker_framework_at(3) == marker_framework_at(25));
        assert(!found[4] || marker_framework_at(4) == marker_framework_at(25));
        assert(!found[5] || marker_framework_at(5) == marker_framework_at(25));
        assert(!found[6] || marker_framework_at(6) == marker_framework_at(25));
        assert(!found[7] || marker_framework_at(7) == marker_framework_at(25));
        assert(!found[8] || marker_framework_at(8) == marker_framework_at(25));
        assert(!found[9] || marker_framework_at(9) == marker_framework_at(25));
        assert(!found[10] || marker_framework_at(10) == marker_framework_at(25));
        assert(!found[11] || marker_framework_at(11) == marker_framework_at(25));
        assert(!found[12] || marker_framework_at(12) == marker_framework_at(25));
        assert(!found[13] || marker_framework_at(13) == marker_framework_at(25));
        assert(!found[14] || marker_framework_at(14) == marker_framework_at(25));
        assert(!found[15] || marker_framework_at(15) == marker_framework_at(25));
        assert(!found[16] || marker_framework_at(16) == marker_framework_at(25));
        assert(!found[17] || marker_framework_at(17) == marker_framework_at(25));
        assert(!found[18] || marker_framework_at(18) == marker_framework_at(25));
        assert(!found[19] || marker_framework_at(19) == marker_framework_at(25));
        assert(!found[20] || marker_framework_at(20) == marker_framework_at(25));
        assert(!found[21] || marker_framework_at(21) == marker_framework_at(25));
        assert(!found[22] || marker_framework_at(22) == marker_framework_at(25));
        assert(!found[23] || marker_framework_at(23) == marker_framework_at(25));
        assert(!found[24] || marker_framework_at(24) == marker_framework_at(25));
    }
}

/// A Django project is marked by `manage.py` together with `settings.py`, a
/// `django` directory or `wsgi.py`, when no single-file marker listed before
/// them is found.
pub proof fn law_django_files_decide(found: Seq<bool>, dotnet_entry: bool)
    requires
        found.len() == PROBED_COUNT,
        found[12],
        found[13] || found[14] || found[15],
        forall|j: int| 0 <= j < 12 ==> !found[j],
    ensures
        probed_names_spec()[12] == "manage.py"@,
        classify_spec(markers_spec(found, dotnet_entry)) == Framework::Django,
{
    assert(!found[0] && !found[1] && !found[2] && !found[3] && !found[4] && !found[5]);
    assert(!found[6] && !found[7] && !found[8] && !found[9] && !found[10] && !found[11]);
}

/// A .NET project or solution file in the directory marks a .NET project
/// when no file listed before `requirements.txt` is found.
pub proof fn law_dotnet_entry_decides(found: Seq<bool>)
    requires
        found.len() == PROBED_COUNT,
        forall|j: int| 0 <= j < 24 ==> !found[j],
    ensures
        probed_names_spec()[24] == "requirements.txt"@,
        classify_spec(markers_spec(found, true)) == Framework::DotNet,
{
    assert(!found[0]);
    assert(!found[1]);
    assert(!found[2]);
    assert(!found[3]);
    assert(!found[4]);
    assert(!found[5]);
    assert(!found[6]);
    assert(!found[7]);
    assert(!found[8]);
    assert(!found[9]);
    assert(!found[10]);
    assert(!found[11]);
    assert(!found[12]);
    assert(!found[13]);
    assert(!found[14]);
    assert(!found[15]);
    assert(!found[16]);
    assert(!found[17]);
    assert(!found[18]);
    assert(!found[19]);
    assert(!found[20]);
    assert(!found[21]);
    assert(!found[22]);
    assert(!found[23]);
}

/// A Rails project is marked by `Gemfile` together with `config.ru`, when no
/// marker listed before them is found.
pub proof fn law_rails_files_decide(found: Seq<bool>, dotnet_entry: bool)
    requires
        found.len() == PROBED_COUNT,
        found[16],
        found[17],
        forall|j: int| 0 <= j < 16 ==> !found[j],
    ensures
        probed_names_spec()[16] == "Gemfile"@,
        probed_names_spec()[17] == "config.ru"@,
        classify_spec(markers_spec(found, dotnet_entry)) == Framework::Rails,
{
    assert(!found[0] && !found[1] && !found[2] && !found[3] && !found[4] && !found[5]);
    assert(!found[6] && !found[7] && !found[8] && !found[9] && !found[10] && !found[11]);
    assert(!found[12] && !found[13] && !found[14] && !found[15]);
}

/// Detect the primary framework in a project directory: each name of
/// `probed_names()` is looked up in `dir`, the directory's entries are searched
/// for a .NET project, and the markers so found are classified.
pub fn detect_framework(dir: &str) -> (f: Framework)
    ensures
        exists|found: Seq<bool>, dotnet_entry: bool|
            found.len() == probed_names_spec().len() && f == classify_spec(
                markers_spec(found, dotnet_entry),
            ),
{
    let names = probed_names();
    let mut found: Vec<bool> = Vec::new();
    let mut i: usize = 0;
    while i < names.len()
        invariant
            i <= names@.len(),
            names@.len() == PROBED_COUNT,
            found@.len() == i,
        decreases names@.len() - i,
    {
        found.push(path_exists(join_path(dir, names[i]).as_str()));
        i = i + 1;
    }
    let dotnet_entry = has_csproj(dir);
    let m = markers_from(&found, dotnet_entry);
    let f = classify_markers(&m);
    assert(f == classify_spec(markers_spec(found@, dotnet_entry)));
    f
}

/// Position of the last `.` in `s`.
pub open spec fn last_dot(s: Seq<char>) -> Option<int>
    decreases s.len(),
{
    if s.len() == 0 {
        None
    } else if s.last() == '.' {
        Some(s.len() - 1)
    } else {
        last_dot(s.drop_last())
    }
}

/// The extension of a file name as `Path::extension` defines it: the text
/// after the last `.`, unless that `.` starts the name or the name is `..`.
pub open spec fn extension_spec(name: Seq<char>) -> Option<Seq<char>> {
    if name == ".."@ {
        None
    } else {
        match last_dot(name) {
            Some(d) => if d == 0 {
                None
            } else {
                Some(name.skip(d + 1))
            },
            None => None,
        }
    }
}

pub open spec fn is_dotnet_file_spec(name: Seq<char>) -> bool {
    extension_spec(name) == Some("csproj"@) || extension_spec(name) == Some("sln"@)
}

/// Whether a file name has the extension `csproj` or `sln`.
#[verifier::spinoff_prover]
#[verifier::rlimit(60)]
pub fn is_dotnet_file(name: &str) -> (b: bool)
    ensures
        b == is_dotnet_file_spec(name@),
{
    let s = chars_of(name);
    let n = s.len();
    proof {
        reveal_strlit("..");
        reveal_strlit("csproj");
        reveal_strlit("sln");
    }
    if n == 2 && s[0] == '.' && s[1] == '.' {
        proof {
            assert(name@ =~= ".."@);
        }
        return false;
    }
    let mut i = n;
    assert(s@.take(n as int) == s@);
    while i > 0 && s[i - 1] != '.'
        invariant
            i <= n,
            n == s@.len(),
            last_dot(s@) == last_dot(s@.take(i as int)),
        decreases i,
    {
        proof {
            assert(s@.take(i as int).drop_last() == s@.take(i - 1));
        }
        i = i - 1;
    }
    if i <= 1 {
        // no dot, or the only candidate dot starts the name
        proof {
            if i == 1 {
                assert(s@.take(1).last() == s@[0]);
            } else {
                assert(s@.take(0).len() == 0);
            }
        }
        return false;
    }
    proof {
        assert(s@.take(i as int).last() == s@[i - 1]);
        assert(last_dot(s@) == Some(i - 1));
    }
    // the extension is s[i..]
    let len = n - i;
    let is_csproj = len == 6 && s[i] == 'c' && s[i + 1] == 's' && s[i + 2] == 'p' && s[i + 3] == 'r'
        && s[i + 4] == 'o' && s[i + 5] == 'j';
    let is_sln = len == 3 && s[i] == 's' && s[i + 1] == 'l' && s[i + 2] == 'n';
    proof {
        let ext = s@.skip(i as int);
        assert(name@ != ".."@);
        assert(extension_spec(name@) == Some(ext));
        assert(ext.len() == len);
        assert(forall|k: int| 0 <= k < ext.len() ==> ext[k] == s@[i + k]);
        if is_csproj {
            assert(ext =~= "csproj"@);
        }
        if ext == "csproj"@ {
            assert("csproj"@.len() == 6);
            assert(ext[0] == 'c' && ext[1] == 's' && ext[2] == 'p' && ext[3] == 'r' && ext[4] == 'o'
                && ext[5] == 'j');
            assert(is_csproj);
        }
        if is_sln {
            assert(ext =~= "sln"@);
        }
        if ext == "sln"@ {
            assert("sln"@.len() == 3);
            assert(ext[0] == 's' && ext[1] == 'l' && ext[2] == 'n');
            assert(is_sln);
        }
        assert(is_dotnet_file_spec(name@) == (is_csproj || is_sln));
    }
    is_csproj || is_sln
}

/// Whether a directory entry was read and is a .NET project or solution file.
pub open spec fn is_dotnet_entry(entry: Option<String>) -> bool {
    match entry {
        Some(n) => is_dotnet_file_spec(n@),
        None => false,
    }
}

pub open spec fn any_dotnet_spec(names: Seq<Option<String>>) -> bool {
    exists|i: int| 0 <= i < names.len() && #[trigger] is_dotnet_entry(names[i])
}

/// Whether some readable entry among `names` is a .NET project or solution
/// file.
pub fn any_dotnet(names: &Vec<Option<String>>) -> (b: bool)
    ensures
        b == any_dotnet_spec(names@),
{
    let mut i: usize = 0;
    while i < names.len()
        invariant
            i <= names@.len(),
            forall|k: int| 0 <= k < i ==> !#[trigger] is_dotnet_entry(names@[k]),
        decreases names@.len() - i,
    {
        if let Some(name) = &names[i] {
            if is_dotnet_file(name.as_str()) {
                assert(is_dotnet_entry(names@[i as int]));
                return true;
            }
        }
        i = i + 1;
    }
    false
}

/// Whether the readable entries of `dir` include a .NET project or solution
/// file (`false` when the directory cannot be read).
fn has_csproj(dir: &str) -> bool {
    match read_dir_names(dir) {
        Some(names) => any_dotnet(&names),
        None => false,
    }
}

pub open spec fn suggestion_views(s: Seq<(&str, &str, &str)>) -> Seq<(Seq<char>, Seq<char>, Seq<char>)> {
    s.map_values(|t: (&str, &str, &str)| (t.0@, t.1@, t.2@))
}

/// The processes suggested for a framework, as (name, command, section).
pub open spec fn suggestions_spec(framework: Framework) -> Seq<(Seq<char>, Seq<char>, Seq<char>)> {
    match framework {
        Framework::Laravel => seq![
            ("Dev Server"@, "php artisan serve"@, "services"@),
            ("Vite"@, "npm run dev"@, "services"@),
            ("Queue Worker"@, "php artisan queue:work"@, "services"@),
            ("Logs"@, "tail -f storage/logs/laravel.log"@, "services"@),
        ],
        Framework::NextJs | Framework::NodeJs => seq![("Dev Server"@, "npm run dev"@, "services"@)],
        Framework::Django => seq![("Dev Server"@, "python manage.py runserver"@, "services"@)],
        Framework::Go => seq![("Run"@, "go run ."@, "services"@)],
        Framework::Rust => seq![
            ("Run"@, "cargo run"@, "services"@),
            ("Watch"@, "cargo watch -x run"@, "services"@),
        ],
        _ => seq![],
    }
}

/// Suggest default processes based on detected framework.
pub fn suggest_processes(framework: &Framework) -> (r: Vec<(&'static str, &'static str, &'static str)>)
    ensures
        suggestion_views(r@) == suggestions_spec(*framework),
{
    // Returns (name, command, section)
    let r = match framework {
        Framework::Laravel => vec![
            ("Dev Server", "php artisan serve", "services"),
            ("Vite", "npm run dev", "services"),
            ("Queue Worker", "php artisan queue:work", "services"),
            ("Logs", "tail -f storage/logs/laravel.log", "services"),
        ],
        Framework::NextJs | Framework::NodeJs => vec![("Dev Server", "npm run dev", "services")],
        Framework::Django => vec![("Dev Server", "python manage.py runserver", "services")],
        Framework::Go => vec![("Run", "go run .", "services")],
        Framework::Rust => vec![("Run", "cargo run", "services"), ("Watch", "cargo watch -x run", "services")],
        _ => vec![],
    };
    proof {
        assert(suggestion_views(r@) =~= suggestions_spec(*framework));
    }
    r
}

} // verus!
