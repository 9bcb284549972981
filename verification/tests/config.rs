use herd::collections::NamedMap;
use herd::config::command_identity::command_identity;
use herd::config::detect::{
    any_dotnet, classify_markers, detect_framework, markers_from, probed_names, suggest_processes, Framework,
    ProjectMarkers,
};
use herd::config::env_resolver::resolve_with_env;
use herd::config::locate::{candidate_paths, find_config_file, first_found};
use herd::config::schema::{resolve_processes, AiConfig, AiProviderConfig, ProcessConfig};
use herd::config::trust::{hash_command, hash_config_content, TrustStore};
use herd::soloterm::local_config::{local_path_for, merge_local_settings};
use herd::soloterm::trust::{
    fxhash, hash_command as solo_hash_command, TrustStore as SoloTrustStore,
};

fn env_of(pairs: &[(&str, &str)]) -> NamedMap<String> {
    let mut env = NamedMap::new();
    for (k, v) in pairs {
        env.insert(k.to_string(), v.to_string());
    }
    env
}

fn no_markers() -> ProjectMarkers {
    ProjectMarkers {
        artisan: false,
        next_config: false,
        nuxt_config: false,
        svelte_config: false,
        remix_config: false,
        astro_config: false,
        manage_py: false,
        settings_py: false,
        django_layout: false,
        gemfile: false,
        config_ru: false,
        mix_exs: false,
        java_build: false,
        go_mod: false,
        cargo_toml: false,
        package_json: false,
        dotnet_project: false,
        python_project: false,
    }
}

// ── Framework detection ──

#[test]
fn test_suggest_processes_laravel() {
    let suggestions = suggest_processes(&Framework::Laravel);
    assert!(suggestions.len() >= 3);
    assert_eq!(suggestions[0].0, "Dev Server");
}

#[test]
fn markers_decide_the_framework() {
    assert_eq!(classify_markers(&no_markers()), Framework::Unknown);
    assert_eq!(classify_markers(&ProjectMarkers { package_json: true, ..no_markers() }), Framework::NodeJs);
    assert_eq!(classify_markers(&ProjectMarkers { cargo_toml: true, ..no_markers() }), Framework::Rust);
    assert_eq!(
        classify_markers(&ProjectMarkers { package_json: true, next_config: true, ..no_markers() }),
        Framework::NextJs
    );
    assert_eq!(
        classify_markers(&ProjectMarkers { artisan: true, package_json: true, ..no_markers() }),
        Framework::Laravel
    );
}

fn found_only(names: &[&str]) -> Vec<bool> {
    probed_names().iter().map(|n| names.contains(n)).collect()
}

fn framework_of(names: &[&str]) -> Framework {
    classify_markers(&markers_from(&found_only(names), false))
}

#[test]
fn found_files_decide_the_framework() {
    assert_eq!(probed_names().len(), 26);
    assert_eq!(framework_of(&[]), Framework::Unknown);
    assert_eq!(framework_of(&["package.json"]), Framework::NodeJs);
    assert_eq!(framework_of(&["package.json", "next.config.js"]), Framework::NextJs);
    assert_eq!(framework_of(&["next.config.ts"]), Framework::NextJs);
    assert_eq!(framework_of(&["artisan", "package.json"]), Framework::Laravel);
    assert_eq!(framework_of(&["Cargo.toml"]), Framework::Rust);
    assert_eq!(framework_of(&["go.mod"]), Framework::Go);
    assert_eq!(framework_of(&["go.mod", "Cargo.toml"]), Framework::Go);
    assert_eq!(framework_of(&["manage.py"]), Framework::Unknown);
    assert_eq!(framework_of(&["manage.py", "wsgi.py"]), Framework::Django);
    assert_eq!(framework_of(&["Gemfile"]), Framework::Unknown);
    assert_eq!(framework_of(&["Gemfile", "config.ru"]), Framework::Rails);
    assert_eq!(framework_of(&["build.gradle"]), Framework::Spring);
    assert_eq!(framework_of(&["pyproject.toml"]), Framework::Flask);
    assert_eq!(framework_of(&["astro.config.mjs", "svelte.config.ts"]), Framework::Svelte);
    assert_eq!(classify_markers(&markers_from(&found_only(&["pyproject.toml"]), true)), Framework::DotNet);
}

#[test]
fn dotnet_entries_are_found_by_extension() {
    assert!(any_dotnet(&vec![None, Some("App.csproj".to_string())]));
    assert!(any_dotnet(&vec![Some("All.sln".to_string())]));
    assert!(!any_dotnet(&vec![Some(".csproj".to_string()), Some("csproj".to_string()), None]));
    assert!(!any_dotnet(&vec![]));
}

#[test]
fn missing_directory_is_unknown() {
    assert_eq!(detect_framework("/nonexistent/herd-test-project"), Framework::Unknown);
}

#[test]
fn suggestions_for_frameworks_without_defaults_are_empty() {
    assert!(suggest_processes(&Framework::Unknown).is_empty());
    let rust = suggest_processes(&Framework::Rust);
    assert_eq!(rust, vec![("Run", "cargo run", "services"), ("Watch", "cargo watch -x run", "services")]);
}

// ── Variable references ──

#[test]
fn env_resolver_test_resolve_existing_var() {
    let env = env_of(&[("HERD_TEST_VAR", "hello")]);
    assert_eq!(resolve_with_env("${HERD_TEST_VAR}", &env), "hello");
    let env = env_of(&[("SOLOTERM_TEST_VAR", "hello")]);
    assert_eq!(resolve_with_env("${SOLOTERM_TEST_VAR}", &env), "hello");
}

#[test]
fn env_resolver_test_resolve_missing_var_empty() {
    let env = env_of(&[]);
    assert_eq!(resolve_with_env("${HERD_NONEXISTENT}", &env), "");
    assert_eq!(resolve_with_env("${SOLOTERM_NONEXISTENT}", &env), "");
}

#[test]
fn env_resolver_test_resolve_missing_var_with_default() {
    let env = env_of(&[]);
    assert_eq!(resolve_with_env("${HERD_NONEXISTENT:-fallback}", &env), "fallback");
    assert_eq!(resolve_with_env("${SOLOTERM_NONEXISTENT:-fallback}", &env), "fallback");
}

#[test]
fn env_resolver_test_resolve_mixed_content() {
    let env = env_of(&[("HERD_HOST", "localhost")]);
    assert_eq!(
        resolve_with_env("http://${HERD_HOST}:${HERD_PORT:-8080}/api", &env),
        "http://localhost:8080/api"
    );
    let env = env_of(&[("SOLOTERM_HOST", "localhost")]);
    assert_eq!(
        resolve_with_env("http://${SOLOTERM_HOST}:${SOLOTERM_PORT:-8080}/api", &env),
        "http://localhost:8080/api"
    );
}

#[test]
fn env_resolver_test_resolve_no_vars() {
    let env = env_of(&[]);
    assert_eq!(resolve_with_env("plain string", &env), "plain string");
}

#[test]
fn env_resolver_test_resolve_existing_var_ignores_default() {
    let env = env_of(&[("HERD_SET_VAR", "actual")]);
    assert_eq!(resolve_with_env("${HERD_SET_VAR:-default}", &env), "actual");
    let env = env_of(&[("SOLOTERM_SET_VAR", "actual")]);
    assert_eq!(resolve_with_env("${SOLOTERM_SET_VAR:-default}", &env), "actual");
}

#[test]
fn malformed_references_stay_as_written() {
    let env = env_of(&[("A", "x")]);
    assert_eq!(resolve_with_env("${1A} ${A ${A", &env), "${1A} ${A ${A");
    assert_eq!(resolve_with_env("$A ${} ${A:}", &env), "$A ${} ${A:}");
    assert_eq!(resolve_with_env("${A}${A}", &env), "xx");
    assert_eq!(resolve_with_env("${B:-}", &env), "");
    assert_eq!(resolve_with_env("${B:-a:-b}", &env), "a:-b");
}

#[test]
fn resolving_a_configuration_touches_commands_env_and_keys() {
    let env = env_of(&[("PORT", "3000"), ("KEY", "sk-1")]);
    let mut procs = vec![ProcessConfig {
        name: "web".to_string(),
        command: "serve --port ${PORT}".to_string(),
        working_dir: None,
        auto_restart: false,
        section: "services".to_string(),
        lazy: false,
        interactive: false,
        restart_delay_ms: None,
        watch: None,
        env: env_of(&[("URL", "http://localhost:${PORT}")]),
    }];
    resolve_processes(&mut procs, &env);
    assert_eq!(procs[0].command, "serve --port 3000");
    assert_eq!(procs[0].env.get("URL").unwrap(), "http://localhost:3000");
    assert_eq!(procs[0].name, "web");

    let mut ai = AiConfig::default();
    ai.providers.insert(
        "anthropic".to_string(),
        AiProviderConfig { api_key: "${KEY}".to_string(), model: None },
    );
    ai.resolve_env(&env);
    assert_eq!(ai.providers.get("anthropic").unwrap().api_key, "sk-1");
}

// ── Trust ──

#[test]
fn trust_test_trust_store_default_empty() {
    let store = TrustStore::default();
    assert!(!store.is_trusted("/project", "abc123", "confighash"));
    let solo = SoloTrustStore::default();
    assert!(!solo.is_trusted("/project", "abc123"));
}

#[test]
fn trust_test_trust_command() {
    let mut store = TrustStore::default();
    store.trust_command("/project", "abc123".to_string());
    assert!(store.is_trusted("/project", "abc123", "any"));
    assert!(!store.is_trusted("/project", "other", "any"));
    assert!(!store.is_trusted("/other-project", "abc123", "any"));

    let mut solo = SoloTrustStore::default();
    solo.trust_command("/project", "abc123".to_string());
    assert!(solo.is_trusted("/project", "abc123"));
    assert!(!solo.is_trusted("/project", "other"));
    assert!(!solo.is_trusted("/other-project", "abc123"));
}

#[test]
fn test_trust_all_valid_config() {
    let mut store = TrustStore::default();
    store.trust_all("/project", "config_v1".to_string());
    assert!(store.is_trusted("/project", "anything", "config_v1"));
    assert!(!store.is_trusted("/project", "anything", "config_v2"));
    assert!(!store.is_trusted("/other", "anything", "config_v1"));
}

#[test]
fn test_trust_all_invalidated_on_config_change() {
    let mut store = TrustStore::default();
    store.trust_all("/project", "old_hash".to_string());
    assert!(store.is_trusted("/project", "cmd", "old_hash"));
    assert!(!store.is_trusted("/project", "cmd", "new_hash"));
    store.trust_command("/project", "cmd".to_string());
    assert!(store.is_trusted("/project", "cmd", "new_hash"));
}

#[test]
fn test_trust_all() {
    let mut store = SoloTrustStore::default();
    store.trust_all("/project");
    assert!(store.is_trusted("/project", "anything"));
    assert!(!store.is_trusted("/other", "anything"));
}

#[test]
fn test_hash_is_sha256() {
    let env = NamedMap::new();
    let h = hash_command("npm run dev", None, &env);
    assert_eq!(h.len(), 64);
    assert!(h.chars().all(|c| c.is_ascii_hexdigit()));
}

#[test]
fn trust_test_hash_deterministic() {
    let env = env_of(&[("KEY", "val")]);
    let h1 = hash_command("npm run dev", Some("."), &env);
    let h2 = hash_command("npm run dev", Some("."), &env);
    assert_eq!(h1, h2);
    let s1 = solo_hash_command("npm run dev", Some("."), &env);
    let s2 = solo_hash_command("npm run dev", Some("."), &env);
    assert_eq!(s1, s2);
}

#[test]
fn trust_test_hash_differs_for_different_commands() {
    let env = NamedMap::new();
    let h1 = hash_command("npm run dev", None, &env);
    let h2 = hash_command("npm run build", None, &env);
    assert_ne!(h1, h2);
    let s1 = solo_hash_command("npm run dev", None, &env);
    let s2 = solo_hash_command("npm run build", None, &env);
    assert_ne!(s1, s2);
}

#[test]
fn test_config_hash() {
    let h1 = hash_config_content("[project]\nname = \"app\"");
    let h2 = hash_config_content("[project]\nname = \"app\"");
    let h3 = hash_config_content("[project]\nname = \"changed\"");
    assert_eq!(h1, h2);
    assert_ne!(h1, h3);
    assert_eq!(h1.len(), 64);
}

#[test]
fn test_trusted_commands_uses_hashset() {
    let mut store = TrustStore::default();
    store.trust_command("/project", "abc".to_string());
    store.trust_command("/project", "abc".to_string());
    assert_eq!(store.projects.get("/project").unwrap().trusted_commands.len(), 1);
}

#[test]
fn command_identity_text_and_hashes() {
    let env = env_of(&[("KEY", "val")]);
    assert_eq!(command_identity("npm run dev", None, &NamedMap::new()), "cmd:npm run dev\ndir:.\nenv:{}");
    assert_eq!(
        command_identity("npm run dev", Some("."), &env),
        "cmd:npm run dev\ndir:.\nenv:{\"KEY\": \"val\"}"
    );
    assert_eq!(
        hash_command("npm run dev", None, &NamedMap::new()),
        "2d392ab5b086850466015571c359c5dc931323840f1f3ad6209380fb258504f5"
    );
    assert_eq!(
        hash_command("npm run dev", Some("."), &env),
        "8ea8258957928596a01b2f1d95721d82cb1fe92d5d0a182a9b6ffb9f6f026741"
    );
    assert_eq!(
        hash_config_content(""),
        "e3b0c44298fc1c149afbf4c8996fb92427ae41e4649b934ca495991b7852b855"
    );
    assert_eq!(solo_hash_command("npm run dev", None, &NamedMap::new()), "2ac6a34a9538ee89");
    assert_eq!(fxhash("ab"), 0xc42);
}

#[test]
fn hash_ignores_the_order_of_the_environment() {
    let a = env_of(&[("B", "2"), ("A", "1")]);
    let b = env_of(&[("A", "1"), ("B", "2")]);
    assert_eq!(hash_command("x", None, &a), hash_command("x", None, &b));
    assert_eq!(solo_hash_command("x", None, &a), solo_hash_command("x", None, &b));
}

#[test]
fn trusting_a_command_twice_keeps_one_entry_in_soloterm() {
    let mut store = SoloTrustStore::default();
    store.trust_command("/p", "h".to_string());
    store.trust_command("/p", "h".to_string());
    assert_eq!(store.projects.get("/p").unwrap().trusted_commands.len(), 1);
}

#[test]
fn trust_files_live_in_the_configuration_directory() {
    assert!(TrustStore::default_path().ends_with("herd/trust.toml"));
    assert!(SoloTrustStore::default_path().ends_with("soloterm/trust.toml"));
}

// ── Configuration files ──

#[test]
fn test_local_path_for() {
    let path = local_path_for("/home/user/project/solo.toml");
    assert_eq!(path.unwrap(), "/home/user/project/.solo.local");
}

#[test]
fn local_path_for_edge_cases() {
    assert_eq!(local_path_for("solo.toml").unwrap(), ".solo.local");
    assert_eq!(local_path_for("/"), None);
    assert_eq!(local_path_for(""), None);
}

#[test]
fn config_search_finds_nothing_in_a_missing_tree() {
    assert_eq!(find_config_file("/nonexistent/herd/search/start"), None);
}

#[test]
fn config_is_looked_for_upward_from_the_start() {
    assert_eq!(
        candidate_paths("/a/b"),
        vec!["/a/b/herd.toml".to_string(), "/a/herd.toml".to_string(), "/herd.toml".to_string()]
    );
    let cands = vec!["x".to_string(), "y".to_string(), "z".to_string()];
    assert_eq!(first_found(&cands, &vec![false, true, true]), Some("y".to_string()));
    assert_eq!(first_found(&cands, &vec![false, false, false]), None);
}

#[test]
fn local_overrides_append_processes_and_replace_set_ui_values() {
    let mut processes = vec!["web".to_string(), "worker".to_string()];
    let mut theme = "light".to_string();
    let mut font_size: f32 = 16.0;
    merge_local_settings(&mut processes, &mut theme, &mut font_size, vec!["tunnel".to_string()], None, None);
    assert_eq!(processes, vec!["web".to_string(), "worker".to_string(), "tunnel".to_string()]);
    assert_eq!(theme, "light");
    assert_eq!(font_size, 16.0);
    // an explicit default value still overrides
    merge_local_settings(&mut processes, &mut theme, &mut font_size, vec![], Some("dark".to_string()), Some(14.0));
    assert_eq!(processes.len(), 3);
    assert_eq!(theme, "dark");
    assert_eq!(font_size, 14.0);
}
