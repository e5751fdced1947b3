use std::hash::{Hash, Hasher};
use vs::shell::{
    bin_dir, global_current_dir, home_paths, install_dir, project_sdk_dir,
    compute_env_state_hash, format_hex, parse_prev_keys, render_activation,
    render_hook_output, render_shell_env_lines, replace_char, EnvDelta, ShellKind,
};

fn delta(vars: &[(&str, &str)], paths: &[&str]) -> EnvDelta {
    EnvDelta {
        vars: vars.iter().map(|(k, v)| (k.to_string(), v.to_string())).collect(),
        path_entries: paths.iter().map(|p| p.to_string()).collect(),
    }
}

#[test]
fn activation_script_should_reference_hidden_hook_command() {
    let script = render_activation(ShellKind::Bash);
    assert!(script.contains("vs __hook-env bash"));
    assert!(script.contains("VS_SESSION_ID"));
}

#[test]
fn env_state_hash_should_change_when_env_changes() {
    let first = compute_env_state_hash(
        &EnvDelta {
            vars: vec![(String::from("NODEJS_HOME"), String::from("/a"))],
            path_entries: Vec::new(),
        },
        "/a/bin:/usr/bin",
    );
    let second = compute_env_state_hash(
        &EnvDelta {
            vars: vec![(String::from("NODEJS_HOME"), String::from("/b"))],
            path_entries: Vec::new(),
        },
        "/b/bin:/usr/bin",
    );

    assert_ne!(first, second);
}

#[test]
fn env_state_hash_is_stable_for_the_same_state() {
    let d = delta(&[("A", "1")], &["/x/bin"]);
    assert_eq!(compute_env_state_hash(&d, "/p"), compute_env_state_hash(&d, "/p"));
    assert!(compute_env_state_hash(&d, "/p")
        .chars()
        .all(|c| c.is_ascii_hexdigit() && !c.is_ascii_uppercase()));
}

#[test]
fn nushell_rendering_should_emit_unset_markers_for_stale_vars() {
    let lines = render_shell_env_lines(
        ShellKind::Nushell,
        false,
        "",
        &vec![String::from("OLD_HOME"), String::from("KEEP_HOME")],
        &EnvDelta {
            vars: vec![(String::from("KEEP_HOME"), String::from("/tool"))],
            path_entries: Vec::new(),
        },
        "/tool/bin:/usr/bin",
        "hash",
    );

    assert!(lines
        .iter()
        .any(|line| line.contains("\"__VS_UNSET\":\"OLD_HOME\"")));
    assert!(!lines.iter().any(|line| line.contains("\"OLD_HOME\":\"\"")));
}

#[test]
fn nushell_rendering_quotes_values_as_json() {
    let lines = render_shell_env_lines(
        ShellKind::Nushell,
        true,
        "/usr/bin",
        &Vec::new(),
        &delta(&[("NAME", "say \"hi\"")], &[]),
        "/p",
        "h",
    );
    assert_eq!(
        lines,
        vec![
            String::from("{\"__VS_ORIG_PATH\":\"/usr/bin\"}"),
            String::from("{\"NAME\":\"say \\\"hi\\\"\"}"),
            String::from("{\"PATH\":\"/p\"}"),
            String::from("{\"__VS_VARS\":\"NAME\"}"),
            String::from("{\"__VS_STATE_HASH\":\"h\"}"),
        ]
    );
}

#[test]
fn bash_rendering_unsets_stale_keys_and_escapes_quotes() {
    let lines = render_shell_env_lines(
        ShellKind::Bash,
        true,
        "/usr/bin",
        &vec![String::from("OLD"), String::from("KEEP")],
        &delta(&[("KEEP", "it's")], &[]),
        "/a:/b",
        "abc",
    );
    assert_eq!(
        lines,
        vec![
            String::from("export __VS_ORIG_PATH='/usr/bin'"),
            String::from("unset OLD"),
            String::from("export KEEP='it'\"'\"'s'"),
            String::from("export PATH='/a:/b'"),
            String::from("export __VS_VARS='KEEP'"),
            String::from("export __VS_STATE_HASH='abc'"),
        ]
    );
}

#[test]
fn fish_pwsh_and_clink_rendering() {
    let d = delta(&[("K", "v'")], &[]);
    let fish = render_shell_env_lines(ShellKind::Fish, false, "", &vec![String::from("X")], &d, "/p", "h");
    assert_eq!(
        fish,
        vec![
            String::from("set -e X"),
            String::from("set -gx K 'v\\''"),
            String::from("set -gx PATH '/p'"),
            String::from("set -gx __VS_VARS 'K'"),
            String::from("set -gx __VS_STATE_HASH 'h'"),
        ]
    );
    let pwsh = render_shell_env_lines(ShellKind::Pwsh, false, "", &vec![String::from("X")], &d, "/p", "h");
    assert_eq!(pwsh[0], "Remove-Item Env:\\X -ErrorAction SilentlyContinue");
    assert_eq!(pwsh[1], "$env:K = 'v'''");
    let clink = render_shell_env_lines(ShellKind::Clink, true, "C:\\p", &vec![String::from("X")], &d, "/p", "h");
    assert_eq!(clink[0], "set __VS_ORIG_PATH=C:\\p");
    assert_eq!(clink[1], "set X=");
    assert_eq!(clink[2], "set K=v'");
}

#[test]
fn hook_output_is_empty_when_the_state_did_not_change() {
    let d = delta(&[("A", "1")], &["/x/bin"]);
    let hash = compute_env_state_hash(&d, "/x/bin:/usr/bin");
    let out = render_hook_output(ShellKind::Bash, false, "", &hash, "", &d, "/x/bin:/usr/bin");
    assert_eq!(out, "");
    let fresh = render_hook_output(ShellKind::Bash, false, "", "", "OLD", &d, "/x/bin:/usr/bin");
    assert!(fresh.starts_with("unset OLD\nexport A='1'"));
    assert!(fresh.ends_with(&format!("export __VS_STATE_HASH='{hash}'")));
}

#[test]
fn shell_names_parse_and_unknown_ones_are_refused() {
    assert_eq!(ShellKind::parse("bash").ok(), Some(ShellKind::Bash));
    assert_eq!(ShellKind::parse("powershell").ok(), Some(ShellKind::Pwsh));
    assert_eq!(ShellKind::parse("nushell").ok(), Some(ShellKind::Nushell));
    match ShellKind::parse("tcsh") {
        Err(error) => assert_eq!(error.message(), "unknown shell: tcsh"),
        Ok(_) => panic!("tcsh should be refused"),
    }
}

#[test]
fn every_activation_script_calls_the_hook_for_its_shell() {
    for (shell, name) in [
        (ShellKind::Bash, "bash"),
        (ShellKind::Zsh, "zsh"),
        (ShellKind::Fish, "fish"),
        (ShellKind::Nushell, "nushell"),
        (ShellKind::Pwsh, "pwsh"),
        (ShellKind::Clink, "clink"),
    ] {
        assert!(render_activation(shell).contains(&format!("vs __hook-env {name}")));
    }
}

#[test]
fn env_delta_builders_append() {
    let d = EnvDelta::default().with_var("A", "1").with_path("/bin").with_var("B", "2");
    assert_eq!(d.vars, vec![(String::from("A"), String::from("1")), (String::from("B"), String::from("2"))]);
    assert_eq!(d.path_entries, vec![String::from("/bin")]);
}

#[test]
fn previous_keys_drop_empty_pieces() {
    assert_eq!(parse_prev_keys("A::B:"), vec![String::from("A"), String::from("B")]);
    assert!(parse_prev_keys("").is_empty());
}

#[test]
fn hex_and_replace_helpers() {
    assert_eq!(format_hex(0), "0");
    assert_eq!(format_hex(255), "ff");
    assert_eq!(format_hex(0x1a2b), "1a2b");
    assert_eq!(replace_char("a'b'", '\'', "''"), "a''b''");
}

#[test]
fn home_layout_paths_should_hang_off_the_home() {
    let paths = home_paths("/home/u/.vs");
    assert_eq!(paths.home, "/home/u/.vs");
    assert_eq!(paths.registry_dir, "/home/u/.vs/registry");
    assert_eq!(paths.plugins_dir, "/home/u/.vs/plugins");
    assert_eq!(paths.cache_dir, "/home/u/.vs/cache");
    assert_eq!(paths.shims_dir, "/home/u/.vs/shims");
    assert_eq!(paths.sessions_dir, "/home/u/.vs/sessions");
    assert_eq!(paths.global_dir, "/home/u/.vs/global");
    assert_eq!(install_dir("/home/u/.vs", "nodejs", "20.11.1"), "/home/u/.vs/cache/nodejs/versions/20.11.1");
    assert_eq!(global_current_dir("/home/u/.vs", "nodejs"), "/home/u/.vs/cache/nodejs/current");
    assert_eq!(project_sdk_dir("/work", "nodejs"), "/work/.vs/sdks/nodejs");
    assert_eq!(bin_dir("/work/.vs/sdks/nodejs"), "/work/.vs/sdks/nodejs/bin");
}

#[test]
fn recorded_keys_should_be_read_back_by_the_next_hook() {
    let d = delta(&[("JAVA_HOME", "/opt/java"), ("NODE_HOME", "/opt/node")], &[]);
    let lines = render_shell_env_lines(ShellKind::Bash, false, "", &Vec::new(), &d, "/usr/bin", "abc");
    let recorded = lines
        .iter()
        .find_map(|line| line.strip_prefix("export __VS_VARS="))
        .expect("recorded keys line")
        .trim_matches(|c| c == '"' || c == '\'')
        .to_string();
    assert_eq!(recorded, "JAVA_HOME:NODE_HOME");
    assert_eq!(
        parse_prev_keys(&recorded),
        vec![String::from("JAVA_HOME"), String::from("NODE_HOME")]
    );
}

#[test]
fn env_state_hash_should_hash_like_std_hash_of_the_parts() {
    for paths in [
        vec!["/opt/java/bin", "/opt/go/bin"],
        vec!["a//b/./c/", "./x", "x/.", "/", "", "./", ".", "a/./", "/./.", "b/.x/..", "//a"],
    ] {
        let d = delta(&[("JAVA_HOME", "/opt/java"), ("GOROOT", "/opt/go")], &paths);
        let mut hasher = std::collections::hash_map::DefaultHasher::new();
        "/usr/bin".hash(&mut hasher);
        d.vars.hash(&mut hasher);
        let as_paths: Vec<std::path::PathBuf> = paths.iter().map(std::path::PathBuf::from).collect();
        as_paths.hash(&mut hasher);
        assert_eq!(compute_env_state_hash(&d, "/usr/bin"), format!("{:x}", hasher.finish()));
    }
}

#[test]
fn nushell_lines_should_escape_values_as_json() {
    let d = delta(&[("X", "a\"b\\c\td\u{1}")], &[]);
    let lines = render_shell_env_lines(ShellKind::Nushell, false, "", &Vec::new(), &d, "/usr/bin", "h");
    assert!(lines.contains(&String::from("{\"X\":\"a\\\"b\\\\c\\td\\u0001\"}")));
}
