use vs::legacy::{
    available_cache_is_fresh, configured_proxy_url, legacy_candidate_file_names,
    normalize_legacy_strategy, normalize_runtime_root, pair_names,
    parse_duration_spec, parse_generic_legacy_tool_names, parse_generic_legacy_tool_version,
    parse_sdkmanrc_content, parse_tool_versions_content, supported_legacy_files,
    tool_version_of,
};

fn strings(items: &[&str]) -> Vec<String> {
    items.iter().map(|s| s.to_string()).collect()
}

fn pairs(items: &[(&str, &str)]) -> Vec<(String, String)> {
    items.iter().map(|(a, b)| (a.to_string(), b.to_string())).collect()
}

#[test]
fn tool_versions_lines_give_tool_and_version() {
    let content = "# comment\nnodejs 20.11.1 extra\n\n  python   3.12.0\nlonely\r\nnodejs 18.0.0\n";
    assert_eq!(
        parse_tool_versions_content(content),
        pairs(&[("nodejs", "20.11.1"), ("python", "3.12.0"), ("nodejs", "18.0.0")])
    );
    let parsed = parse_tool_versions_content(content);
    assert_eq!(tool_version_of(&parsed, "nodejs"), Some(String::from("18.0.0")));
    assert_eq!(tool_version_of(&parsed, "ruby"), None);
    assert_eq!(pair_names(&parsed), strings(&["nodejs", "python"]));
}

#[test]
fn sdkmanrc_lines_split_at_the_first_equals() {
    let content = "java = 21.0.2-tem\n#maven=3\ngradle=8.5=x\nbroken\n";
    assert_eq!(
        parse_sdkmanrc_content(content),
        pairs(&[("java", "21.0.2-tem"), ("gradle", "8.5=x")])
    );
}

#[test]
fn generic_legacy_tool_names() {
    assert_eq!(
        parse_generic_legacy_tool_names(".tool-versions", "python 3\nnodejs 20\npython 3.1\n"),
        strings(&["nodejs", "python"])
    );
    assert_eq!(parse_generic_legacy_tool_names(".nvmrc", "20\n"), strings(&["nodejs"]));
    assert!(parse_generic_legacy_tool_names(".node-version", "  \n").is_empty());
    assert_eq!(parse_generic_legacy_tool_names(".sdkmanrc", "java=21\n"), strings(&["java"]));
    assert!(parse_generic_legacy_tool_names(".ruby-version", "3.3").is_empty());
}

#[test]
fn legacy_versions_under_each_strategy() {
    let installed = strings(&["20.11.1", "20.9.0"]);
    let available = strings(&["21.0.0", "20.12.0"]);
    assert_eq!(
        parse_generic_legacy_tool_version("nodejs", ".nvmrc", "20\n", &installed, "specified", &available),
        Some(String::from("20"))
    );
    assert_eq!(
        parse_generic_legacy_tool_version("nodejs", ".nvmrc", "20\n", &installed, "latest_installed", &available),
        Some(String::from("20.11.1"))
    );
    assert_eq!(
        parse_generic_legacy_tool_version("nodejs", ".nvmrc", "20\n", &installed, "latest_available", &available),
        Some(String::from("20.12.0"))
    );
    assert_eq!(
        parse_generic_legacy_tool_version("nodejs", ".nvmrc", "22\n", &installed, "latest_installed", &available),
        Some(String::from("22"))
    );
    assert_eq!(
        parse_generic_legacy_tool_version("deno", ".nvmrc", "20\n", &installed, "specified", &available),
        None
    );
    assert_eq!(
        parse_generic_legacy_tool_version("java", ".sdkmanrc", "java=21\n", &installed, "specified", &available),
        Some(String::from("21"))
    );
    assert_eq!(
        parse_generic_legacy_tool_version("java", ".sdkmanrc", "java=\n", &installed, "specified", &available),
        None
    );
}

#[test]
fn legacy_candidates_append_plugin_files_once() {
    assert_eq!(
        supported_legacy_files(),
        strings(&[".tool-versions", ".nvmrc", ".node-version", ".sdkmanrc"])
    );
    assert_eq!(
        legacy_candidate_file_names(&strings(&[".nvmrc", ".deno-version", ".deno-version"])),
        strings(&[".tool-versions", ".nvmrc", ".node-version", ".sdkmanrc", ".deno-version"])
    );
}

#[test]
fn durations_parse_to_seconds() {
    assert_eq!(parse_duration_spec("12h"), Some(43200));
    assert_eq!(parse_duration_spec(" 30 "), Some(30));
    assert_eq!(parse_duration_spec("90s"), Some(90));
    assert_eq!(parse_duration_spec("15m"), Some(900));
    assert_eq!(parse_duration_spec("7d"), Some(604800));
    assert_eq!(parse_duration_spec("0"), None);
    assert_eq!(parse_duration_spec("0h"), None);
    assert_eq!(parse_duration_spec(""), None);
    assert_eq!(parse_duration_spec("h"), None);
    assert_eq!(parse_duration_spec("5w"), None);
    assert_eq!(parse_duration_spec("99999999999999999999s"), None);
    assert_eq!(parse_duration_spec("18446744073709551615d"), Some(u64::MAX));
}

#[test]
fn settings_normalize() {
    assert_eq!(normalize_runtime_root("/home/u/.vs", "  "), "/home/u/.vs/cache");
    assert_eq!(normalize_runtime_root("/home/u/.vs", " /opt/sdk "), "/opt/sdk");
    assert_eq!(normalize_runtime_root("/home/u/.vs", "sdk"), "/home/u/.vs/sdk");
    assert_eq!(normalize_legacy_strategy("latest_installed"), "latest_installed");
    assert_eq!(normalize_legacy_strategy("latest_available"), "latest_available");
    assert_eq!(normalize_legacy_strategy("newest"), "specified");
    assert_eq!(configured_proxy_url(true, " http://proxy:8080 "), Some(String::from("http://proxy:8080")));
    assert_eq!(configured_proxy_url(true, "   "), None);
    assert_eq!(configured_proxy_url(false, "http://proxy:8080"), None);
}

#[test]
fn cache_freshness() {
    assert!(available_cache_is_fresh(60, 1000, 1059, 999));
    assert!(available_cache_is_fresh(60, 1000, 1060, 0));
    assert!(!available_cache_is_fresh(60, 1000, 1060, 1));
    assert!(!available_cache_is_fresh(60, 1000, 999, 0));
}
