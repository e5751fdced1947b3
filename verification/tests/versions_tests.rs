use vs::core_model::InstalledVersion;
use vs::versions::{
    compare_version_components, compare_versions_desc, fuzzy_match_version,
    installed_versions_for_plugin, parse_u64, select_matching_version, sort_installed_versions,
    version_components, VersionOrder,
};

fn strings(items: &[&str]) -> Vec<String> {
    items.iter().map(|s| s.to_string()).collect()
}

fn installed(plugin: &str, version: &str) -> InstalledVersion {
    InstalledVersion {
        plugin: String::from(plugin),
        version: String::from(version),
        install_dir: format!("/cache/{plugin}/versions/{version}"),
    }
}

#[test]
fn version_components_split_on_non_alphanumerics() {
    assert_eq!(version_components("v20.11.1"), strings(&["20", "11", "1"]));
    assert_eq!(version_components("1.2.3-beta.1"), strings(&["1", "2", "3", "beta", "1"]));
    assert_eq!(version_components("vv1..2"), strings(&["1", "2"]));
    assert!(version_components("").is_empty());
}

#[test]
fn versions_compare_numerically_then_textually() {
    assert_eq!(compare_version_components("20.9.0", "20.11.1"), VersionOrder::Less);
    assert_eq!(compare_version_components("1.10", "1.9"), VersionOrder::Greater);
    assert_eq!(compare_version_components("1.0", "1.0.0"), VersionOrder::Less);
    assert_eq!(compare_version_components("1.01", "v1.1"), VersionOrder::Equal);
    assert_eq!(compare_version_components("1.a", "1.b"), VersionOrder::Less);
    assert_eq!(compare_versions_desc("20.9.0", "20.11.1"), VersionOrder::Greater);
    assert_eq!(compare_versions_desc("2", "2"), VersionOrder::Equal);
}

#[test]
fn version_order_is_reflexive_and_antisymmetric_on_samples() {
    let samples = ["1", "1.0", "v2.3.4", "10", "1a", "9", "2.0-rc1", ""];
    for a in samples {
        assert_eq!(compare_version_components(a, a), VersionOrder::Equal);
        for b in samples {
            let forward = compare_version_components(a, b);
            let backward = compare_version_components(b, a);
            let flipped = match forward {
                VersionOrder::Less => VersionOrder::Greater,
                VersionOrder::Equal => VersionOrder::Equal,
                VersionOrder::Greater => VersionOrder::Less,
            };
            assert_eq!(backward, flipped);
        }
    }
}

#[test]
fn version_order_is_not_transitive_across_mixed_components() {
    assert_eq!(compare_version_components("10", "1a"), VersionOrder::Less);
    assert_eq!(compare_version_components("1a", "9"), VersionOrder::Less);
    assert_eq!(compare_version_components("9", "10"), VersionOrder::Less);
}

#[test]
fn u64_parsing_follows_str_parse() {
    let digits = |s: &str| parse_u64(&s.chars().collect());
    assert_eq!(digits("0"), Some(0));
    assert_eq!(digits("+7"), Some(7));
    assert_eq!(digits("18446744073709551615"), Some(u64::MAX));
    assert_eq!(digits("18446744073709551616"), None);
    assert_eq!(digits(""), None);
    assert_eq!(digits("+"), None);
    assert_eq!(digits("1a"), None);
}

#[test]
fn select_matching_version_prefers_exact_then_line() {
    let candidates = strings(&["20.11.1", "20.9.0", "18.0.0"]);
    assert_eq!(select_matching_version("20", &candidates), Some(String::from("20.11.1")));
    assert_eq!(select_matching_version(" 20.9.0 ", &candidates), Some(String::from("20.9.0")));
    assert_eq!(select_matching_version("", &candidates), Some(String::from("20.11.1")));
    assert_eq!(select_matching_version("2", &candidates), None);
    assert_eq!(select_matching_version("20", &Vec::new()), None);
}

#[test]
fn fuzzy_match_picks_the_least_refinement() {
    let installed = strings(&["20.9.0", "20.11.1", "18.0.0"]);
    assert_eq!(fuzzy_match_version("20", false, &installed), "20.11.1");
    assert_eq!(fuzzy_match_version("18", false, &installed), "18.0.0");
    assert_eq!(fuzzy_match_version("16", false, &installed), "16");
    assert_eq!(fuzzy_match_version("20", true, &installed), "20");
}

#[test]
fn installed_versions_are_listed_by_plugin_then_newest_first() {
    let listed = sort_installed_versions(vec![
        installed("nodejs", "20.9.0"),
        installed("go", "1.21.0"),
        installed("nodejs", "20.11.1"),
    ]);
    let pairs: Vec<(&str, &str)> = listed.iter().map(|v| (v.plugin.as_str(), v.version.as_str())).collect();
    assert_eq!(pairs, vec![("go", "1.21.0"), ("nodejs", "20.11.1"), ("nodejs", "20.9.0")]);
}

#[test]
fn plugin_versions_are_filtered_and_newest_first() {
    let listed = installed_versions_for_plugin(
        vec![
            installed("nodejs", "20.9.0"),
            installed("go", "1.21.0"),
            installed("nodejs", "20.11.1"),
        ],
        "nodejs",
    );
    let versions: Vec<&str> = listed.iter().map(|v| v.version.as_str()).collect();
    assert_eq!(versions, vec!["20.11.1", "20.9.0"]);
    assert!(installed_versions_for_plugin(vec![installed("go", "1")], "nodejs").is_empty());
}

#[test]
fn numeric_versions_of_a_plugin_list_newest_first() {
    let all = vec![
        installed("go", "1.2.10"),
        installed("node", "20.0.0"),
        installed("go", "1.10.0"),
        installed("go", "1.2.9"),
        installed("go", "2.0"),
    ];
    let listed: Vec<String> =
        installed_versions_for_plugin(all, "go").into_iter().map(|v| v.version).collect();
    assert_eq!(listed, strings(&["2.0", "1.10.0", "1.2.10", "1.2.9"]));
}

#[test]
fn mixed_versions_do_not_compare_transitively() {
    assert_eq!(compare_version_components("10", "1a"), VersionOrder::Less);
    assert_eq!(compare_version_components("1a", "9"), VersionOrder::Less);
    assert_eq!(compare_version_components("9", "10"), VersionOrder::Less);
}
