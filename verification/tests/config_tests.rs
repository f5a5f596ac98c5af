use exception_collector::{CollectorConfig, CollectorError, Duration, RepoMap, RepoMapFile};

/// What reading the file `text` comes to.
fn read(text: &str) -> RepoMapFile {
    let table = match toml::from_str::<toml::Table>(text) {
        Ok(table) => table,
        Err(e) => return RepoMapFile::NotToml(e.to_string()),
    };
    let components = match table.get("components").and_then(|c| c.as_table()) {
        Some(components) => components,
        None => return RepoMapFile::NotToml("missing field `components`".to_string()),
    };
    RepoMapFile::Components(
        components
            .iter()
            .map(|(k, v)| (k.clone(), v.as_str().unwrap().to_string()))
            .collect(),
    )
}

const TWO_COMPONENTS: &str = r#"
[components]
"token-fleet-switch" = "TokenFleet-AI/token-fleet-switch"
"agent-proxy-rust" = "TokenFleet-AI/agent-proxy-rust"
"#;

fn check_sane_defaults() {
    let config = CollectorConfig::default();

    assert!(config.log_dirs.is_empty());
    assert_eq!(config.scan_interval_secs, 300);
    assert_eq!(config.daily_trigger_hour, 2);
    assert_eq!(config.distinct_count_threshold, 20);
    assert_eq!(config.cooldown_duration, Duration::from_secs(3600));
    assert_eq!(config.max_retries, 3);
    assert_eq!(config.retry_base_delay, Duration::from_secs(300));
    assert!(config.repo_map.is_empty());
}

fn check_new_equals_default() {
    let config = CollectorConfig::new();
    let default = CollectorConfig::default();

    assert_eq!(config.daily_trigger_hour, default.daily_trigger_hour);
    assert_eq!(
        config.distinct_count_threshold,
        default.distinct_count_threshold
    );
    assert_eq!(config.max_retries, default.max_retries);
}

fn check_cloneable() {
    let mut config = CollectorConfig::default();
    config
        .repo_map
        .insert("comp".to_string(), "owner/repo".to_string());
    let cloned = config.clone();

    assert_eq!(cloned.daily_trigger_hour, config.daily_trigger_hour);
    assert_eq!(cloned.repo_map, config.repo_map);
}

fn check_parse_repo_map() {
    let config =
        CollectorConfig::from_file("repo-map.toml", &read(TWO_COMPONENTS)).expect("parse config");

    assert_eq!(config.repo_map.len(), 2);
    assert_eq!(
        config
            .repo_map
            .get("token-fleet-switch")
            .map(String::as_str),
        Some("TokenFleet-AI/token-fleet-switch")
    );
    assert_eq!(
        config.repo_map.get("agent-proxy-rust").map(String::as_str),
        Some("TokenFleet-AI/agent-proxy-rust")
    );
    // defaults preserved
    assert_eq!(config.daily_trigger_hour, 2);
    assert_eq!(config.distinct_count_threshold, 20);
}

fn check_missing_file() {
    let result = CollectorConfig::from_file(
        "/nonexistent/path/repo-map.toml",
        &RepoMapFile::NotRead("No such file or directory".to_string()),
    );

    assert!(result.is_err());
    let err = result.expect_err("expected error for missing file");
    match err {
        CollectorError::Io { path, .. } => {
            assert_eq!(path, "/nonexistent/path/repo-map.toml");
        }
        _ => panic!("expected Io error, got: {err:?}"),
    }
}

fn check_invalid_toml() {
    let path = "bad.toml";
    let result = CollectorConfig::from_file(path, &read("this is not valid toml {{{"));

    assert!(result.is_err());
    let err = result.expect_err("expected error for invalid TOML");
    match err {
        CollectorError::TomlParse { path: p, .. } => {
            assert_eq!(p, path);
        }
        _ => panic!("expected TomlParse error, got: {err:?}"),
    }
}

fn check_missing_components() {
    let result = CollectorConfig::from_file("no-components.toml", &read("[other]\nkey = \"value\"\n"));

    assert!(result.is_err());
}

fn check_empty_components() {
    let config = CollectorConfig::from_file("empty.toml", &read("[components]\n"))
        .expect("parse empty components");

    assert!(config.repo_map.is_empty());
    assert_eq!(config.daily_trigger_hour, 2);
}

#[test]
fn config_test_collector_config_should_have_sane_defaults() {
    check_sane_defaults();
}

#[test]
fn lib_test_collector_config_should_have_sane_defaults() {
    check_sane_defaults();
}

#[test]
fn config_test_collector_config_new_should_equal_default() {
    check_new_equals_default();
}

#[test]
fn lib_test_collector_config_new_should_equal_default() {
    check_new_equals_default();
}

#[test]
fn config_test_collector_config_should_be_cloneable() {
    check_cloneable();
}

#[test]
fn lib_test_collector_config_should_be_cloneable() {
    check_cloneable();
}

#[test]
fn config_test_collector_config_from_file_should_parse_repo_map() {
    check_parse_repo_map();
}

#[test]
fn lib_test_collector_config_from_file_should_parse_repo_map() {
    check_parse_repo_map();
}

#[test]
fn config_test_collector_config_from_file_should_error_on_missing_file() {
    check_missing_file();
}

#[test]
fn lib_test_collector_config_from_file_should_error_on_missing_file() {
    check_missing_file();
}

#[test]
fn config_test_collector_config_from_file_should_error_on_invalid_toml() {
    check_invalid_toml();
}

#[test]
fn lib_test_collector_config_from_file_should_error_on_invalid_toml() {
    check_invalid_toml();
}

#[test]
fn config_test_collector_config_from_file_should_error_when_components_key_missing() {
    check_missing_components();
}

#[test]
fn lib_test_collector_config_from_file_should_error_when_components_key_missing() {
    check_missing_components();
}

#[test]
fn config_test_collector_config_from_file_should_handle_empty_components() {
    check_empty_components();
}

#[test]
fn lib_test_collector_config_from_file_should_handle_empty_components() {
    check_empty_components();
}

#[test]
fn test_repo_for_should_return_repo_for_known_component() {
    let mut config = CollectorConfig::default();
    config.repo_map.insert(
        "token-fleet-switch".to_string(),
        "TokenFleet-AI/token-fleet-switch".to_string(),
    );

    assert_eq!(
        config.repo_for("token-fleet-switch"),
        Some("TokenFleet-AI/token-fleet-switch")
    );
}

#[test]
fn test_repo_for_should_return_none_for_unknown_component() {
    let config = CollectorConfig::default();

    assert_eq!(config.repo_for("unknown-component"), None);
}

#[test]
fn test_repo_for_should_return_none_for_empty_map() {
    let config = CollectorConfig::new();

    assert_eq!(config.repo_for("anything"), None);
}

#[test]
fn later_pairs_replace_earlier_ones() {
    let pairs = vec![
        ("a".to_string(), "o/1".to_string()),
        ("b".to_string(), "o/2".to_string()),
        ("a".to_string(), "o/3".to_string()),
    ];
    let map = RepoMap::from_pairs(&pairs);
    assert_eq!(map.len(), 2);
    assert_eq!(map.get("a").map(String::as_str), Some("o/3"));
    assert_eq!(map.get("b").map(String::as_str), Some("o/2"));
    assert_eq!(map.get("c"), None);
}

#[test]
fn maps_are_equal_whatever_their_order() {
    let mut one = RepoMap::new();
    one.insert("a".to_string(), "1".to_string());
    one.insert("b".to_string(), "2".to_string());
    let mut two = RepoMap::new();
    two.insert("b".to_string(), "2".to_string());
    two.insert("a".to_string(), "0".to_string());
    assert!(one != two);
    two.insert("a".to_string(), "1".to_string());
    assert!(one == two);
    two.insert("c".to_string(), "3".to_string());
    assert!(one != two);
    assert!(RepoMap::new() == RepoMap::new());
}

#[test]
fn a_clone_keeps_the_log_dirs() {
    let mut config = CollectorConfig::default();
    config.log_dirs.push("/var/log/*.log".to_string());
    config.retry_base_delay = Duration::from_millis(1500);
    let copy = config.clone();
    assert_eq!(copy.log_dirs, vec!["/var/log/*.log".to_string()]);
    assert_eq!(copy.retry_base_delay, Duration { secs: 1, nanos: 500_000_000 });
}
