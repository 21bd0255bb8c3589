use fermio::config::{validate, FermioConfig, LoadedConfig};
use std::path::PathBuf;

#[test]
fn resolves_relative_paths_from_configuration_directory() {
    let loaded = LoadedConfig {
        config: FermioConfig::default(),
        path: Some("config/security/.fermio.toml".to_string()),
    };
    assert_eq!(
        PathBuf::from(loaded.resolve_path("baseline.json")),
        PathBuf::from("config/security/baseline.json")
    );
}

#[test]
fn resolves_paths_without_configuration_file() {
    let loaded = LoadedConfig {
        config: FermioConfig::default(),
        path: None,
    };
    assert_eq!(loaded.resolve_path("baseline.json"), "./baseline.json");
    assert_eq!(loaded.resolve_path("/abs/baseline.json"), "/abs/baseline.json");
    let loaded = LoadedConfig {
        config: FermioConfig::default(),
        path: Some(".fermio.toml".to_string()),
    };
    assert_eq!(loaded.resolve_path("baseline.json"), "baseline.json");
}

#[test]
fn rejects_unsupported_schema_versions() {
    let mut config = FermioConfig::default();
    config.schema_version = 2;
    let error = validate(&config).expect_err("unsupported schema versions must fail");
    assert!(error.message().contains("unsupported configuration schema"));
}

#[test]
fn rejects_conflicting_rule_selection() {
    let mut config = FermioConfig::default();
    config.rules.enabled = Some(vec!["RULE-A".to_string()]);
    config.rules.disabled = vec!["RULE-A".to_string()];
    let error = validate(&config).expect_err("conflicting selection must fail");
    assert!(error.message().contains("both enabled and disabled"));
}

#[test]
fn rejects_zero_limits_and_duplicates() {
    let mut config = FermioConfig::default();
    config.scan.max_files = Some(0);
    assert_eq!(
        validate(&config).expect_err("zero file limit").message(),
        "scan.max_files must be greater than zero"
    );
    let mut config = FermioConfig::default();
    config.rules.disabled = vec!["R".to_string(), "R".to_string()];
    assert_eq!(
        validate(&config).expect_err("duplicate rule").message(),
        "rules.disabled contains duplicate rule `R`"
    );
    let mut config = FermioConfig::default();
    config.rulepacks.paths = vec!["a.toml".to_string(), "a.toml".to_string()];
    assert_eq!(
        validate(&config).expect_err("duplicate rulepack").message(),
        "rulepacks.paths contains duplicate rulepack `a.toml`"
    );
    assert!(validate(&FermioConfig::default()).is_ok());
}

#[test]
fn resolves_paths_like_path_parent_at_the_edges() {
    let resolve = |config: &str, value: &str| {
        LoadedConfig {
            config: FermioConfig::default(),
            path: Some(config.to_string()),
        }
        .resolve_path(value)
    };
    assert_eq!(resolve("/", "x"), "./x");
    assert_eq!(resolve("/.fermio.toml", "x"), "/x");
    assert_eq!(resolve("cfg/", "x"), "x");
    assert_eq!(resolve("cfg/.", "x"), "x");
    assert_eq!(resolve("a//b/c.toml", "x"), "a//b/x");
    assert_eq!(resolve("./c.toml", "x"), "./x");
}

#[test]
fn rejects_a_rule_overridden_twice() {
    let mut config = FermioConfig::default();
    config.rules.severity = vec![
        ("R".to_string(), fermio::findings::Severity::Low),
        ("S".to_string(), fermio::findings::Severity::High),
        ("R".to_string(), fermio::findings::Severity::Critical),
    ];
    assert_eq!(
        validate(&config).expect_err("duplicate override").message(),
        "rules.severity contains duplicate rule `R`"
    );
}
