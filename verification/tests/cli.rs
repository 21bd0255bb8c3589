use fermio::cli::{
    apply_severity_overrides, fails_threshold, registered_rules, scan_settings, select_rules,
    DEFAULT_MAX_FILES,
};
use fermio::config::{validate, FermioConfig, LoadedConfig};
use fermio::findings::{
    Confidence, Finding, ProjectMetadata, ScanResult, ScanStatistics, Severity, SourceLocation,
};
use fermio::rules::Rule;
use std::collections::BTreeSet;

fn finding(rule_id: &str, severity: Severity, path: &str, line: usize, fingerprint: &str) -> Finding {
    Finding {
        rule_id: rule_id.to_string(),
        title: "Example".to_string(),
        description: "Example".to_string(),
        severity,
        confidence: Confidence::High,
        location: SourceLocation {
            path: path.to_string(),
            start_line: line,
            start_column: 1,
            end_line: line,
            end_column: 5,
        },
        fingerprint: fingerprint.to_string(),
        cwe: None,
        framework: None,
        dataflow: Vec::new(),
    }
}

fn result(findings: Vec<Finding>) -> ScanResult {
    ScanResult {
        project: ProjectMetadata {
            root: ".".to_string(),
            languages: vec!["php".to_string()],
            frameworks: Vec::new(),
        },
        statistics: ScanStatistics {
            findings: findings.len(),
            ..ScanStatistics::default()
        },
        diagnostics: Vec::new(),
        findings,
    }
}

#[test]
fn applies_severity_overrides_without_changing_fingerprint() {
    let mut result = result(vec![finding(
        "FERMIO-PHP-CORE-EVAL-001",
        Severity::High,
        "example.php",
        1,
        "stable",
    )]);
    let overrides = vec![("FERMIO-PHP-CORE-EVAL-001".to_string(), Severity::Critical)];

    apply_severity_overrides(&mut result, &overrides);
    assert_eq!(result.findings[0].severity, Severity::Critical);
    assert_eq!(result.findings[0].fingerprint, "stable");
}

#[test]
fn filters_registered_rules_from_configuration() {
    let mut config = FermioConfig::default();
    config.rules.enabled = Some(vec![
        "FERMIO-PHP-CORE-EVAL-001".to_string(),
        "FERMIO-PHP-TAINT-SQL-OO-001".to_string(),
    ]);
    config.rules.disabled = vec!["FERMIO-PHP-CORE-EVAL-001".to_string()];
    assert!(validate(&config).is_err(), "conflicting rule selection should fail early");

    let mut config = FermioConfig::default();
    config.rules.enabled = Some(vec![
        "FERMIO-PHP-CORE-EVAL-001".to_string(),
        "FERMIO-PHP-TAINT-SQL-OO-001".to_string(),
    ]);
    assert!(validate(&config).is_ok(), "configuration should parse");
    let selected = select_rules(&config, registered_rules()).expect("rule selection should succeed");
    let ids = selected.iter().map(|rule| rule.id()).collect::<BTreeSet<_>>();
    assert_eq!(ids.len(), 2);
    assert!(ids.contains("FERMIO-PHP-CORE-EVAL-001"));
    assert!(ids.contains("FERMIO-PHP-TAINT-SQL-OO-001"));
}

#[test]
fn rejects_unknown_rule_identifiers() {
    let mut config = FermioConfig::default();
    config.rules.disabled = vec!["FERMIO-UNKNOWN-001".to_string()];
    assert!(validate(&config).is_ok(), "configuration syntax should parse");
    let error = select_rules(&config, registered_rules())
        .err()
        .expect("unknown rules must fail");
    assert!(error.message().contains("unknown rule"));
}

#[test]
fn registers_nine_compiled_rules() {
    let ids = registered_rules().iter().map(|rule| rule.id()).collect::<Vec<_>>();
    assert_eq!(ids.len(), 9);
    assert_eq!(ids[0], "FERMIO-PHP-CORE-EVAL-001");
    assert_eq!(ids[8], "FERMIO-PHP-TAINT-SQL-OO-001");
}

#[test]
fn disabled_rules_are_removed_in_order() {
    let mut config = FermioConfig::default();
    config.rules.disabled = vec!["FERMIO-PHP-CORE-CMD-001".to_string()];
    let selected = select_rules(&config, registered_rules()).expect("selection should succeed");
    let ids = selected.iter().map(|rule| rule.id()).collect::<Vec<_>>();
    assert_eq!(ids.len(), 8);
    assert_eq!(ids[1], "FERMIO-PHP-CORE-DESERIALIZE-001");
}

#[test]
fn orders_findings_by_severity_path_and_line_stably() {
    let mut result = result(vec![
        finding("R-1", Severity::Low, "b.php", 1, "1"),
        finding("R-2", Severity::High, "b.php", 9, "2"),
        finding("R-3", Severity::High, "a.php", 5, "3"),
        finding("R-4", Severity::High, "b.php", 2, "4"),
        finding("R-5", Severity::High, "b.php", 2, "5"),
    ]);
    let overrides = vec![("R-1".to_string(), Severity::Critical)];
    apply_severity_overrides(&mut result, &overrides);
    let order = result
        .findings
        .iter()
        .map(|f| f.fingerprint.as_str())
        .collect::<Vec<_>>();
    assert_eq!(order, vec!["1", "3", "4", "5", "2"]);
}

#[test]
fn command_line_settings_take_precedence() {
    let mut loaded = LoadedConfig {
        config: FermioConfig::default(),
        path: Some("conf/.fermio.toml".to_string()),
    };
    loaded.config.scan.max_files = Some(5);
    loaded.config.scan.include_vendor = Some(true);
    loaded.config.scan.baseline = Some("base.json".to_string());
    let settings = scan_settings(false, None, Some(10), None, None, false, &loaded);
    assert!(settings.include_vendor);
    assert_eq!(settings.max_files, 5);
    assert_eq!(settings.max_file_size, 10);
    assert_eq!(settings.baseline.as_deref(), Some("conf/base.json"));
    let settings = scan_settings(false, Some(7), None, Some(Severity::Low), None, true, &loaded);
    assert_eq!(settings.max_files, 7);
    assert_eq!(settings.fail_on, Some(Severity::Low));
    assert_eq!(settings.baseline, None);
    let defaults = LoadedConfig {
        config: FermioConfig::default(),
        path: None,
    };
    let settings = scan_settings(false, None, None, None, None, false, &defaults);
    assert_eq!(settings.max_files, DEFAULT_MAX_FILES);
    assert_eq!(settings.max_file_size, 2 * 1024 * 1024);
}

#[test]
fn fails_only_at_or_above_the_threshold() {
    let findings = vec![finding("R", Severity::Medium, "a.php", 1, "x")];
    assert!(fails_threshold(&findings, Severity::Medium));
    assert!(fails_threshold(&findings, Severity::Low));
    assert!(!fails_threshold(&findings, Severity::High));
    assert!(!fails_threshold(&Vec::new(), Severity::Low));
}
