use fermio::findings::{
    Confidence, Finding, FindingBaseline, ProjectMetadata, ScanResult, ScanStatistics, Severity,
    SourceLocation,
};

fn finding(fingerprint: &str) -> Finding {
    Finding {
        rule_id: "RULE-001".to_string(),
        title: "Example".to_string(),
        description: "Example finding".to_string(),
        severity: Severity::High,
        confidence: Confidence::High,
        location: SourceLocation {
            path: "src/example.php".to_string(),
            start_line: 1,
            start_column: 1,
            end_line: 1,
            end_column: 10,
        },
        fingerprint: fingerprint.to_string(),
        cwe: None,
        framework: None,
        dataflow: Vec::new(),
    }
}

fn result(findings: Vec<Finding>) -> ScanResult {
    ScanResult {
        project: ProjectMetadata {
            root: ".".to_string(),
            languages: vec!["php".to_string()],
            frameworks: Vec::new(),
        },
        statistics: ScanStatistics {
            findings: findings.len(),
            ..ScanStatistics::default()
        },
        diagnostics: Vec::new(),
        findings,
    }
}

#[test]
fn baseline_deduplicates_and_sorts_fingerprints() {
    let result = result(vec![finding("b"), finding("a"), finding("b")]);
    let baseline = FindingBaseline::from_result(&result);

    assert_eq!(baseline.schema_version, FindingBaseline::SCHEMA_VERSION);
    assert_eq!(baseline.fingerprints, vec!["a", "b"]);
}

#[test]
fn baseline_suppresses_only_known_findings() {
    let baseline = FindingBaseline {
        schema_version: FindingBaseline::SCHEMA_VERSION,
        fingerprints: vec!["known".to_string()],
    };
    let mut result = result(vec![finding("known"), finding("new")]);

    assert_eq!(baseline.apply(&mut result), 1);
    assert_eq!(result.statistics.findings, 1);
    assert_eq!(result.statistics.suppressed_findings, 1);
    assert_eq!(result.findings[0].fingerprint, "new");
}

#[test]
fn baseline_of_a_result_suppresses_all_its_findings() {
    let mut result = result(vec![finding("c"), finding("a"), finding("c"), finding("b")]);
    let baseline = FindingBaseline::from_result(&result);
    assert_eq!(baseline.apply(&mut result), 4);
    assert!(result.findings.is_empty());
    assert_eq!(result.statistics.findings, 0);
    assert_eq!(result.statistics.suppressed_findings, 4);
}

#[test]
fn accepts_only_the_current_baseline_schema() {
    let current = FindingBaseline {
        schema_version: FindingBaseline::SCHEMA_VERSION,
        fingerprints: Vec::new(),
    };
    assert_eq!(current.check_schema_version(), Ok(()));
    let future = FindingBaseline {
        schema_version: 2,
        fingerprints: Vec::new(),
    };
    assert_eq!(future.check_schema_version(), Err(2));
}
