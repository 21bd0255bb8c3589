use fermio::findings::{
    Confidence, DataflowStep, Diagnostic, DiagnosticSeverity, Finding, ProjectMetadata, ScanResult,
    ScanStatistics, Severity, SourceLocation,
};
use fermio::report::{display_frameworks, sarif_level, sarif_report, terminal_report};

fn location(line: usize) -> SourceLocation {
    SourceLocation {
        path: "src/example.php".to_string(),
        start_line: line,
        start_column: 1,
        end_line: line,
        end_column: 15,
    }
}

fn result() -> ScanResult {
    ScanResult {
        project: ProjectMetadata {
            root: ".".to_string(),
            languages: vec!["php".to_string()],
            frameworks: Vec::new(),
        },
        statistics: ScanStatistics {
            findings: 1,
            ..ScanStatistics::default()
        },
        diagnostics: Vec::new(),
        findings: vec![Finding {
            rule_id: "FERMIO-PHP-TAINT-CMD-001".to_string(),
            title: "User-controlled command execution".to_string(),
            description: "Untrusted data reaches system.".to_string(),
            severity: Severity::Critical,
            confidence: Confidence::High,
            location: location(3),
            fingerprint: "abc123".to_string(),
            cwe: Some("CWE-78".to_string()),
            framework: None,
            dataflow: vec![
                DataflowStep {
                    label: "Untrusted input from `$_GET`".to_string(),
                    location: location(1),
                },
                DataflowStep {
                    label: "Command execution sink `system`".to_string(),
                    location: location(3),
                },
            ],
        }],
    }
}

#[test]
fn writes_sarif_with_fingerprint_and_code_flow() {
    let report = sarif_report(&result());
    let result = &report.results[0];
    assert_eq!(report.version, "2.1.0");
    assert_eq!(result.fingerprint, "abc123");
    assert_eq!(result.rule_index, 0);
    assert_eq!(result.code_flow.len(), 2);
}

#[test]
fn sarif_rules_are_sorted_and_indexed() {
    let mut r = result();
    let mut second = r.findings[0].clone();
    second.rule_id = "FERMIO-A-001".to_string();
    second.location.path = "src\\win.php".to_string();
    second.severity = Severity::Low;
    second.confidence = Confidence::Medium;
    r.findings.push(second);
    let report = sarif_report(&r);
    assert_eq!(report.rules.len(), 2);
    assert_eq!(report.rules[0].id, "FERMIO-A-001");
    assert_eq!(report.results[0].rule_index, 1);
    assert_eq!(report.results[1].rule_index, 0);
    assert_eq!(report.results[1].level, "note");
    assert_eq!(report.results[1].confidence, "medium");
    assert_eq!(report.results[1].location.uri, "src/win.php");
    assert_eq!(report.rules[1].cwe.as_deref(), Some("CWE-78"));
}

#[test]
fn maps_severities_to_sarif_levels() {
    assert_eq!(sarif_level(Severity::Low), "note");
    assert_eq!(sarif_level(Severity::Medium), "warning");
    assert_eq!(sarif_level(Severity::High), "error");
    assert_eq!(sarif_level(Severity::Critical), "error");
}

#[test]
fn lists_frameworks_or_generic_php() {
    assert_eq!(display_frameworks(&Vec::new()), "generic-php");
    assert_eq!(
        display_frameworks(&vec!["laravel".to_string(), "wordpress".to_string()]),
        "laravel, wordpress"
    );
}

#[test]
fn writes_terminal_report() {
    let mut r = result();
    r.diagnostics.push(Diagnostic {
        code: "PHP-PARSE-001".to_string(),
        message: "Syntax error".to_string(),
        severity: DiagnosticSeverity::Error,
        location: Some(location(7)),
    });
    let text = terminal_report(&r);
    let expected = [
        "Fermio Security scan\n",
        "Root: .\n",
        "Languages: php\n",
        "Frameworks: generic-php\n",
        "Files discovered: 0\n",
        "Files parsed: 0\n",
        "Files skipped: 0\n",
        "Diagnostics: 0\n",
        "Suppressed findings: 0\n",
        "Findings: 1\n",
        "\n",
        "Error PHP-PARSE-001 src/example.php:7:1\n",
        "  Syntax error\n",
        "\n",
        "Critical FERMIO-PHP-TAINT-CMD-001 src/example.php:3:1\n",
        "  User-controlled command execution\n",
        "  Untrusted data reaches system.\n",
        "    -> Untrusted input from `$_GET` at src/example.php:1:1\n",
        "    -> Command execution sink `system` at src/example.php:3:1\n",
        "\n",
    ]
    .concat();
    assert_eq!(text, expected);
}
