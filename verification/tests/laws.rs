use fermio::analysis::ModuleAnalysis;
use fermio::cli::{apply_severity_overrides, fails_threshold};
use fermio::findings::{
    Confidence, Finding, FindingBaseline, ProjectMetadata, ScanResult, ScanStatistics, Severity,
    SourceLocation,
};
use fermio::fingerprint::fingerprint;
use fermio::ir::{CallKind, Instruction, ModuleIr, OutputKind, ValueId};
use fermio::object_sql::analyze_module;
use fermio::php::{LanguageFrontend, PhpFrontend, SourceFile};
use fermio::rulepack::{rules_from_pack, RuleCallKind, RuleDefinition, RulepackDefinition};
use fermio::ir::LiteralValue;
use fermio::rules::{HardcodedSecretRule, Rule, TaintedCommandRule, TaintedHtmlOutputRule, TaintedSqlRule};

fn location(path: &str, line: usize) -> SourceLocation {
    SourceLocation {
        path: path.to_string(),
        start_line: line,
        start_column: 1,
        end_line: line,
        end_column: 10,
    }
}

fn finding(rule_id: &str, severity: Severity, line: usize, fingerprint: &str) -> Finding {
    Finding {
        rule_id: rule_id.to_string(),
        title: "Example".to_string(),
        description: "Example".to_string(),
        severity,
        confidence: Confidence::High,
        location: location("src/a.php", line),
        fingerprint: fingerprint.to_string(),
        cwe: None,
        framework: None,
        dataflow: Vec::new(),
    }
}

fn result(findings: Vec<Finding>) -> ScanResult {
    ScanResult {
        project: ProjectMetadata {
            root: ".".to_string(),
            languages: vec!["php".to_string()],
            frameworks: Vec::new(),
        },
        statistics: ScanStatistics {
            findings: findings.len(),
            ..ScanStatistics::default()
        },
        diagnostics: Vec::new(),
        findings,
    }
}

fn module(instructions: Vec<Instruction>) -> ModuleIr {
    ModuleIr {
        language: "php".to_string(),
        path: "src/page.php".to_string(),
        instructions,
    }
}

fn tainted(output: u32, line: usize) -> Vec<Instruction> {
    vec![
        Instruction::VariableRead {
            output: ValueId(output),
            name: "$_GET".to_string(),
            location: location("src/page.php", line),
        },
        Instruction::IndexRead {
            output: ValueId(output + 1),
            collection: ValueId(output),
            index: None,
            location: location("src/page.php", line),
        },
    ]
}

fn call(output: u32, target: &str, call_kind: CallKind, arguments: Vec<ValueId>, line: usize) -> Instruction {
    Instruction::Call {
        output: ValueId(output),
        target: target.to_string(),
        call_kind,
        arguments,
        location: location("src/page.php", line),
    }
}

#[test]
fn applying_a_baseline_twice_changes_nothing() {
    let baseline = FindingBaseline {
        schema_version: FindingBaseline::SCHEMA_VERSION,
        fingerprints: vec!["old".to_string()],
    };
    let mut scan = result(vec![
        finding("R", Severity::Low, 1, "new"),
        finding("R", Severity::Low, 2, "old"),
        finding("R", Severity::Low, 3, "newer"),
    ]);
    assert_eq!(baseline.apply(&mut scan), 1);
    assert_eq!(baseline.apply(&mut scan), 0);
    let kept: Vec<&str> = scan.findings.iter().map(|f| f.fingerprint.as_str()).collect();
    assert_eq!(kept, vec!["new", "newer"]);
    assert_eq!(scan.statistics.suppressed_findings, 1);
}

#[test]
fn overrides_keep_every_fingerprint_and_baseline() {
    let mut scan = result(vec![
        finding("A", Severity::Low, 1, "fa"),
        finding("B", Severity::High, 2, "fb"),
        finding("A", Severity::Medium, 3, "fc"),
    ]);
    let baseline = FindingBaseline::from_result(&scan);
    apply_severity_overrides(&mut scan, &vec![("A".to_string(), Severity::Critical)]);
    let mut fingerprints: Vec<&str> = scan.findings.iter().map(|f| f.fingerprint.as_str()).collect();
    fingerprints.sort();
    assert_eq!(fingerprints, vec!["fa", "fb", "fc"]);
    assert_eq!(scan.findings[0].severity, Severity::Critical);
    assert_eq!(scan.findings[0].fingerprint, "fa");
    assert_eq!(scan.findings[1].fingerprint, "fc");
    assert_eq!(scan.findings[2].fingerprint, "fb");
    assert_eq!(baseline.apply(&mut scan), 3);
}

#[test]
fn fingerprint_ignores_line_and_path_separator() {
    let windows = fingerprint("R", "anchor", &location("src\\a.php", 1));
    let unix = fingerprint("R", "anchor", &location("src/a.php", 40));
    assert_eq!(windows, unix);
    assert_ne!(unix, fingerprint("R", "anchor", &location("src/b.php", 1)));
    assert_ne!(unix, fingerprint("R", "other", &location("src/a.php", 1)));
}

#[test]
fn baseline_findings_no_longer_fail_the_threshold() {
    let mut scan = result(vec![
        finding("R", Severity::Critical, 1, "known"),
        finding("R", Severity::Low, 2, "fresh"),
    ]);
    assert!(fails_threshold(&scan.findings, Severity::High));
    assert!(fails_threshold(&scan.findings, Severity::Low));
    let baseline = FindingBaseline {
        schema_version: FindingBaseline::SCHEMA_VERSION,
        fingerprints: vec!["known".to_string()],
    };
    baseline.apply(&mut scan);
    assert!(!fails_threshold(&scan.findings, Severity::High));
    assert!(fails_threshold(&scan.findings, Severity::Low));
}

#[test]
fn command_sanitizer_keeps_sql_and_html_danger() {
    let mut instructions = tainted(0, 1);
    instructions.push(call(2, "escapeshellarg", CallKind::Function, vec![ValueId(1)], 2));
    instructions.push(call(3, "system", CallKind::Function, vec![ValueId(2)], 3));
    instructions.push(call(4, "mysql_query", CallKind::Function, vec![ValueId(2)], 4));
    instructions.push(Instruction::Output {
        output: None,
        output_kind: OutputKind::Echo,
        values: vec![ValueId(2)],
        location: location("src/page.php", 5),
    });
    let m = module(instructions);
    let analysis = ModuleAnalysis::new(&m);
    assert!(TaintedCommandRule.evaluate(&analysis).is_empty());
    assert_eq!(TaintedSqlRule.evaluate(&analysis).len(), 1);
    assert_eq!(TaintedHtmlOutputRule.evaluate(&analysis).len(), 1);
}

#[test]
fn echo_of_several_tainted_values_reports_once() {
    let mut instructions = tainted(0, 1);
    instructions.extend(tainted(2, 2));
    instructions.push(Instruction::Output {
        output: None,
        output_kind: OutputKind::Echo,
        values: vec![ValueId(1), ValueId(3)],
        location: location("src/page.php", 3),
    });
    let m = module(instructions);
    assert_eq!(TaintedHtmlOutputRule.evaluate(&ModuleAnalysis::new(&m)).len(), 1);
}

#[test]
fn print_result_is_not_tainted() {
    let mut instructions = tainted(0, 1);
    instructions.push(Instruction::Output {
        output: Some(ValueId(2)),
        output_kind: OutputKind::Print,
        values: vec![ValueId(1)],
        location: location("src/page.php", 2),
    });
    instructions.push(Instruction::Assignment {
        target: "$r".to_string(),
        value: ValueId(2),
        location: location("src/page.php", 2),
    });
    instructions.push(Instruction::VariableRead {
        output: ValueId(3),
        name: "$r".to_string(),
        location: location("src/page.php", 3),
    });
    instructions.push(Instruction::Output {
        output: None,
        output_kind: OutputKind::Echo,
        values: vec![ValueId(3)],
        location: location("src/page.php", 3),
    });
    let m = module(instructions);
    let findings = TaintedHtmlOutputRule.evaluate(&ModuleAnalysis::new(&m));
    assert_eq!(findings.len(), 1);
    assert_eq!(findings[0].location.start_line, 2);
}

#[test]
fn concatenation_with_one_unencoded_part_is_reported() {
    let mut instructions = tainted(0, 1);
    instructions.push(call(2, "htmlspecialchars", CallKind::Function, vec![ValueId(1)], 2));
    instructions.extend(tainted(3, 3));
    instructions.push(Instruction::Concatenate {
        output: ValueId(5),
        operands: vec![ValueId(2), ValueId(4)],
        location: location("src/page.php", 4),
    });
    instructions.push(Instruction::Concatenate {
        output: ValueId(6),
        operands: vec![ValueId(2), ValueId(2)],
        location: location("src/page.php", 5),
    });
    instructions.push(Instruction::Output {
        output: None,
        output_kind: OutputKind::Echo,
        values: vec![ValueId(5)],
        location: location("src/page.php", 6),
    });
    instructions.push(Instruction::Output {
        output: None,
        output_kind: OutputKind::Echo,
        values: vec![ValueId(6)],
        location: location("src/page.php", 7),
    });
    let m = module(instructions);
    let findings = TaintedHtmlOutputRule.evaluate(&ModuleAnalysis::new(&m));
    assert_eq!(findings.len(), 1);
    assert_eq!(findings[0].location.start_line, 6);
}

#[test]
fn html_encoding_does_not_protect_object_sql() {
    let mut instructions = tainted(0, 1);
    instructions.push(call(2, "htmlspecialchars", CallKind::Function, vec![ValueId(1)], 2));
    instructions.push(call(3, "PDO::query", CallKind::Method, vec![ValueId(2)], 3));
    assert_eq!(analyze_module(&module(instructions)).len(), 1);
}

#[test]
fn framework_free_rule_always_runs_and_framework_rule_needs_detection() {
    let definition = |id: &str, frameworks: Vec<String>| RuleDefinition {
        id: id.to_string(),
        title: "Debug output".to_string(),
        description: "A debug helper is called.".to_string(),
        severity: Severity::Low,
        confidence: Confidence::High,
        cwe: None,
        frameworks,
        targets: vec!["var_dump".to_string()],
        call_kinds: vec![RuleCallKind::Function],
        argument: None,
    };
    let pack = RulepackDefinition {
        schema_version: 1,
        id: "local".to_string(),
        version: "1.0.0".to_string(),
        rules: vec![
            definition("FERMIO-LOCAL-ANY-001", Vec::new()),
            definition("FERMIO-LOCAL-LARAVEL-001", vec!["laravel".to_string()]),
        ],
    };
    let rules = rules_from_pack(pack, &["symfony".to_string()]).expect("pack is valid");
    let m = module(vec![call(0, "var_dump", CallKind::Function, Vec::new(), 1)]);
    let analysis = ModuleAnalysis::new(&m);
    assert_eq!(rules[0].evaluate(&analysis).len(), 1);
    assert!(rules[1].evaluate(&analysis).is_empty());
}

fn lower_php(source: &str) -> Vec<Instruction> {
    PhpFrontend::new()
        .parse_and_lower(&SourceFile {
            path: "scope.php".to_string(),
            content: source.to_string(),
        })
        .expect("frontend should lower PHP")
        .module
        .instructions
}

fn call_targets(instructions: &[Instruction]) -> Vec<String> {
    instructions
        .iter()
        .filter_map(|instruction| match instruction {
            Instruction::Call { target, .. } => Some(target.clone()),
            _ => None,
        })
        .collect()
}

#[test]
fn function_bodies_do_not_see_or_change_caller_classes() {
    let instructions = lower_php(
        "<?php $db = new PDO($dsn); function f() { $db->query($x); $db = new mysqli(); } $db->query($y);",
    );
    let targets = call_targets(&instructions);
    assert_eq!(targets, vec!["query".to_string(), "PDO::query".to_string()]);
}

#[test]
fn echo_statement_ends_in_one_output_with_all_values() {
    let instructions = lower_php("<?php echo $a, $b, $c;");
    let outputs: Vec<&Instruction> = instructions
        .iter()
        .filter(|instruction| matches!(instruction, Instruction::Output { .. }))
        .collect();
    assert_eq!(outputs.len(), 1);
    match instructions.last() {
        Some(Instruction::Output { output: None, output_kind: OutputKind::Echo, values, .. }) => {
            assert_eq!(values.len(), 3)
        },
        other => panic!("unexpected last instruction: {other:?}"),
    }
}

#[test]
fn helper_echo_reached_by_two_parameters_reports_once() {
    let mut instructions = vec![
        Instruction::FunctionStart {
            name: "render".to_string(),
            parameters: vec!["$a".to_string(), "$b".to_string()],
            location: location("src/page.php", 1),
        },
        Instruction::VariableRead {
            output: ValueId(10),
            name: "$a".to_string(),
            location: location("src/page.php", 2),
        },
        Instruction::VariableRead {
            output: ValueId(11),
            name: "$b".to_string(),
            location: location("src/page.php", 2),
        },
        Instruction::Output {
            output: None,
            output_kind: OutputKind::Echo,
            values: vec![ValueId(10), ValueId(11)],
            location: location("src/page.php", 2),
        },
        Instruction::FunctionEnd {
            name: "render".to_string(),
            location: location("src/page.php", 3),
        },
    ];
    instructions.extend(tainted(0, 4));
    instructions.push(call(2, "render", CallKind::Function, vec![ValueId(1), ValueId(1)], 5));
    let m = module(instructions);
    let findings = TaintedHtmlOutputRule.evaluate(&ModuleAnalysis::new(&m));
    assert_eq!(findings.len(), 1);
    assert_eq!(findings[0].location.start_line, 5);
}

fn secret_module(value: &str) -> ModuleIr {
    module(vec![
        Instruction::Literal {
            output: ValueId(0),
            value: LiteralValue::String(format!("'{value}'")),
            location: location("src/page.php", 1),
        },
        Instruction::Assignment {
            target: "$api_key".to_string(),
            value: ValueId(0),
            location: location("src/page.php", 1),
        },
    ])
}

#[test]
fn secret_findings_do_not_depend_on_the_value() {
    let first_module = secret_module("sk-live-1234567890");
    let second_module = secret_module("another-real-credential");
    let first = HardcodedSecretRule.evaluate(&ModuleAnalysis::new(&first_module));
    let second = HardcodedSecretRule.evaluate(&ModuleAnalysis::new(&second_module));
    assert_eq!(first.len(), 1);
    assert_eq!(second.len(), 1);
    assert_eq!(first[0].description, second[0].description);
    assert_eq!(first[0].fingerprint, second[0].fingerprint);
    assert!(!first[0].description.contains("sk-live"));
    assert!(first[0].dataflow.is_empty());
}
