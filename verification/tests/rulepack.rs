use fermio::analysis::ModuleAnalysis;
use fermio::findings::{Confidence, Severity, SourceLocation};
use fermio::ir::{CallKind, Instruction, LiteralValue, ModuleIr, ValueId};
use fermio::rulepack::{
    built_in_rules, is_valid_cwe, is_valid_rule_id, rules_from_pack, validate_rule, ArgumentMatcher,
    RuleCallKind, RuleDefinition, RulepackDefinition, RulepackError,
};
use fermio::rules::Rule;

fn location(line: usize) -> SourceLocation {
    SourceLocation {
        path: "src/example.php".to_string(),
        start_line: line,
        start_column: 1,
        end_line: line,
        end_column: 20,
    }
}

fn call_module(target: &str, call_kind: CallKind, literal: Option<&str>) -> ModuleIr {
    let mut instructions = Vec::new();
    let arguments = if let Some(value) = literal {
        instructions.push(Instruction::Literal {
            output: ValueId(0),
            value: LiteralValue::String(format!("'{value}'")),
            location: location(1),
        });
        vec![ValueId(0)]
    } else {
        Vec::new()
    };
    instructions.push(Instruction::Call {
        output: ValueId(1),
        target: target.to_string(),
        call_kind,
        arguments,
        location: location(2),
    });
    ModuleIr {
        language: "php".to_string(),
        path: "src/example.php".to_string(),
        instructions,
    }
}

fn definition(id: &str, title: &str, description: &str, target: &str) -> RuleDefinition {
    RuleDefinition {
        id: id.to_string(),
        title: title.to_string(),
        description: description.to_string(),
        severity: Severity::Low,
        confidence: Confidence::High,
        cwe: None,
        frameworks: Vec::new(),
        targets: vec![target.to_string()],
        call_kinds: vec![RuleCallKind::Function],
        argument: None,
    }
}

#[test]
fn activates_rules_only_for_detected_frameworks() {
    let rules = built_in_rules(&["laravel".to_string()]).expect("built-ins should parse");
    let laravel = rules
        .iter()
        .find(|rule| rule.id() == "FERMIO-LARAVEL-DEBUG-DD-001")
        .expect("Laravel rule should exist");
    let symfony = rules
        .iter()
        .find(|rule| rule.id() == "FERMIO-SYMFONY-PROCESS-SHELL-001")
        .expect("Symfony rule should exist");
    let module = call_module("dd", CallKind::Function, None);
    let analysis = ModuleAnalysis::new(&module);
    assert_eq!(laravel.evaluate(&analysis).len(), 1);
    assert!(symfony.evaluate(&analysis).is_empty());
}

#[test]
fn matches_literal_argument_prefix() {
    let rules = built_in_rules(&["wordpress".to_string()]).expect("built-ins should parse");
    let rule = rules
        .iter()
        .find(|rule| rule.id() == "FERMIO-WORDPRESS-AJAX-NOPRIV-001")
        .expect("WordPress rule should exist");
    let module = call_module("add_action", CallKind::Function, Some("wp_ajax_nopriv_export_data"));
    let findings = rule.evaluate(&ModuleAnalysis::new(&module));
    assert_eq!(findings.len(), 1);
    assert_eq!(findings[0].framework.as_deref(), Some("wordpress"));
}

#[test]
fn rejects_duplicate_rule_ids() {
    let pack = RulepackDefinition {
        schema_version: 1,
        id: "test.pack".to_string(),
        version: "1.0.0".to_string(),
        rules: vec![
            definition("FERMIO-TEST-001", "Test", "Test rule", "test"),
            definition("FERMIO-TEST-001", "Duplicate", "Duplicate rule", "duplicate"),
        ],
    };
    let error = rules_from_pack(pack, &[]).err().expect("duplicate IDs must fail");
    assert!(error.message().contains("duplicate rule id"));
}

#[test]
fn framework_matching_ignores_ascii_case() {
    let rules = built_in_rules(&["LaRaVeL".to_string()]).expect("built-ins should parse");
    let laravel = rules
        .iter()
        .find(|rule| rule.id() == "FERMIO-LARAVEL-DEBUG-DD-001")
        .expect("Laravel rule should exist");
    let module = call_module("\\DD", CallKind::Function, None);
    let findings = laravel.evaluate(&ModuleAnalysis::new(&module));
    assert_eq!(findings.len(), 1);
    assert_eq!(findings[0].framework.as_deref(), Some("laravel"));
}

#[test]
fn argument_prefix_that_does_not_match_reports_nothing() {
    let rules = built_in_rules(&["wordpress".to_string()]).expect("built-ins should parse");
    let rule = rules
        .iter()
        .find(|rule| rule.id() == "FERMIO-WORDPRESS-AJAX-NOPRIV-001")
        .expect("WordPress rule should exist");
    let module = call_module("add_action", CallKind::Function, Some("WP_AJAX_NOPRIV_export"));
    assert!(rule.evaluate(&ModuleAnalysis::new(&module)).is_empty());
    let module = call_module("add_action", CallKind::Function, None);
    assert!(rule.evaluate(&ModuleAnalysis::new(&module)).is_empty());
}

#[test]
fn built_in_pack_has_six_rules() {
    let rules = built_in_rules(&[]).expect("built-ins should parse");
    assert_eq!(rules.len(), 6);
}

#[test]
fn validates_rule_identifiers_and_cwes() {
    assert!(is_valid_rule_id("FERMIO-ACME-DEBUG-001"));
    assert!(!is_valid_rule_id("FERMIO-acme-001"));
    assert!(!is_valid_rule_id("ACME-001"));
    assert!(is_valid_cwe("CWE-489"));
    assert!(!is_valid_cwe("CWE-"));
    assert!(!is_valid_cwe("CWE-12a"));
}

#[test]
fn reports_each_rule_problem() {
    let mut rule = definition("FERMIO-TEST-001", "Test", "Test rule", "test");
    rule.title = "  ".to_string();
    assert!(matches!(validate_rule(&rule), Err(RulepackError::EmptyTitle(_))));

    let mut rule = definition("FERMIO-TEST-001", "Test", "Test rule", "test");
    rule.targets = vec!["\\Test".to_string(), "test".to_string()];
    let error = validate_rule(&rule).err().expect("duplicate targets must fail");
    assert_eq!(error.message(), "rule `FERMIO-TEST-001` contains duplicate targets value `test`");

    let mut rule = definition("FERMIO-TEST-001", "Test", "Test rule", "test");
    rule.cwe = Some("CWE-X".to_string());
    let error = validate_rule(&rule).err().expect("invalid CWE must fail");
    assert_eq!(error.message(), "rule `FERMIO-TEST-001` has invalid CWE identifier `CWE-X`");

    let mut rule = definition("FERMIO-TEST-001", "Test", "Test rule", "test");
    rule.argument = Some(ArgumentMatcher {
        index: 32,
        string_equals: Some("x".to_string()),
        string_prefix: None,
        case_sensitive: None,
    });
    let error = validate_rule(&rule).err().expect("large index must fail");
    assert_eq!(error.message(), "rule `FERMIO-TEST-001` argument index exceeds the limit of 31");

    let mut rule = definition("FERMIO-TEST-001", "Test", "Test rule", "test");
    rule.call_kinds = Vec::new();
    let error = validate_rule(&rule).err().expect("missing call kinds must fail");
    assert_eq!(error.message(), "rule `FERMIO-TEST-001` must define at least one call kind");
}

#[test]
fn rejects_unsupported_pack_schema() {
    let pack = RulepackDefinition {
        schema_version: 2,
        id: "test.pack".to_string(),
        version: "1.0.0".to_string(),
        rules: vec![definition("FERMIO-TEST-001", "Test", "Test rule", "test")],
    };
    let error = rules_from_pack(pack, &[]).err().expect("schema 2 must fail");
    assert_eq!(error.message(), "unsupported rulepack schema version 2; expected 1");
}

#[test]
fn rulepack_files_above_one_mebibyte_are_refused() {
    assert!(!fermio::rulepack::exceeds_rulepack_limit(1024 * 1024));
    assert!(fermio::rulepack::exceeds_rulepack_limit(1024 * 1024 + 1));
}
