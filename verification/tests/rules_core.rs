use fermio::analysis::ModuleAnalysis;
use fermio::findings::SourceLocation;
use fermio::fingerprint::fingerprint;
use fermio::ir::{CallKind, Instruction, LiteralValue, ModuleIr, ValueId};
use fermio::rules::{built_in_rules, likely_secret_value, secret_name, HardcodedSecretRule, Rule};

fn location(path: &str, line: usize) -> SourceLocation {
    SourceLocation {
        path: path.to_string(),
        start_line: line,
        start_column: 1,
        end_line: line,
        end_column: 12,
    }
}

fn module(instructions: Vec<Instruction>) -> ModuleIr {
    ModuleIr {
        language: "php".to_string(),
        path: "src/config.php".to_string(),
        instructions,
    }
}

#[test]
fn fingerprint_is_sha256_of_rule_path_and_anchor() {
    assert_eq!(
        fingerprint("R", "x", &location("a\\b.php", 3)),
        "ebc4360876cc74a5642ffd0df2d7b69b16f05985ceae8fd89cd62f7649cc9b79"
    );
    assert_eq!(
        fingerprint("R", "x", &location("a\\b.php", 3)),
        fingerprint("R", "x", &location("a/b.php", 99))
    );
}

#[test]
fn reports_hard_coded_secret_with_redacted_description() {
    let m = module(vec![
        Instruction::Literal {
            output: ValueId(0),
            value: LiteralValue::String("'s3cr3t-value'".to_string()),
            location: location("src/config.php", 1),
        },
        Instruction::Assignment {
            target: "$api_key".to_string(),
            value: ValueId(0),
            location: location("src/config.php", 1),
        },
    ]);
    let findings = HardcodedSecretRule.evaluate(&ModuleAnalysis::new(&m));
    assert_eq!(findings.len(), 1);
    assert_eq!(
        findings[0].description,
        "The variable `$api_key` is assigned a non-empty hard-coded string. The value is redacted."
    );
    assert!(!findings[0].description.contains("s3cr3t"));
    assert_eq!(
        findings[0].fingerprint,
        "663c81296f82c6c7a36f6a9edcd55fa824e0053589116ac1942f0bc6dcc07ffd"
    );
}

#[test]
fn ignores_placeholder_and_short_secrets() {
    for value in ["'changeme'", "'abc'", "' Test '", "\"\""] {
        let m = module(vec![
            Instruction::Literal {
                output: ValueId(0),
                value: LiteralValue::String(value.to_string()),
                location: location("src/config.php", 1),
            },
            Instruction::Assignment {
                target: "$password".to_string(),
                value: ValueId(0),
                location: location("src/config.php", 1),
            },
        ]);
        assert!(HardcodedSecretRule.evaluate(&ModuleAnalysis::new(&m)).is_empty());
    }
}

#[test]
fn recognizes_secret_names_and_values() {
    assert!(secret_name("$DB_PASSWORD"));
    assert!(secret_name("$client-secret"));
    assert!(secret_name("$apiKey"));
    assert!(!secret_name("$username"));
    assert!(likely_secret_value("abcd"));
    assert!(!likely_secret_value("  SECRET  "));
    assert!(!likely_secret_value("abc"));
    assert!(likely_secret_value("ééé"));
}

#[test]
fn reports_plain_calls_of_dangerous_functions() {
    let m = module(vec![
        Instruction::Call {
            output: ValueId(0),
            target: "\\EVAL".to_string(),
            call_kind: CallKind::Function,
            arguments: Vec::new(),
            location: location("src/config.php", 4),
        },
        Instruction::Call {
            output: ValueId(1),
            target: "sha1".to_string(),
            call_kind: CallKind::Function,
            arguments: Vec::new(),
            location: location("src/config.php", 5),
        },
    ]);
    let analysis = ModuleAnalysis::new(&m);
    let rules = built_in_rules();
    let eval = rules[0].evaluate(&analysis);
    assert_eq!(eval.len(), 1);
    assert_eq!(eval[0].description, "The PHP function `eval` requires security review.");
    assert_eq!(eval[0].cwe.as_deref(), Some("CWE-95"));
    let crypto = rules[3].evaluate(&analysis);
    assert_eq!(crypto.len(), 1);
    assert_eq!(crypto[0].location.start_line, 5);
}
