use fermio::findings::{Finding, SourceLocation};
use fermio::ir::{CallKind, Instruction, LiteralValue, ModuleIr, ValueId};
use fermio::object_sql::analyze_module;

fn location(line: usize) -> SourceLocation {
    SourceLocation {
        path: "src/example.php".to_string(),
        start_line: line,
        start_column: 1,
        end_line: line,
        end_column: 20,
    }
}

fn call(output: u32, target: &str, call_kind: CallKind, arguments: Vec<ValueId>, line: usize) -> Instruction {
    Instruction::Call {
        output: ValueId(output),
        target: target.to_string(),
        call_kind,
        arguments,
        location: location(line),
    }
}

fn tainted_input(source: &str) -> Vec<Instruction> {
    vec![
        Instruction::VariableRead {
            output: ValueId(0),
            name: source.to_string(),
            location: location(1),
        },
        Instruction::IndexRead {
            output: ValueId(1),
            collection: ValueId(0),
            index: None,
            location: location(1),
        },
    ]
}

fn module(instructions: Vec<Instruction>) -> ModuleIr {
    ModuleIr {
        language: "php".to_string(),
        path: "src/example.php".to_string(),
        instructions,
    }
}

fn findings(instructions: Vec<Instruction>) -> Vec<Finding> {
    analyze_module(&module(instructions))
}

#[test]
fn reports_tainted_pdo_query() {
    let mut instructions = tainted_input("$_GET");
    instructions.push(call(2, "PDO::query", CallKind::Method, vec![ValueId(1)], 2));
    let findings = findings(instructions);
    assert_eq!(findings.len(), 1);
    assert_eq!(findings[0].cwe.as_deref(), Some("CWE-89"));
    assert!(findings[0]
        .dataflow
        .iter()
        .any(|step| step.label.contains("PDO::query")));
}

#[test]
fn reports_tainted_mysqli_prepare_query_text() {
    let mut instructions = tainted_input("$_POST");
    instructions.push(call(2, "mysqli::prepare", CallKind::Method, vec![ValueId(1)], 2));
    assert_eq!(findings(instructions).len(), 1);
}

#[test]
fn pdo_quote_suppresses_object_sql_finding() {
    let mut instructions = tainted_input("$_REQUEST");
    instructions.push(call(2, "PDO::quote", CallKind::Method, vec![ValueId(1)], 2));
    instructions.push(call(3, "PDO::query", CallKind::Method, vec![ValueId(2)], 3));
    assert!(findings(instructions).is_empty());
}

#[test]
fn procedural_sql_sanitizer_suppresses_object_sink() {
    let mut instructions = tainted_input("$_GET");
    instructions.push(call(2, "mysql_real_escape_string", CallKind::Function, vec![ValueId(1)], 2));
    instructions.push(call(3, "mysqli::query", CallKind::Method, vec![ValueId(2)], 3));
    assert!(findings(instructions).is_empty());
}

#[test]
fn shell_sanitizer_does_not_hide_object_sql_taint() {
    let mut instructions = tainted_input("$_GET");
    instructions.push(call(2, "escapeshellarg", CallKind::Function, vec![ValueId(1)], 2));
    instructions.push(call(3, "PDO::exec", CallKind::Method, vec![ValueId(2)], 3));
    assert_eq!(findings(instructions).len(), 1);
}

#[test]
fn ignores_untyped_query_method() {
    let mut instructions = tainted_input("$_GET");
    instructions.push(call(2, "query", CallKind::Method, vec![ValueId(1)], 2));
    assert!(findings(instructions).is_empty());
}

#[test]
fn ignores_constant_object_query() {
    let instructions = vec![
        Instruction::Literal {
            output: ValueId(0),
            value: LiteralValue::String("'SELECT 1'".to_string()),
            location: location(1),
        },
        call(1, "PDO::query", CallKind::Method, vec![ValueId(0)], 1),
    ];
    assert!(findings(instructions).is_empty());
}

#[test]
fn object_sql_finding_describes_source_and_sink() {
    let mut instructions = tainted_input("$_GET");
    instructions.push(call(2, "\\PDO::query", CallKind::NullsafeMethod, vec![ValueId(1)], 2));
    let findings = findings(instructions);
    assert_eq!(findings.len(), 1);
    assert_eq!(findings[0].rule_id, "FERMIO-PHP-TAINT-SQL-OO-001");
    assert_eq!(
        findings[0].description,
        "Data originating from `$_GET` reaches `PDO::query` without recognized SQL sanitization or a fixed query boundary."
    );
    assert_eq!(findings[0].dataflow.len(), 3);
    assert_eq!(findings[0].dataflow[2].label, "Object SQL query sink `PDO::query`");
    assert_eq!(findings[0].fingerprint.len(), 64);
}

#[test]
fn variables_do_not_leak_out_of_functions() {
    let mut instructions = tainted_input("$_GET");
    instructions.push(Instruction::Assignment {
        target: "$query".to_string(),
        value: ValueId(1),
        location: location(2),
    });
    instructions.push(Instruction::FunctionStart {
        name: "helper".to_string(),
        parameters: Vec::new(),
        location: location(3),
    });
    instructions.push(Instruction::VariableRead {
        output: ValueId(5),
        name: "$query".to_string(),
        location: location(4),
    });
    instructions.push(call(6, "PDO::query", CallKind::Method, vec![ValueId(5)], 4));
    instructions.push(Instruction::FunctionEnd {
        name: "helper".to_string(),
        location: location(5),
    });
    instructions.push(Instruction::VariableRead {
        output: ValueId(7),
        name: "$query".to_string(),
        location: location(6),
    });
    instructions.push(call(8, "PDO::query", CallKind::Method, vec![ValueId(7)], 6));
    let findings = findings(instructions);
    assert_eq!(findings.len(), 1);
    assert_eq!(findings[0].location.start_line, 6);
}

#[test]
fn concatenation_stays_tainted_unless_all_parts_are_sanitized() {
    let mut instructions = tainted_input("$_GET");
    instructions.push(call(2, "PDO::quote", CallKind::Method, vec![ValueId(1)], 2));
    instructions.push(Instruction::Concatenate {
        output: ValueId(3),
        operands: vec![ValueId(2), ValueId(1)],
        location: location(3),
    });
    instructions.push(call(4, "PDO::query", CallKind::Method, vec![ValueId(3)], 4));
    instructions.push(Instruction::Concatenate {
        output: ValueId(5),
        operands: vec![ValueId(2), ValueId(2)],
        location: location(5),
    });
    instructions.push(call(6, "PDO::query", CallKind::Method, vec![ValueId(5)], 6));
    let findings = findings(instructions);
    assert_eq!(findings.len(), 1);
    assert_eq!(findings[0].location.start_line, 4);
}
