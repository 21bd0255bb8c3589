use fermio::analysis::ModuleAnalysis;
use fermio::findings::SourceLocation;
use fermio::ir::{CallKind, Instruction, LiteralValue, ModuleIr, OutputKind, ValueId};
use fermio::rules::{built_in_rules, Rule, TaintedCommandRule, TaintedHtmlOutputRule, TaintedSqlRule};

fn location(line: usize) -> SourceLocation {
    SourceLocation {
        path: "src/example.php".to_string(),
        start_line: line,
        start_column: 1,
        end_line: line,
        end_column: 12,
    }
}

fn call(output: u32, target: &str, arguments: Vec<ValueId>, line: usize) -> Instruction {
    Instruction::Call {
        output: ValueId(output),
        target: target.to_string(),
        call_kind: CallKind::Function,
        arguments,
        location: location(line),
    }
}

fn output(output_kind: OutputKind, values: Vec<ValueId>, line: usize) -> Instruction {
    Instruction::Output {
        output: None,
        output_kind,
        values,
        location: location(line),
    }
}

fn tainted_input(source: &str) -> Vec<Instruction> {
    vec![
        Instruction::VariableRead {
            output: ValueId(0),
            name: source.to_string(),
            location: location(1),
        },
        Instruction::IndexRead {
            output: ValueId(1),
            collection: ValueId(0),
            index: None,
            location: location(1),
        },
    ]
}

fn literal(output: u32, value: &str, line: usize) -> Instruction {
    Instruction::Literal {
        output: ValueId(output),
        value: LiteralValue::String(value.to_string()),
        location: location(line),
    }
}

fn function_start(name: &str, parameters: &[&str], line: usize) -> Instruction {
    Instruction::FunctionStart {
        name: name.to_string(),
        parameters: parameters.iter().map(|value| (*value).to_string()).collect(),
        location: location(line),
    }
}

fn function_end(name: &str, line: usize) -> Instruction {
    Instruction::FunctionEnd {
        name: name.to_string(),
        location: location(line),
    }
}

fn parameter_read(output: u32, name: &str, line: usize) -> Instruction {
    Instruction::VariableRead {
        output: ValueId(output),
        name: name.to_string(),
        location: location(line),
    }
}

fn module(path: &str, instructions: Vec<Instruction>) -> ModuleIr {
    ModuleIr {
        language: "php".to_string(),
        path: path.to_string(),
        instructions,
    }
}

#[test]
fn reports_direct_command_sql_and_html_sinks() {
    let mut command = tainted_input("$_GET");
    command.push(call(2, "system", vec![ValueId(1)], 2));
    let command_module = module("src/command.php", command);
    assert_eq!(
        TaintedCommandRule
            .evaluate(&ModuleAnalysis::new(&command_module))
            .len(),
        1
    );

    let mut sql = tainted_input("$_POST");
    sql.push(literal(2, "'connection'", 2));
    sql.push(call(3, "mysqli_query", vec![ValueId(2), ValueId(1)], 3));
    let sql_module = module("src/sql.php", sql);
    assert_eq!(
        TaintedSqlRule.evaluate(&ModuleAnalysis::new(&sql_module)).len(),
        1
    );

    let mut html = tainted_input("$_REQUEST");
    html.push(output(OutputKind::Echo, vec![ValueId(1)], 2));
    let html_module = module("src/html.php", html);
    assert_eq!(
        TaintedHtmlOutputRule
            .evaluate(&ModuleAnalysis::new(&html_module))
            .len(),
        1
    );
}

#[test]
fn propagates_taint_through_function_return_summary() {
    let mut instructions = vec![
        function_start("passthrough", &["$value"], 1),
        parameter_read(10, "$value", 2),
        Instruction::Return {
            value: Some(ValueId(10)),
            location: location(2),
        },
        function_end("passthrough", 3),
    ];
    instructions.extend(tainted_input("$_GET"));
    instructions.push(call(2, "passthrough", vec![ValueId(1)], 5));
    instructions.push(call(3, "system", vec![ValueId(2)], 6));
    let module = module("src/example.php", instructions);
    assert_eq!(
        TaintedCommandRule.evaluate(&ModuleAnalysis::new(&module)).len(),
        1
    );
}

#[test]
fn reports_command_sink_inside_helper_at_call_site() {
    let mut instructions = vec![
        function_start("run_command", &["$command"], 1),
        parameter_read(10, "$command", 2),
        call(11, "system", vec![ValueId(10)], 2),
        function_end("run_command", 3),
    ];
    instructions.extend(tainted_input("$_GET"));
    instructions.push(call(2, "run_command", vec![ValueId(1)], 5));
    let module = module("src/example.php", instructions);
    let findings = TaintedCommandRule.evaluate(&ModuleAnalysis::new(&module));
    assert_eq!(findings.len(), 1);
    assert_eq!(findings[0].location.start_line, 5);
    assert!(findings[0]
        .dataflow
        .iter()
        .any(|step| step.label.contains("run_command")));
    assert!(findings[0]
        .dataflow
        .iter()
        .any(|step| step.label.contains("system")));
}

#[test]
fn reports_sql_and_html_sinks_inside_helpers() {
    let instructions = vec![
        function_start("run_query", &["$connection", "$query"], 1),
        parameter_read(10, "$connection", 2),
        parameter_read(11, "$query", 2),
        call(12, "mysqli_query", vec![ValueId(10), ValueId(11)], 2),
        function_end("run_query", 3),
        function_start("render", &["$value"], 4),
        parameter_read(13, "$value", 5),
        output(OutputKind::Echo, vec![ValueId(13)], 5),
        function_end("render", 6),
        Instruction::VariableRead {
            output: ValueId(0),
            name: "$_POST".to_string(),
            location: location(7),
        },
        Instruction::IndexRead {
            output: ValueId(1),
            collection: ValueId(0),
            index: None,
            location: location(7),
        },
        literal(2, "'connection'", 7),
        call(3, "run_query", vec![ValueId(2), ValueId(1)], 8),
        call(4, "render", vec![ValueId(1)], 9),
    ];
    let module = module("src/example.php", instructions);
    let analysis = ModuleAnalysis::new(&module);
    let sql = TaintedSqlRule.evaluate(&analysis);
    let html = TaintedHtmlOutputRule.evaluate(&analysis);
    assert_eq!(sql.len(), 1);
    assert_eq!(sql[0].location.start_line, 8);
    assert_eq!(html.len(), 1);
    assert_eq!(html[0].location.start_line, 9);
}

#[test]
fn resolves_nested_sink_summaries_to_fixed_point() {
    let mut instructions = vec![
        function_start("outer", &["$value"], 1),
        parameter_read(10, "$value", 2),
        call(11, "inner", vec![ValueId(10)], 2),
        function_end("outer", 3),
        function_start("inner", &["$value"], 4),
        parameter_read(12, "$value", 5),
        call(13, "system", vec![ValueId(12)], 5),
        function_end("inner", 6),
    ];
    instructions.extend(tainted_input("$_GET"));
    instructions.push(call(2, "outer", vec![ValueId(1)], 7));
    let module = module("src/example.php", instructions);
    let findings = TaintedCommandRule.evaluate(&ModuleAnalysis::new(&module));
    assert_eq!(findings.len(), 1);
    assert!(findings[0]
        .dataflow
        .iter()
        .any(|step| step.label.contains("outer")));
    assert!(findings[0]
        .dataflow
        .iter()
        .any(|step| step.label.contains("inner")));
}

#[test]
fn sanitizers_prevent_only_their_matching_sink_domain() {
    let mut command = vec![
        function_start("safe_command", &["$value"], 1),
        parameter_read(10, "$value", 2),
        call(11, "escapeshellarg", vec![ValueId(10)], 2),
        call(12, "system", vec![ValueId(11)], 2),
        function_end("safe_command", 3),
    ];
    command.extend(tainted_input("$_GET"));
    command.push(call(2, "safe_command", vec![ValueId(1)], 5));
    let command_module = module("src/command.php", command);
    assert!(TaintedCommandRule
        .evaluate(&ModuleAnalysis::new(&command_module))
        .is_empty());

    let mut html = vec![
        function_start("render", &["$value"], 1),
        parameter_read(10, "$value", 2),
        output(OutputKind::Echo, vec![ValueId(10)], 2),
        function_end("render", 3),
    ];
    html.extend(tainted_input("$_GET"));
    html.push(call(2, "escapeshellarg", vec![ValueId(1)], 4));
    html.push(call(3, "render", vec![ValueId(2)], 5));
    let html_module = module("src/html.php", html);
    assert_eq!(
        TaintedHtmlOutputRule
            .evaluate(&ModuleAnalysis::new(&html_module))
            .len(),
        1
    );
}

#[test]
fn sanitizer_before_helper_prevents_sink_summary() {
    let mut instructions = vec![
        function_start("run_command", &["$value"], 1),
        parameter_read(10, "$value", 2),
        call(11, "system", vec![ValueId(10)], 2),
        function_end("run_command", 3),
    ];
    instructions.extend(tainted_input("$_GET"));
    instructions.push(call(2, "escapeshellarg", vec![ValueId(1)], 4));
    instructions.push(call(3, "run_command", vec![ValueId(2)], 5));
    let module = module("src/example.php", instructions);
    assert!(TaintedCommandRule
        .evaluate(&ModuleAnalysis::new(&module))
        .is_empty());
}

#[test]
fn constant_argument_does_not_trigger_sink_summary() {
    let instructions = vec![
        function_start("run_command", &["$value"], 1),
        parameter_read(10, "$value", 2),
        call(11, "system", vec![ValueId(10)], 2),
        function_end("run_command", 3),
        literal(0, "'whoami'", 4),
        call(1, "run_command", vec![ValueId(0)], 4),
    ];
    let module = module("src/example.php", instructions);
    assert!(TaintedCommandRule
        .evaluate(&ModuleAnalysis::new(&module))
        .is_empty());
}

#[test]
fn intrinsic_superglobal_sink_inside_helper_is_reported_once() {
    let instructions = vec![
        function_start("dangerous", &[], 1),
        Instruction::VariableRead {
            output: ValueId(10),
            name: "$_GET".to_string(),
            location: location(2),
        },
        Instruction::IndexRead {
            output: ValueId(11),
            collection: ValueId(10),
            index: None,
            location: location(2),
        },
        call(12, "system", vec![ValueId(11)], 2),
        function_end("dangerous", 3),
        call(0, "dangerous", Vec::new(), 4),
    ];
    let module = module("src/example.php", instructions);
    let findings = TaintedCommandRule.evaluate(&ModuleAnalysis::new(&module));
    assert_eq!(findings.len(), 1);
    assert_eq!(findings[0].location.start_line, 2);
}

#[test]
fn resolves_repeated_constant_operands() {
    let module = module(
        "src/example.php",
        vec![
            literal(0, "'a'", 1),
            Instruction::Concatenate {
                output: ValueId(1),
                operands: vec![ValueId(0), ValueId(0)],
                location: location(1),
            },
        ],
    );
    assert_eq!(
        ModuleAnalysis::new(&module).resolve_constant_string(ValueId(1)),
        Some("aa".to_string())
    );
}

#[test]
fn ignores_method_calls_named_like_dangerous_functions() {
    let module = module(
        "src/example.php",
        vec![Instruction::Call {
            output: ValueId(0),
            target: "system".to_string(),
            call_kind: CallKind::Method,
            arguments: Vec::new(),
            location: location(1),
        }],
    );
    let analysis = ModuleAnalysis::new(&module);
    let rule = built_in_rules()
        .into_iter()
        .find(|rule| rule.id() == "FERMIO-PHP-CORE-CMD-001")
        .expect("command rule should exist");
    assert!(rule.evaluate(&analysis).is_empty());
}
