use fermio::ir::{CallKind, Instruction, OutputKind};
use fermio::php::{FrontendOutput, LanguageFrontend, PhpFrontend, SourceFile};

fn lower(source: &str) -> FrontendOutput {
    PhpFrontend::new()
        .parse_and_lower(&SourceFile {
            path: "example.php".to_string(),
            content: source.to_string(),
        })
        .expect("frontend should lower PHP")
}

#[test]
fn reports_invalid_php_as_diagnostic() {
    let output = lower("<?php function broken( {");
    assert!(!output.diagnostics.is_empty());
    assert_eq!(output.diagnostics[0].code, "PHP-PARSE-001");
}

#[test]
fn lowers_assignment_concatenation_and_call_arguments() {
    let output = lower("<?php $command = 'ls ' . $input; system($command);");

    assert!(output
        .module
        .instructions
        .iter()
        .any(|instruction| matches!(instruction, Instruction::Assignment { target, .. } if target == "$command")));
    assert!(output
        .module
        .instructions
        .iter()
        .any(|instruction| matches!(instruction, Instruction::Concatenate { operands, .. } if operands.len() == 2)));
    assert!(output.module.instructions.iter().any(|instruction| {
        matches!(instruction, Instruction::Call { target, arguments, .. } if target == "system" && arguments.len() == 1)
    }));
}

#[test]
fn lowers_superglobal_index_reads() {
    let output = lower("<?php system($_GET['cmd']);");

    assert!(output.module.instructions.iter().any(|instruction| {
        matches!(instruction, Instruction::VariableRead { name, .. } if name == "$_GET")
    }));
    assert!(output.module.instructions.iter().any(|instruction| {
        matches!(instruction, Instruction::IndexRead { index: Some(_), .. })
    }));
}

#[test]
fn lowers_echo_values_as_output() {
    let output = lower("<?php echo $_GET['name'], 'ok';");
    assert!(output.module.instructions.iter().any(|instruction| {
        matches!(
            instruction,
            Instruction::Output {
                output: None,
                output_kind: OutputKind::Echo,
                values,
                ..
            } if values.len() == 2
        )
    }));
}

#[test]
fn lowers_print_as_output_with_result_value() {
    let output = lower("<?php $result = print $_GET['name'];");
    assert!(output.module.instructions.iter().any(|instruction| {
        matches!(
            instruction,
            Instruction::Output {
                output: Some(_),
                output_kind: OutputKind::Print,
                values,
                ..
            } if values.len() == 1
        )
    }));
}

#[test]
fn tags_pdo_method_calls_with_receiver_type() {
    let output = lower("<?php $pdo = new PDO($dsn); $pdo->query($_GET['sql']);");
    assert!(output.module.instructions.iter().any(|instruction| {
        matches!(
            instruction,
            Instruction::Call {
                target,
                call_kind: CallKind::Method,
                ..
            } if target == "PDO::query"
        )
    }));
}

#[test]
fn tags_mysqli_method_calls_through_alias() {
    let output = lower("<?php $db = new mysqli(); $alias = $db; $alias->prepare($_POST['sql']);");
    assert!(output.module.instructions.iter().any(|instruction| {
        matches!(
            instruction,
            Instruction::Call {
                target,
                call_kind: CallKind::Method,
                ..
            } if target == "mysqli::prepare"
        )
    }));
}

#[test]
fn tags_direct_object_creation_method_calls() {
    let output = lower("<?php (new PDO($dsn))->exec($_GET['sql']);");
    assert!(output.module.instructions.iter().any(|instruction| {
        matches!(instruction, Instruction::Call { target, .. } if target == "PDO::exec")
    }));
}

#[test]
fn does_not_tag_unrelated_query_methods() {
    let output = lower("<?php $service = make_service(); $service->query($_GET['sql']);");
    assert!(output.module.instructions.iter().any(|instruction| {
        matches!(
            instruction,
            Instruction::Call {
                target,
                call_kind: CallKind::Method,
                ..
            } if target == "query"
        )
    }));
}

#[test]
fn clears_receiver_type_after_reassignment() {
    let output = lower("<?php $pdo = new PDO($dsn); $pdo = make_service(); $pdo->query($_GET['sql']);");
    assert!(output.module.instructions.iter().any(|instruction| {
        matches!(
            instruction,
            Instruction::Call {
                target,
                call_kind: CallKind::Method,
                ..
            } if target == "query"
        )
    }));
    assert!(!output.module.instructions.iter().any(|instruction| {
        matches!(instruction, Instruction::Call { target, .. } if target == "PDO::query")
    }));
}

#[test]
fn does_not_treat_namespaced_user_class_as_pdo() {
    let output = lower("<?php $pdo = new App\\PDO(); $pdo->query($_GET['sql']);");
    assert!(!output.module.instructions.iter().any(|instruction| {
        matches!(instruction, Instruction::Call { target, .. } if target == "PDO::query")
    }));
}

#[test]
fn lowers_named_function_boundaries_and_parameters() {
    let output = lower("<?php function passthrough($value, $suffix = '') { return $value . $suffix; }");

    assert!(output.module.instructions.iter().any(|instruction| {
        matches!(instruction, Instruction::FunctionStart { name, parameters, .. } if name == "passthrough" && parameters == &["$value", "$suffix"])
    }));
    assert!(output.module.instructions.iter().any(|instruction| {
        matches!(instruction, Instruction::FunctionEnd { name, .. } if name == "passthrough")
    }));
}

#[test]
fn lowers_return_values() {
    let output = lower("<?php function value() { return $input; }");
    assert!(output
        .module
        .instructions
        .iter()
        .any(|instruction| matches!(instruction, Instruction::Return { value: Some(_), .. })));
}

#[test]
fn numbers_values_in_order_of_definition() {
    let output = lower("<?php $a = $_GET['x'] . 'y'; echo strtoupper($a);");
    let mut next = 0u32;
    for instruction in &output.module.instructions {
        let defined = match instruction {
            Instruction::VariableRead { output, .. }
            | Instruction::Literal { output, .. }
            | Instruction::Concatenate { output, .. }
            | Instruction::IndexRead { output, .. }
            | Instruction::Call { output, .. }
            | Instruction::Opaque { output, .. } => Some(*output),
            Instruction::Output { output, .. } => *output,
            _ => None,
        };
        if let Some(value) = defined {
            assert_eq!(value.0, next);
            next += 1;
        }
    }
    assert!(next >= 6);
    assert!(output.diagnostics.is_empty());
    assert_eq!(output.module.path, "example.php");
    assert_eq!(output.module.language, "php");
}

#[test]
fn supports_only_php_files() {
    let frontend = PhpFrontend::new();
    assert!(frontend.supports_file("src/index.php"));
    assert!(frontend.supports_file("a.b.php"));
    assert!(!frontend.supports_file("src/.php"));
    assert!(!frontend.supports_file("index.PHP"));
    assert!(!frontend.supports_file("index.phtml"));
}

#[test]
fn detects_frameworks_from_composer_and_wordpress_files() {
    let frontend = PhpFrontend::new();
    let detection = frontend
        .detect_project(
            Some(r#"{"require": {"laravel/framework": "^11"}, "require-dev": {"symfony/framework-bundle": "7"}}"#),
            true,
        )
        .expect("valid manifest");
    assert_eq!(detection.language, "php");
    assert_eq!(detection.confidence, 100);
    assert_eq!(detection.frameworks, vec!["laravel", "symfony", "wordpress"]);
    let detection = frontend.detect_project(None, false).expect("no manifest");
    assert!(detection.frameworks.is_empty());
    assert_eq!(detection.confidence, 80);
    assert!(frontend.detect_project(Some("{not json"), false).is_err());
}

#[test]
fn composer_sections_that_are_missing_or_not_objects_name_no_packages() {
    let frontend = PhpFrontend::new();
    let detection = frontend
        .detect_project(Some(r#"{"require": ["laravel/framework"]}"#), false)
        .expect("valid manifest");
    assert_eq!(detection.confidence, 100);
    assert!(detection.frameworks.is_empty());
}
