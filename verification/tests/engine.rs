use fermio::cli::registered_rules;
use fermio::engine::{ScanEngine, ScanOptions};
use fermio::php::{PhpFrontend, ProjectDetection, SourceFile};

#[test]
fn selects_php_files_outside_vendor_and_enforces_the_limit() {
    let paths = vec![
        "/p/index.php".to_string(),
        "/p/vendor/lib.php".to_string(),
        "/p/vendors/ok.php".to_string(),
        "/p/readme.md".to_string(),
    ];
    let options = ScanOptions::default();
    let files = fermio::engine::select_files(paths.clone(), &options).expect("within limit");
    assert_eq!(files, vec!["/p/index.php", "/p/vendors/ok.php"]);
    let with_vendor = ScanOptions {
        include_vendor: true,
        ..ScanOptions::default()
    };
    assert_eq!(fermio::engine::select_files(paths.clone(), &with_vendor).unwrap().len(), 3);
    let limited = ScanOptions {
        max_files: 1,
        ..ScanOptions::default()
    };
    let error = fermio::engine::select_files(paths, &limited).unwrap_err();
    assert!(error.message().contains("exceeding the configured limit"));
}

#[test]
fn scans_sources_and_orders_the_result() {
    let engine = ScanEngine::new(vec![PhpFrontend::new()], registered_rules());
    let mut state = engine.start(3);
    engine
        .process_source(
            &mut state,
            &SourceFile {
                path: "b.php".to_string(),
                content: "<?php system($_GET['cmd']); eval($x);".to_string(),
            },
        )
        .expect("frontend registered");
    ScanEngine::record_oversized(&mut state, "big.php", 8);
    engine
        .process_source(
            &mut state,
            &SourceFile {
                path: "a.php".to_string(),
                content: "<?php function broken( {".to_string(),
            },
        )
        .expect("frontend registered");
    let result = ScanEngine::finish(
        state,
        "/p".to_string(),
        ProjectDetection {
            language: "php".to_string(),
            frameworks: Vec::new(),
            confidence: 80,
        },
    );
    assert_eq!(result.statistics.files_discovered, 3);
    assert_eq!(result.statistics.files_parsed, 2);
    assert_eq!(result.statistics.files_skipped, 1);
    assert!(result.statistics.parse_errors >= 1);
    assert_eq!(result.statistics.findings, result.findings.len());
    assert_eq!(result.findings[0].severity, fermio::findings::Severity::Critical);
    assert!(result
        .findings
        .iter()
        .any(|f| f.rule_id == "FERMIO-PHP-TAINT-CMD-001"));
    assert_eq!(result.diagnostics[0].code, "PHP-PARSE-001");
    assert_eq!(result.diagnostics.last().unwrap().code, "SCAN-LIMIT-001");
    assert_eq!(
        result.diagnostics.last().unwrap().message,
        "Skipped big.php because it exceeds the 8 byte file-size limit"
    );
}

#[test]
fn selected_files_are_distinct_and_in_path_order() {
    let paths = vec![
        "/p/a-b.php".to_string(),
        "/p/a/z.php".to_string(),
        "/p/b.php".to_string(),
        "/p/a-b.php".to_string(),
    ];
    let files = fermio::engine::select_files(paths, &ScanOptions::default()).expect("within limit");
    let mut expected: Vec<std::path::PathBuf> =
        vec!["/p/a-b.php".into(), "/p/a/z.php".into(), "/p/b.php".into()];
    expected.sort();
    let got: Vec<std::path::PathBuf> = files.iter().map(std::path::PathBuf::from).collect();
    assert_eq!(got, expected);
    assert_eq!(files, vec!["/p/a/z.php", "/p/a-b.php", "/p/b.php"]);
}

#[test]
fn reports_files_skipped_by_size_limit() {
    let engine = ScanEngine::new(vec![PhpFrontend::new()], registered_rules());
    let options = ScanOptions {
        max_file_size: 8,
        ..ScanOptions::default()
    };
    let files = [("large.php", 40u64), ("larger.php", 120u64)];
    let mut state = engine.start(files.len());
    for (path, size) in files {
        assert!(ScanEngine::exceeds_size_limit(&options, size));
        ScanEngine::record_oversized(&mut state, path, options.max_file_size);
    }
    let result = ScanEngine::finish(
        state,
        "/project".to_string(),
        ProjectDetection {
            language: "php".to_string(),
            frameworks: Vec::new(),
            confidence: 80,
        },
    );
    assert_eq!(result.statistics.files_skipped, 2);
    assert!(result
        .diagnostics
        .iter()
        .all(|diagnostic| diagnostic.code == "SCAN-LIMIT-001"));
}
