use devflow_pro::{
    analyze_file, calculate_metrics, check_security_issues, extract_dependencies, is_ignored,
    normalize_language_extension, AppConfig, IssueSeverity, ProjectInsights,
};

fn default_config() -> AppConfig {
    AppConfig::default()
}

#[test]
fn test_single_file_end_to_end() {
    // one code line, no branches, no findings
    let mut insights = ProjectInsights::new();
    let config = default_config();
    let path = "src/main.rs".to_string();
    let content = "fn main() { println!(\"hi\"); }".to_string();
    analyze_file(&path, &content, 29, 0, &mut insights, &config);

    assert_eq!(insights.files_analyzed, 1);
    assert_eq!(insights.total_lines, 1);
    assert_eq!(insights.file_metrics.len(), 1);
    let (p, metrics) = &insights.file_metrics[0];
    assert_eq!(p, "src/main.rs");
    assert_eq!(metrics.lines_of_code, 1);
    assert_eq!(metrics.complexity, 0);
    assert!(metrics.security_issues.is_empty());
    assert!(insights.security_summary.is_empty());
    assert_eq!(insights.language_distribution, vec![("rs".to_string(), 1)]);
}

#[test]
fn test_hardcoded_secret_detected() {
    let config = default_config();
    let content = "let password = \"abc123\";".to_string();
    let metrics = calculate_metrics(&content, &config, 24, 0);
    assert!(!metrics.security_issues.is_empty());
    let issue = &metrics.security_issues[0];
    assert_eq!(issue.severity, IssueSeverity::High);
    assert!(issue.description.contains("hardcoded secret"));
    assert_eq!(issue.line_number, Some(1));
}

#[test]
fn test_oversized_file_skipped() {
    let mut insights = ProjectInsights::new();
    let mut config = default_config();
    config.max_file_size = 10;
    let path = "big.rs".to_string();
    let content = "fn main() { let password = \"x\"; }".to_string();
    analyze_file(&path, &content, 1000, 0, &mut insights, &config);
    assert_eq!(insights.files_analyzed, 0);
    assert!(insights.file_metrics.is_empty());
    assert!(insights.security_summary.is_empty());
}

#[test]
fn test_duplicate_path_recorded_once() {
    let mut insights = ProjectInsights::new();
    let config = default_config();
    let path = "lib.rs".to_string();
    let content = "struct A;".to_string();
    analyze_file(&path, &content, 9, 0, &mut insights, &config);
    analyze_file(&path, &content, 9, 0, &mut insights, &config);
    assert_eq!(insights.files_analyzed, 1);
    assert_eq!(insights.file_metrics.len(), 1);
}

#[test]
fn test_line_classification() {
    let config = default_config();
    let content = "// a comment\n\n   \nlet x = 1;\n# hash comment\n/* block */\ncode();\n"
        .to_string();
    let metrics = calculate_metrics(&content, &config, 0, 0);
    assert_eq!(metrics.comment_lines, 3);
    assert_eq!(metrics.blank_lines, 2);
    assert_eq!(metrics.lines_of_code, 2);
}

#[test]
fn test_branch_complexity_counts() {
    let config = default_config();
    let content = "if a { } else if b { }\nwhile c { }\nfor x in y { }\nmatch z { }\n".to_string();
    let metrics = calculate_metrics(&content, &config, 0, 0);
    // "if " twice, "while " once, "for " once, "match " once
    assert_eq!(metrics.complexity, 5);
}

#[test]
fn test_dependencies_sorted_and_deduplicated() {
    let content = "use serde::ser;\nuse anyhow::Result;\nimport os.path\nuse serde::de;\n"
        .to_string();
    let deps = extract_dependencies(&content);
    assert_eq!(
        deps,
        vec!["anyhow".to_string(), "os".to_string(), "serde".to_string()]
    );
}

#[test]
fn test_dependency_determinism() {
    let content = "use b;\nuse a;\nuse b;\n".to_string();
    let first = extract_dependencies(&content);
    let second = extract_dependencies(&content);
    assert_eq!(first, second);
    assert_eq!(first, vec!["a".to_string(), "b".to_string()]);
}

#[test]
fn test_require_dependency() {
    let content = "require('lodash/fp');".to_string();
    let deps = extract_dependencies(&content);
    assert_eq!(deps, vec!["lodash".to_string()]);
}

#[test]
fn test_severity_filtering() {
    // with the threshold at Critical, the High findings disappear
    let mut config = default_config();
    config.min_severity = IssueSeverity::Critical;
    let lines: Vec<Vec<char>> = vec![
        "let password = \"abc\";".chars().collect(),
        "eval(user_input)".chars().collect(),
    ];
    let issues = check_security_issues(&lines, &config);
    assert_eq!(issues.len(), 1);
    assert_eq!(issues[0].severity, IssueSeverity::Critical);
    assert!(issues[0].description.contains("Unsafe code execution"));

    // with the threshold at Low, both findings appear
    let low = default_config();
    let all = check_security_issues(&lines, &low);
    assert_eq!(all.len(), 2);
    for issue in &all {
        assert!(issue.severity.rank() >= IssueSeverity::Medium.rank());
    }
}

#[test]
fn test_sql_heuristic() {
    let config = default_config();
    let lines: Vec<Vec<char>> = vec!["query(\"SELECT * FROM t\")".chars().collect()];
    let issues = check_security_issues(&lines, &config);
    assert_eq!(issues.len(), 1);
    assert!(issues[0].description.contains("SQL injection"));
}

#[test]
fn test_is_ignored_patterns() {
    let patterns = vec!["**/target/**".to_string(), "**/.git/**".to_string()];
    assert!(is_ignored(&"proj/target/debug/foo".to_string(), &patterns));
    assert!(is_ignored(&"a/.git/config".to_string(), &patterns));
    assert!(!is_ignored(&"src/main.rs".to_string(), &patterns));
}

#[test]
fn test_invalid_pattern_skipped() {
    // an unclosed character class never parses, so it can match nothing
    let patterns = vec!["[".to_string()];
    assert!(!is_ignored(&"anything".to_string(), &patterns));
}

#[test]
fn test_normalize_language_extension() {
    assert_eq!(normalize_language_extension("mjs"), "js");
    assert_eq!(normalize_language_extension("TSX"), "ts");
    assert_eq!(normalize_language_extension("markdown"), "md");
    assert_eq!(normalize_language_extension("1"), "man");
    assert_eq!(normalize_language_extension("bsd"), "config");
    assert_eq!(normalize_language_extension("flow"), "type_def");
    assert_eq!(normalize_language_extension("bnf"), "grammar");
    assert_eq!(normalize_language_extension("RS"), "rs");
}

#[test]
fn test_default_config() {
    let config = AppConfig::default();
    assert_eq!(config.max_file_size, 1024 * 1024);
    assert_eq!(config.min_severity, IssueSeverity::Low);
    assert_eq!(config.ignored_patterns.len(), 8);
    assert!(config.ignored_patterns.contains(&"**/node_modules/**".to_string()));
    assert_eq!(config.security_patterns.len(), 20);
}

#[test]
fn test_severity_ranks_ordered() {
    assert!(IssueSeverity::Low.rank() < IssueSeverity::Medium.rank());
    assert!(IssueSeverity::Medium.rank() < IssueSeverity::High.rank());
    assert!(IssueSeverity::High.rank() < IssueSeverity::Critical.rank());
}

#[test]
fn test_error_messages() {
    let e = devflow_pro::DevFlowError::AI("boom".to_string());
    assert_eq!(e.message(), "AI error: boom");
    let e = devflow_pro::DevFlowError::InvalidPath("p".to_string());
    assert_eq!(e.message(), "Invalid path: p");
}

#[test]
fn test_enormous_pattern_rejected_not_fatal() {
    // a pattern too large for the matcher to compile is skipped like a
    // malformed one; the run must not abort
    let huge = "a".repeat(2_000_000);
    assert!(!is_ignored(&"a".to_string(), &vec![huge]));
}
