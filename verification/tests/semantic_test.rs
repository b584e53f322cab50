use devflow_pro::ai_enhanced::AIProvider;
use devflow_pro::analysis::semantic::{
    RustFile, RustFn, RustItem, RustStmt, SemanticAnalyzer, SemanticError, UseTreeNode,
};

/// The structural model of:
///
/// ```text
/// use std::collections::HashMap;
///
/// pub struct TestStruct { field1: String, field2: i32 }
///
/// impl TestStruct {
///     pub fn new() -> Self { ... }
///     pub fn process(&self, value: i32) -> String {
///         if value > 0 { ... } else if value < 0 { ... } else { ... }
///     }
/// }
/// ```
fn test_file() -> RustFile {
    RustFile {
        items: vec![
            RustItem::Use(UseTreeNode::Path(Box::new(UseTreeNode::Path(Box::new(
                UseTreeNode::Name("HashMap".to_string()),
            ))))),
            RustItem::Struct {
                name: "TestStruct".to_string(),
                fields: vec!["field1".to_string(), "field2".to_string()],
            },
            RustItem::Impl(vec![
                RustFn {
                    name: "new".to_string(),
                    parameters: vec![],
                    body: vec![RustStmt::Other],
                },
                RustFn {
                    name: "process".to_string(),
                    parameters: vec!["self".to_string(), "i32".to_string()],
                    body: vec![RustStmt::If(
                        vec![RustStmt::Other],
                        vec![RustStmt::If(vec![RustStmt::Other], vec![RustStmt::Other])],
                    )],
                },
            ]),
        ],
    }
}

#[test]
fn test_semantic_analysis() {
    let analyzer = SemanticAnalyzer::new();

    let path = "test.rs".to_string();
    let result = analyzer.analyze_file(&path, &test_file()).unwrap();

    // Verify imports
    assert!(result.imports.iter().any(|i| i.contains("HashMap")));

    // Verify struct detection
    assert!(result.types.iter().any(|t| t.name == "TestStruct"));

    // Verify function detection
    let functions: Vec<_> = result.functions.iter().map(|f| f.name.as_str()).collect();
    assert!(functions.contains(&"new"));
    assert!(functions.contains(&"process"));

    // Verify complexity calculation
    let process_fn = result.functions.iter().find(|f| f.name == "process").unwrap();
    assert!(
        process_fn.complexity > 1,
        "process function should have complexity > 1 due to if/else branches"
    );
}

#[test]
fn test_unsupported_language() {
    let analyzer = SemanticAnalyzer::new();
    let path = "script.py".to_string();
    match analyzer.analyze_file(&path, &test_file()) {
        Err(SemanticError::UnsupportedLanguage(ext)) => assert_eq!(ext, "py"),
        other => panic!("expected an unsupported-language error, got {:?}", other),
    }
}

#[test]
fn test_missing_extension() {
    let analyzer = SemanticAnalyzer::new();
    let path = "Makefile".to_string();
    assert!(matches!(
        analyzer.analyze_file(&path, &test_file()),
        Err(SemanticError::InvalidPath(_))
    ));
}

#[test]
fn test_complexity_counts_branches() {
    // two ifs nested in a while, plus a three-arm match
    let f = RustFile {
        items: vec![RustItem::Fn(RustFn {
            name: "busy".to_string(),
            parameters: vec![],
            body: vec![
                RustStmt::While(vec![
                    RustStmt::If(vec![], vec![]),
                    RustStmt::If(vec![], vec![]),
                ]),
                RustStmt::Match(vec![vec![], vec![], vec![RustStmt::For(vec![])]]),
            ],
        })],
    };
    let ctx = SemanticAnalyzer::analyze_rust(&f);
    // while(1) + 2 ifs + 3 arms + for(1) = 7
    assert_eq!(ctx.functions[0].complexity, 7);
}

#[test]
fn test_merge_with_ai_analysis() {
    let analyzer = SemanticAnalyzer::new();
    let ctx = SemanticAnalyzer::analyze_rust(&test_file());
    let mut provider = devflow_pro::windsurf::mock::TestProvider;
    let ai = provider.analyze_code(&"fn main() {}".to_string()).unwrap();
    let merged = analyzer.merge_with_ai_analysis(&ctx, &ai);
    // the mock's suggestion text names no function, so complexities stay
    assert_eq!(merged.functions.len(), ctx.functions.len());
    for (a, b) in merged.functions.iter().zip(ctx.functions.iter()) {
        assert_eq!(a.complexity, b.complexity);
    }
    // the mock's recommendation text has no dependency hint either
    assert_eq!(merged.dependencies.len(), ctx.dependencies.len());
}
