use devflow_pro::analysis::pipeline::{AnalysisResult, Pipeline};
use devflow_pro::analysis::semantic::{RustFile, RustFn, RustItem, RustStmt, SemanticAnalyzer};
use devflow_pro::DevFlowError;

fn result_for(path: &str) -> AnalysisResult {
    let file = RustFile {
        items: vec![RustItem::Fn(RustFn {
            name: "main".to_string(),
            parameters: vec![],
            body: vec![RustStmt::If(vec![], vec![])],
        })],
    };
    AnalysisResult {
        file_path: path.to_string(),
        semantic_context: SemanticAnalyzer::analyze_rust(&file),
        ai_insights: None,
    }
}

#[test]
fn test_idempotent_dedupe() {
    // the same path submitted twice: one entry, one counter increment
    let mut pipeline = Pipeline::new();
    let path = "a.rs".to_string();
    pipeline.record_outcome(&path, Ok(result_for("a.rs")));
    pipeline.record_outcome(&path, Ok(result_for("a.rs")));
    assert_eq!(pipeline.get_stats().files_processed, 1);
    assert!(pipeline.is_file_processed(&path));
    assert_eq!(pipeline.cache.len(), 1);
}

#[test]
fn test_at_most_once_no_overwrite() {
    let mut pipeline = Pipeline::new();
    let path = "a.rs".to_string();
    pipeline.record_outcome(&path, Ok(result_for("a.rs")));
    let before = pipeline.get_analysis_result(&path).unwrap();
    // a later failure for the same path must not replace the result
    pipeline.record_outcome(&path, Err(DevFlowError::AI("late failure".to_string())));
    let after = pipeline.get_analysis_result(&path).unwrap();
    assert_eq!(
        before.semantic_context.functions.len(),
        after.semantic_context.functions.len()
    );
    assert_eq!(pipeline.get_stats().files_processed, 1);
    assert_eq!(pipeline.get_stats().errors, 0);
}

#[test]
fn test_distinct_paths_all_counted() {
    let mut pipeline = Pipeline::new();
    for i in 0..5 {
        let path = format!("file{}.rs", i);
        pipeline.record_outcome(&path, Ok(result_for(&path)));
    }
    assert_eq!(pipeline.get_stats().files_processed, 5);
    assert_eq!(pipeline.get_stats().errors, 0);
    assert_eq!(pipeline.cache.len(), 5);
}

#[test]
fn test_fault_isolation() {
    // one invalid file among five: all five processed, one error,
    // the four valid files keep their real (non-placeholder) results
    let mut pipeline = Pipeline::new();
    for i in 0..4 {
        let path = format!("good{}.rs", i);
        pipeline.record_outcome(&path, Ok(result_for(&path)));
    }
    let bad = "broken.rs".to_string();
    pipeline.record_outcome(&bad, Err(DevFlowError::AI("parse failure".to_string())));

    let stats = pipeline.get_stats();
    assert_eq!(stats.files_processed, 5);
    assert!(stats.errors >= 1);

    for i in 0..4 {
        let path = format!("good{}.rs", i);
        let result = pipeline.get_analysis_result(&path).unwrap();
        assert_eq!(result.semantic_context.functions.len(), 1);
    }
    let placeholder = pipeline.get_analysis_result(&bad).unwrap();
    assert!(placeholder.semantic_context.functions.is_empty());
    assert!(placeholder.ai_insights.is_none());
}

#[test]
fn test_stats_counters() {
    let mut stats = devflow_pro::analysis::pipeline::Stats::new();
    assert_eq!(stats.get_files_processed(), 0);
    assert_eq!(stats.get_errors(), 0);
    stats.increment_files_processed();
    stats.increment_files_processed();
    stats.increment_errors();
    assert_eq!(stats.get_files_processed(), 2);
    assert_eq!(stats.get_errors(), 1);
}

#[test]
fn test_unprocessed_path_reads_none() {
    let pipeline = Pipeline::new();
    assert!(!pipeline.is_file_processed(&"missing.rs".to_string()));
    assert!(pipeline.get_analysis_result(&"missing.rs".to_string()).is_none());
}
