use devflow_pro::ai::llama::{
    extract_suggestions, retry_delay_ms, Coder, MAX_RETRIES, RATE_LIMIT_DELAY_MS, RETRY_DELAY_MS,
};
use devflow_pro::ai::types::{AnalysisType, LlamaConfig};
use devflow_pro::ai::llama::{api_error_text, choice_summary};
use devflow_pro::ai_enhanced::{
    analyze_with_retry, retry_with_mock, AIProvider, CodeLLamaProvider, MockProvider,
};

#[test]
fn test_retry_until_success() {
    // a provider that fails twice then succeeds: exactly three call
    // attempts, and a populated insight on the third
    let mut provider = MockProvider::new(2);
    let content = "fn main() {}".to_string();
    let (outcome, attempts) = analyze_with_retry(&mut provider, &content, MAX_RETRIES);
    assert_eq!(attempts, 3);
    assert_eq!(provider.call_count(), 3);
    let insight = outcome.expect("third attempt should succeed");
    assert_eq!(insight.code_quality_score, 85);
    assert_eq!(insight.security_recommendations.len(), 1);
    assert_eq!(insight.optimization_suggestions.len(), 1);
}

#[test]
fn test_retry_exhaustion() {
    // a provider that always fails: the error is surfaced after the
    // initial attempt plus the configured retries
    let mut provider = MockProvider::new(u32::MAX);
    let content = "fn main() {}".to_string();
    let (outcome, attempts) = analyze_with_retry(&mut provider, &content, MAX_RETRIES);
    assert!(outcome.is_err());
    assert_eq!(attempts, MAX_RETRIES + 1);
}

#[test]
fn test_retry_delays() {
    assert_eq!(
        retry_delay_ms(&"server said: rate limiting in effect".to_string()),
        RATE_LIMIT_DELAY_MS
    );
    assert_eq!(retry_delay_ms(&"connection reset".to_string()), RETRY_DELAY_MS);
}

#[test]
fn test_extract_suggestions_bullets() {
    let text = "Summary line.\n• Add tests\n- Fix the bug\n1. Rename things\n";
    let suggestions = extract_suggestions(text);
    assert_eq!(
        suggestions,
        vec![
            "Add tests".to_string(),
            "Fix the bug".to_string(),
            "Rename things".to_string()
        ]
    );
}

#[test]
fn test_extract_suggestions_keyword_fallback() {
    let text = "The code is fine.\nYou should simplify the parser here.\n";
    let suggestions = extract_suggestions(text);
    assert_eq!(suggestions, vec!["You should simplify the parser here.".to_string()]);
}

#[test]
fn test_summarize_confidence() {
    let coder = Coder::new(LlamaConfig::default(), "key".to_string()).unwrap();
    let summary = "I definitely recommend refactoring".to_string();
    let result = coder.summarize_response(&summary);
    // base 50 + definitely 20 + recommend 10
    assert_eq!(result.confidence, 80);
    assert_eq!(result.summary, summary);
    assert_eq!(result.suggestions, vec![summary.clone()]);
}

#[test]
fn test_confidence_clamped() {
    let coder = Coder::new(LlamaConfig::default(), "key".to_string()).unwrap();
    let summary =
        "definitely likely possibly might code example specific recommend suggest".to_string();
    let result = coder.summarize_response(&summary);
    assert_eq!(result.confidence, 100);
}

#[test]
fn test_prompts_mention_their_role() {
    let coder = Coder::new(LlamaConfig::default(), "key".to_string()).unwrap();
    let code = "fn f() {}".to_string();
    assert!(coder.analyze_bugs(&code).contains("bug-finding expert"));
    assert!(coder.analyze_security(&code).contains("security expert"));
    assert!(coder.analyze_docs(&code).contains("documentation expert"));
    assert!(coder
        .analyze_performance(&code)
        .contains("performance optimization expert"));
    let review = coder.analysis_prompt(&code, AnalysisType::CodeReview);
    assert!(review.contains("code review expert"));
    assert!(review.contains("fn f() {}"));
}

#[test]
fn test_code_llama_provider_mock_flow() {
    let mut provider = CodeLLamaProvider::new("key".to_string());
    let answer = provider.analyze_code(&"let x = 1;".to_string()).unwrap();
    assert_eq!(answer.code_quality_score, 85);
    assert_eq!(answer.semantic_complexity, 50);
    assert_eq!(
        answer.security_recommendations[0].description,
        "Mock security recommendation"
    );
    assert_eq!(
        answer.optimization_suggestions[0].description,
        "Mock optimization suggestion"
    );
    let fixes = provider.suggest_fixes(&vec![]).unwrap();
    assert_eq!(fixes.len(), 1);
    assert!(fixes[0].starts_with("Mock fix for "));
}

#[test]
fn test_default_llama_config() {
    let config = LlamaConfig::default();
    assert_eq!(config.model_name, "mistralai/Mistral-7B-Instruct-v0.1");
    assert_eq!(config.context_length, 4096);
    assert_eq!(config.temperature, 700);
    assert_eq!(config.top_p, 950);
    assert_eq!(config.max_tokens, 1000);
    assert_eq!(config.stop_sequences, vec!["```".to_string()]);
}

#[test]
fn test_retry_with_mock_law_instances() {
    let content = "fn main() {}".to_string();
    let (outcome, attempts) = retry_with_mock(2, &content, MAX_RETRIES);
    assert_eq!(attempts, 3);
    assert!(outcome.is_ok());
    let (outcome, attempts) = retry_with_mock(5, &content, MAX_RETRIES);
    assert_eq!(attempts, MAX_RETRIES + 1);
    assert!(outcome.is_err());
}

#[test]
fn test_unicode_numbered_bullet() {
    // a numbered entry with a non-ASCII numeral still counts as a bullet
    let suggestions = extract_suggestions("٣. Improve things\n");
    assert_eq!(suggestions, vec!["Improve things".to_string()]);
}

#[test]
fn test_choice_summary() {
    assert_eq!(choice_summary(&vec![]), "No analysis available");
    assert_eq!(
        choice_summary(&vec!["  looks fine  ".to_string(), "ignored".to_string()]),
        "looks fine"
    );
}

#[test]
fn test_api_error_text() {
    assert_eq!(
        api_error_text(&"quota exceeded".to_string(), &"rate_limit".to_string()),
        "quota exceeded (rate_limit)"
    );
}
