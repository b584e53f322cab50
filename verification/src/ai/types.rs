//! Data types of the language-model review provider.
//!
//! Scores that providers report as fractions are held in integer
//! thousandths (`temperature`, `top_p`) or hundredths (`confidence`),
//! so every bound on them is exact.

use vstd::prelude::*;

verus! {

/// Configuration of the model client. `temperature` and `top_p` are in
/// thousandths.
#[derive(Debug)]
pub struct LlamaConfig {
    pub model_name: String,
    pub context_length: usize,
    pub temperature: u32,
    pub top_p: u32,
    pub max_tokens: u32,
    pub stop_sequences: Vec<String>,
}

impl Default for LlamaConfig {
    fn default() -> (r: Self)
        ensures
            r.model_name@ == "mistralai/Mistral-7B-Instruct-v0.1"@,
            r.context_length == 4096,
            r.temperature == 700,
            r.top_p == 950,
            r.max_tokens == 1000,
            r.stop_sequences@.len() == 1 && r.stop_sequences@[0]@ == "```"@,
    {
        let mut stops: Vec<String> = Vec::new();
        stops.push("```".to_owned());
        LlamaConfig {
            model_name: "mistralai/Mistral-7B-Instruct-v0.1".to_owned(),
            context_length: 4096,
            temperature: 700,
            top_p: 950,
            max_tokens: 1000,
            stop_sequences: stops,
        }
    }
}

/// The kind of review requested from the model.
#[derive(Debug, Clone, Copy, PartialEq, Eq, Structural)]
pub enum AnalysisType {
    CodeReview,
    BugFinding,
    SecurityAudit,
    Documentation,
    Optimization,
}

/// A normalized model answer: the summary text, the extracted
/// suggestions, and a confidence in hundredths (`0..=100`).
#[derive(Debug)]
pub struct AnalysisResult {
    pub summary: String,
    pub suggestions: Vec<String>,
    pub confidence: u64,
}

/// Spec-level value of an [`AnalysisResult`].
pub struct AnalysisResultView {
    pub summary: Seq<char>,
    pub suggestions: Seq<Seq<char>>,
    pub confidence: u64,
}

impl View for AnalysisResult {
    type V = AnalysisResultView;

    open spec fn view(&self) -> AnalysisResultView {
        AnalysisResultView {
            summary: self.summary@,
            suggestions: self.suggestions@.map_values(|s: String| s@),
            confidence: self.confidence,
        }
    }
}

/// Severity scale used by the review reports.
#[derive(Debug, Clone, Copy, PartialEq, Eq, Structural)]
pub enum Severity {
    Low,
    Medium,
    High,
    Critical,
}

/// One reported vulnerability.
#[derive(Debug)]
pub struct SecurityVulnerability {
    pub cwe_id: Option<String>,
    pub description: String,
    pub severity: Severity,
    pub impact: String,
    pub mitigation: String,
}

/// One section of generated documentation.
#[derive(Debug)]
pub struct DocumentationSection {
    pub title: String,
    pub content: String,
    pub code_examples: Vec<String>,
}

/// One reported bug.
#[derive(Debug)]
pub struct BugReport {
    pub description: String,
    pub severity: Severity,
    pub impact: String,
    pub fix: String,
    pub prevention: String,
}

} // verus!
