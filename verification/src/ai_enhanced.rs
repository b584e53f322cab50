//! The AI review capability: the provider interface, its result types,
//! the built-in providers, and the retry driver.
//!
//! Scores are integers: quality in `0..=100`, and the remaining scores
//! in hundredths, so the normalization bounds are exact.

use vstd::prelude::*;

verus! {

use crate::{DevFlowError, IssueSeverity, SecurityIssue};

/// One security recommendation from a provider. `confidence` is in
/// hundredths.
#[derive(Debug)]
pub struct SecurityRecommendation {
    pub severity: IssueSeverity,
    pub description: String,
    pub suggested_fix: Option<String>,
    pub confidence: u64,
}

/// Spec-level value of a [`SecurityRecommendation`].
pub struct SecurityRecommendationView {
    pub severity: IssueSeverity,
    pub description: Seq<char>,
    pub suggested_fix: Option<Seq<char>>,
    pub confidence: u64,
}

impl View for SecurityRecommendation {
    type V = SecurityRecommendationView;

    open spec fn view(&self) -> SecurityRecommendationView {
        SecurityRecommendationView {
            severity: self.severity,
            description: self.description@,
            suggested_fix: match self.suggested_fix {
                Some(f) => Some(f@),
                None => None,
            },
            confidence: self.confidence,
        }
    }
}

impl Clone for SecurityRecommendation {
    fn clone(&self) -> (r: Self)
        ensures
            r@ == self@,
    {
        SecurityRecommendation {
            severity: self.severity,
            description: self.description.clone(),
            suggested_fix: match &self.suggested_fix {
                Some(f) => Some(f.clone()),
                None => None,
            },
            confidence: self.confidence,
        }
    }
}

/// The kind of an optimization suggestion.
#[derive(Debug, Clone, Copy, PartialEq, Eq, Structural)]
pub enum OptimizationCategory {
    Performance,
    Memory,
    Security,
    Other,
}

/// One optimization suggestion from a provider. `impact_score` is in
/// hundredths.
#[derive(Debug)]
pub struct OptimizationSuggestion {
    pub category: OptimizationCategory,
    pub description: String,
    pub impact_score: u64,
    pub suggested_implementation: Option<String>,
}

/// Spec-level value of an [`OptimizationSuggestion`].
pub struct OptimizationSuggestionView {
    pub category: OptimizationCategory,
    pub description: Seq<char>,
    pub impact_score: u64,
    pub suggested_implementation: Option<Seq<char>>,
}

impl View for OptimizationSuggestion {
    type V = OptimizationSuggestionView;

    open spec fn view(&self) -> OptimizationSuggestionView {
        OptimizationSuggestionView {
            category: self.category,
            description: self.description@,
            impact_score: self.impact_score,
            suggested_implementation: match self.suggested_implementation {
                Some(f) => Some(f@),
                None => None,
            },
        }
    }
}

impl Clone for OptimizationSuggestion {
    fn clone(&self) -> (r: Self)
        ensures
            r@ == self@,
    {
        OptimizationSuggestion {
            category: self.category,
            description: self.description.clone(),
            impact_score: self.impact_score,
            suggested_implementation: match &self.suggested_implementation {
                Some(f) => Some(f.clone()),
                None => None,
            },
        }
    }
}

/// A provider's full answer for one file. `code_quality_score` is in
/// `0..=100`; `semantic_complexity` is in hundredths.
#[derive(Debug)]
pub struct AIAnalysisResult {
    pub code_quality_score: u64,
    pub semantic_complexity: u64,
    pub security_recommendations: Vec<SecurityRecommendation>,
    pub optimization_suggestions: Vec<OptimizationSuggestion>,
}

/// Spec-level value of an [`AIAnalysisResult`].
pub struct AIAnalysisResultView {
    pub code_quality_score: u64,
    pub semantic_complexity: u64,
    pub security_recommendations: Seq<SecurityRecommendationView>,
    pub optimization_suggestions: Seq<OptimizationSuggestionView>,
}

impl View for AIAnalysisResult {
    type V = AIAnalysisResultView;

    open spec fn view(&self) -> AIAnalysisResultView {
        AIAnalysisResultView {
            code_quality_score: self.code_quality_score,
            semantic_complexity: self.semantic_complexity,
            security_recommendations: self.security_recommendations@.map_values(
                |r: SecurityRecommendation| r@,
            ),
            optimization_suggestions: self.optimization_suggestions@.map_values(
                |o: OptimizationSuggestion| o@,
            ),
        }
    }
}

impl AIAnalysisResult {
    /// A normalized answer: every score within its advertised range.
    pub open spec fn wf(&self) -> bool {
        &&& self.code_quality_score <= 100
        &&& forall|i: int|
            0 <= i < self@.security_recommendations.len() ==> (
            #[trigger] self@.security_recommendations[i]).confidence <= 100
    }
}

impl Clone for AIAnalysisResult {
    fn clone(&self) -> (r: Self)
        ensures
            r@ == self@,
    {
        let r = AIAnalysisResult {
            code_quality_score: self.code_quality_score,
            semantic_complexity: self.semantic_complexity,
            security_recommendations: clone_recommendations(&self.security_recommendations),
            optimization_suggestions: clone_optimizations(&self.optimization_suggestions),
        };
        proof {
            assert(r@.security_recommendations =~= self@.security_recommendations);
            assert(r@.optimization_suggestions =~= self@.optimization_suggestions);
        }
        r
    }
}

fn clone_recommendations(v: &Vec<SecurityRecommendation>) -> (r: Vec<SecurityRecommendation>)
    ensures
        r@.map_values(|x: SecurityRecommendation| x@) == v@.map_values(
            |x: SecurityRecommendation| x@,
        ),
{
    let mut r: Vec<SecurityRecommendation> = Vec::new();
    let mut i: usize = 0;
    while i < v.len()
        invariant
            i <= v@.len(),
            r@.len() == i,
            forall|j: int| 0 <= j < i ==> r@[j]@ == v@[j]@,
        decreases v@.len() - i,
    {
        r.push(v[i].clone());
        i = i + 1;
    }
    proof {
        assert(r@.map_values(|x: SecurityRecommendation| x@) =~= v@.map_values(
            |x: SecurityRecommendation| x@,
        ));
    }
    r
}

fn clone_optimizations(v: &Vec<OptimizationSuggestion>) -> (r: Vec<OptimizationSuggestion>)
    ensures
        r@.map_values(|x: OptimizationSuggestion| x@) == v@.map_values(
            |x: OptimizationSuggestion| x@,
        ),
{
    let mut r: Vec<OptimizationSuggestion> = Vec::new();
    let mut i: usize = 0;
    while i < v.len()
        invariant
            i <= v@.len(),
            r@.len() == i,
            forall|j: int| 0 <= j < i ==> r@[j]@ == v@[j]@,
        decreases v@.len() - i,
    {
        r.push(v[i].clone());
        i = i + 1;
    }
    proof {
        assert(r@.map_values(|x: OptimizationSuggestion| x@) =~= v@.map_values(
            |x: OptimizationSuggestion| x@,
        ));
    }
    r
}

/// The AI review capability. Implementations may fail; a successful
/// answer is always normalized ([`AIAnalysisResult::wf`]).
pub trait AIProvider {
    /// Reviews one file's content.
    fn analyze_code(&mut self, content: &String) -> (r: Result<AIAnalysisResult, DevFlowError>)
        ensures
            r matches Ok(a) ==> a.wf(),
    ;

    /// Proposes one fix text per reported issue set.
    fn suggest_fixes(&mut self, issues: &Vec<SecurityIssue>) -> (r: Result<
        Vec<String>,
        DevFlowError,
    >);
}

/// Drives a provider with the configured retry policy: up to
/// `max_retries` failed attempts are retried; the first success wins.
/// Returns the final outcome and the number of attempts made.
pub fn analyze_with_retry<P: AIProvider>(provider: &mut P, content: &String, max_retries: u32) -> (r
    : (Result<AIAnalysisResult, DevFlowError>, u32))
    requires
        max_retries < u32::MAX,
    ensures
        1 <= r.1 <= max_retries + 1,
        r.0 matches Ok(a) ==> a.wf(),
{
    let mut attempts: u32 = 0;
    loop
        invariant
            attempts <= max_retries < u32::MAX,
        decreases max_retries - attempts,
    {
        let outcome = provider.analyze_code(content);
        attempts = attempts + 1;
        match outcome {
            Ok(a) => {
                return (Ok(a), attempts);
            },
            Err(e) => {
                if attempts > max_retries {
                    return (Err(e), attempts);
                }
            },
        }
    }
}

/// The built-in provider for a hosted code-review model. Request
/// shaping and response parsing are the library's; only the transport
/// belongs to the caller, which this stand-in answers locally.
#[derive(Debug)]
pub struct CodeLLamaProvider {
    pub api_key: String,
    pub max_concurrent: usize,
}

impl CodeLLamaProvider {
    /// A provider with the given credentials and the stock limit of ten
    /// concurrent calls.
    pub fn new(api_key: String) -> (r: Self)
        ensures
            r.api_key@ == api_key@,
            r.max_concurrent == 10,
    {
        CodeLLamaProvider { api_key, max_concurrent: 10 }
    }

    /// The prompt sent for one file.
    pub fn generate_prompt(content: &String) -> (r: String)
        ensures
            r@ == prompt_spec(content@),
    {
        let mut m =
            "Analyze the following Rust code and provide a detailed analysis in JSON format. Include:\n1. A quality score from 0-100\n2. A semantic complexity score\n3. Security recommendations\n4. Optimization suggestions\n\nCode:\n".to_owned();
        m.append(content.as_str());
        m
    }

    /// The locally computed stand-in answer for a prompt.
    pub fn send_ai_request(&self, prompt: &String) -> (r: Result<String, DevFlowError>)
        ensures
            r matches Ok(s) && s@ == "Mock response for prompt: "@ + prompt@,
    {
        let mut m = "Mock response for prompt: ".to_owned();
        m.append(prompt.as_str());
        Ok(m)
    }

    /// The fixed normalized result this provider reports.
    pub fn parse_response(response: &String) -> (r: AIAnalysisResult)
        ensures
            r@ == stock_answer(),
            r.wf(),
    {
        let mut recs: Vec<SecurityRecommendation> = Vec::new();
        recs.push(
            SecurityRecommendation {
                severity: IssueSeverity::Low,
                description: "Mock security recommendation".to_owned(),
                suggested_fix: Some("Fix suggestion".to_owned()),
                confidence: 80,
            },
        );
        let mut opts: Vec<OptimizationSuggestion> = Vec::new();
        opts.push(
            OptimizationSuggestion {
                category: OptimizationCategory::Performance,
                description: "Mock optimization suggestion".to_owned(),
                impact_score: 70,
                suggested_implementation: Some("Implementation suggestion".to_owned()),
            },
        );
        let r = AIAnalysisResult {
            code_quality_score: 85,
            semantic_complexity: 50,
            security_recommendations: recs,
            optimization_suggestions: opts,
        };
        let _ = response;
        proof {
            assert(r@.security_recommendations =~= stock_answer().security_recommendations);
            assert(r@.optimization_suggestions =~= stock_answer().optimization_suggestions);
        }
        r
    }

    /// The fixed fix list this provider reports.
    pub fn parse_fixes_response(response: &String) -> (r: Vec<String>)
        ensures
            r@.len() == 1,
            r@[0]@ == "Mock fix for "@ + response@,
    {
        let mut m = "Mock fix for ".to_owned();
        m.append(response.as_str());
        let mut v: Vec<String> = Vec::new();
        v.push(m);
        v
    }
}

/// The one answer the built-in provider reports: quality 85 of 100,
/// complexity 50 hundredths, one `Low` security recommendation and one
/// `Performance` optimization suggestion.
pub open spec fn stock_answer() -> AIAnalysisResultView {
    AIAnalysisResultView {
        code_quality_score: 85,
        semantic_complexity: 50,
        security_recommendations: seq![
            SecurityRecommendationView {
                severity: IssueSeverity::Low,
                description: "Mock security recommendation"@,
                suggested_fix: Some("Fix suggestion"@),
                confidence: 80,
            },
        ],
        optimization_suggestions: seq![
            OptimizationSuggestionView {
                category: OptimizationCategory::Performance,
                description: "Mock optimization suggestion"@,
                impact_score: 70,
                suggested_implementation: Some("Implementation suggestion"@),
            },
        ],
    }
}

pub open spec fn prompt_spec(content: Seq<char>) -> Seq<char> {
    "Analyze the following Rust code and provide a detailed analysis in JSON format. Include:\n1. A quality score from 0-100\n2. A semantic complexity score\n3. Security recommendations\n4. Optimization suggestions\n\nCode:\n"@
        + content
}

impl AIProvider for CodeLLamaProvider {
    /// Always succeeds, with the provider's fixed normalized answer.
    fn analyze_code(&mut self, content: &String) -> (r: Result<AIAnalysisResult, DevFlowError>)
        ensures
            *final(self) == *old(self),
            r matches Ok(a) && a@ == stock_answer(),
    {
        let prompt = Self::generate_prompt(content);
        match self.send_ai_request(&prompt) {
            Ok(response) => Ok(Self::parse_response(&response)),
            Err(e) => Err(e),
        }
    }

    /// Always succeeds, with the provider's one fixed fix text.
    fn suggest_fixes(&mut self, issues: &Vec<SecurityIssue>) -> (r: Result<
        Vec<String>,
        DevFlowError,
    >)
        ensures
            *final(self) == *old(self),
            r matches Ok(v) && v@.len() == 1 && v@[0]@ == "Mock fix for "@
                + "Mock response for prompt: "@ + fixes_prompt(),
    {
        let prompt = chars_of_fixes_prompt();
        let _ = issues;
        match self.send_ai_request(&prompt) {
            Ok(response) => Ok(Self::parse_fixes_response(&response)),
            Err(e) => Err(e),
        }
    }
}

/// The prompt sent with a fix request.
pub open spec fn fixes_prompt() -> Seq<char> {
    "Provide specific code fixes for the reported issues."@
}

fn chars_of_fixes_prompt() -> (r: String)
    ensures
        r@ == fixes_prompt(),
{
    "Provide specific code fixes for the reported issues.".to_owned()
}

/// A deterministic provider for tests: fails a configured number of
/// times, then answers like the built-in provider, counting its calls.
#[derive(Debug)]
pub struct MockProvider {
    pub failures_before_success: u32,
    pub calls: u32,
}

impl MockProvider {
    /// A mock that fails `failures_before_success` times, then
    /// succeeds.
    pub fn new(failures_before_success: u32) -> (r: Self)
        ensures
            r.failures_before_success == failures_before_success,
            r.calls == 0,
    {
        MockProvider { failures_before_success, calls: 0 }
    }

    /// How many calls the mock has answered.
    pub fn call_count(&self) -> (r: u32)
        ensures
            r == self.calls,
    {
        self.calls
    }
}

impl AIProvider for MockProvider {
    /// Steps the call counter (saturating) and fails exactly while the
    /// updated count is within the configured failure budget; any
    /// success carries the built-in provider's fixed answer.
    fn analyze_code(&mut self, content: &String) -> (r: Result<AIAnalysisResult, DevFlowError>)
        ensures
            final(self).failures_before_success == old(self).failures_before_success,
            final(self).calls == if old(self).calls == u32::MAX {
                u32::MAX as u32
            } else {
                (old(self).calls + 1) as u32
            },
            (r is Err) <==> final(self).calls <= old(self).failures_before_success,
            r matches Ok(a) ==> a@ == stock_answer(),
            r matches Err(e) ==> (e matches DevFlowError::AI(m) && m@
                == "simulated transient failure"@),
    {
        if self.calls < u32::MAX {
            self.calls = self.calls + 1;
        }
        if self.calls <= self.failures_before_success {
            Err(DevFlowError::AI("simulated transient failure".to_owned()))
        } else {
            let prompt = CodeLLamaProvider::generate_prompt(content);
            let _ = prompt;
            let response = "deterministic mock".to_owned();
            Ok(CodeLLamaProvider::parse_response(&response))
        }
    }

    /// Always succeeds, with one fixed fix text.
    fn suggest_fixes(&mut self, issues: &Vec<SecurityIssue>) -> (r: Result<
        Vec<String>,
        DevFlowError,
    >)
        ensures
            *final(self) == *old(self),
            r matches Ok(v) && v@.len() == 1 && v@[0]@ == "Test fix suggestion"@,
    {
        let _ = issues;
        let mut v: Vec<String> = Vec::new();
        v.push("Test fix suggestion".to_owned());
        Ok(v)
    }
}

/// The retry policy over the deterministic mock, stated exactly: a
/// provider that fails `failures_before_success` times before
/// succeeding is asked once per failure plus once for the success, and
/// the run succeeds — with the fixed, populated answer — precisely when
/// the failure budget does not exceed the retry budget; otherwise the
/// error surfaces after `max_retries + 1` attempts.
pub fn retry_with_mock(failures_before_success: u32, content: &String, max_retries: u32) -> (r: (
    Result<AIAnalysisResult, DevFlowError>,
    u32,
))
    requires
        max_retries < u32::MAX,
    ensures
        failures_before_success <= max_retries ==> (r.0 matches Ok(a) && a@ == stock_answer()
            && r.1 == failures_before_success + 1),
        failures_before_success > max_retries ==> (r.0 is Err && r.1 == max_retries + 1),
{
    let mut provider = MockProvider::new(failures_before_success);
    let mut attempts: u32 = 0;
    loop
        invariant
            provider.failures_before_success == failures_before_success,
            provider.calls == attempts,
            attempts <= max_retries < u32::MAX,
            attempts <= failures_before_success,
        decreases max_retries - attempts,
    {
        let outcome = provider.analyze_code(content);
        attempts = attempts + 1;
        match outcome {
            Ok(a) => {
                return (Ok(a), attempts);
            },
            Err(e) => {
                if attempts > max_retries {
                    return (Err(e), attempts);
                }
            },
        }
    }
}

} // verus!
