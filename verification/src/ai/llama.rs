//! The model-backed review provider: prompt construction, response
//! normalization and retry policy.
//!
//! The HTTP transport lives outside the library; everything here is a
//! pure function of the texts that cross that boundary. A caller sends
//! [`Coder::analysis_prompt`], retries failed calls after
//! [`retry_delay_ms`] up to [`MAX_RETRIES`] extra attempts, and turns
//! the model's answer into an [`AnalysisResult`] with
//! [`Coder::summarize_response`].

use vstd::prelude::*;

verus! {

use crate::ai::types::{AnalysisResult, AnalysisType, LlamaConfig};
use crate::lower_spec;
use crate::text::{contains_char_spec, has_sub, lines_of, trim_spec, views_of};
use crate::DevFlowError;

/// Failed attempts retried after the first, at most.
pub const MAX_RETRIES: u32 = 3;

/// Delay before retrying a generic transient failure, in milliseconds.
pub const RETRY_DELAY_MS: u64 = 1000;

/// Delay before retrying after a rate-limit failure, in milliseconds.
pub const RATE_LIMIT_DELAY_MS: u64 = 2000;

/// The delay before the next retry: rate-limit failures wait longer
/// than generic ones.
pub fn retry_delay_ms(error_text: &String) -> (r: u64)
    ensures
        r == if has_sub(error_text@, "rate limiting"@) {
            RATE_LIMIT_DELAY_MS
        } else {
            RETRY_DELAY_MS
        },
{
    let chars = crate::text::str_chars(error_text.as_str());
    let pat = crate::text::str_chars("rate limiting");
    if crate::text::contains_sub(&chars, &pat) {
        RATE_LIMIT_DELAY_MS
    } else {
        RETRY_DELAY_MS
    }
}

/// The summary taken from a provider reply: the first choice's text,
/// trimmed, or a fixed notice when the reply carries no choice.
pub open spec fn choice_summary_spec(choices: Seq<Seq<char>>) -> Seq<char> {
    if choices.len() == 0 {
        "No analysis available"@
    } else {
        trim_spec(choices[0])
    }
}

/// Selects the summary from a reply's choice texts.
pub fn choice_summary(choices: &Vec<String>) -> (r: String)
    ensures
        r@ == choice_summary_spec(choices@.map_values(|c: String| c@)),
{
    if choices.len() == 0 {
        return "No analysis available".to_owned();
    }
    let chars = crate::text::str_chars(choices[0].as_str());
    let trimmed = crate::text::trim_chars(&chars);
    proof {
        assert(choices@.map_values(|c: String| c@)[0] == choices@[0]@);
    }
    crate::text::chars_to_string(&trimmed)
}

/// The text a provider error is reported with: `message (type)`.
pub fn api_error_text(message: &String, error_type: &String) -> (r: String)
    ensures
        r@ == message@ + " ("@ + error_type@ + ")"@,
{
    let mut m = message.clone();
    m.append(" (");
    m.append(error_type.as_str());
    m.append(")");
    m
}

/// The model-backed review provider: credentials and model choice. The
/// network transport is the caller's.
#[derive(Debug)]
pub struct Coder {
    pub api_key: String,
    pub model: String,
}

impl Coder {
    /// Creates a review client for the configured model with the given key.
    pub fn new(config: LlamaConfig, api_key: String) -> (r: Result<Coder, DevFlowError>)
        ensures
            r matches Ok(c) && c.api_key@ == api_key@ && c.model@ == config.model_name@,
    {
        Ok(Coder { api_key, model: config.model_name })
    }

    /// The prompt for a code review request.
    pub fn analyze_review(&self, code: &String) -> (r: String)
        ensures
            r@ == review_prompt(code@),
    {
        let mut m =
            "You are a code review expert. Analyze this code and provide specific, actionable feedback:\n\n```\n".to_owned();
        m.append(code.as_str());
        m.append(
            "\n```\n\nProvide a concise summary of the code quality and list specific suggestions for improvement.",
        );
        m
    }

    /// The prompt for a bug-finding request.
    pub fn analyze_bugs(&self, code: &String) -> (r: String)
        ensures
            r@ == bugs_prompt(code@),
    {
        let mut m =
            "You are a bug-finding expert. Analyze this code for potential bugs and issues:\n\n```\n".to_owned();
        m.append(code.as_str());
        m.append(
            "\n```\n\nList each potential issue with:\n1. Issue description\n2. Severity (Low/Medium/High/Critical)\n3. Impact on code\n4. Suggested fix\n5. Prevention tips\n\nFormat your response in clear sections with bullet points.",
        );
        m
    }

    /// The prompt for a security audit request.
    pub fn analyze_security(&self, code: &String) -> (r: String)
        ensures
            r@ == security_prompt(code@),
    {
        let mut m =
            "You are a security expert. Analyze this code for security vulnerabilities:\n\n```\n".to_owned();
        m.append(code.as_str());
        m.append(
            "\n```\n\nFor each vulnerability found, provide:\n1. Vulnerability type and CWE ID\n2. Severity (Low/Medium/High/Critical)\n3. Potential impact and attack vectors\n4. Mitigation steps\n5. Best practices to prevent\n\nFormat your response in clear sections with bullet points.",
        );
        m
    }

    /// The prompt for a documentation request.
    pub fn analyze_docs(&self, code: &String) -> (r: String)
        ensures
            r@ == docs_prompt(code@),
    {
        let mut m =
            "You are a technical documentation expert. Generate comprehensive documentation for this code:\n\n```\n".to_owned();
        m.append(code.as_str());
        m.append(
            "\n```\n\nInclude:\n1. Overview and purpose\n2. Key components and architecture\n3. Usage examples with code snippets\n4. Dependencies and requirements\n5. Error handling and edge cases\n\nFormat your response in clear sections with markdown formatting.",
        );
        m
    }

    /// The prompt for an optimization request.
    pub fn analyze_performance(&self, code: &String) -> (r: String)
        ensures
            r@ == performance_prompt(code@),
    {
        let mut m =
            "You are a performance optimization expert. Analyze this code for optimization opportunities:\n\n```\n".to_owned();
        m.append(code.as_str());
        m.append(
            "\n```\n\nFor each optimization opportunity, provide:\n1. Current performance bottleneck\n2. Impact on system resources\n3. Suggested improvement with code example\n4. Expected performance benefit\n5. Implementation complexity\n\nFormat your response in clear sections with bullet points.",
        );
        m
    }

    /// The prompt for the requested kind of analysis.
    pub fn analysis_prompt(&self, code: &String, analysis_type: AnalysisType) -> (r: String)
        ensures
            r@ == match analysis_type {
                AnalysisType::CodeReview => review_prompt(code@),
                AnalysisType::BugFinding => bugs_prompt(code@),
                AnalysisType::SecurityAudit => security_prompt(code@),
                AnalysisType::Documentation => docs_prompt(code@),
                AnalysisType::Optimization => performance_prompt(code@),
            },
    {
        match analysis_type {
            AnalysisType::CodeReview => self.analyze_review(code),
            AnalysisType::BugFinding => self.analyze_bugs(code),
            AnalysisType::SecurityAudit => self.analyze_security(code),
            AnalysisType::Documentation => self.analyze_docs(code),
            AnalysisType::Optimization => self.analyze_performance(code),
        }
    }

    /// Normalizes a raw model answer: the text becomes the summary, the
    /// suggestion lines are extracted (falling back to sentences with
    /// advice keywords), and a keyword-based confidence in `0..=100` is
    /// attached.
    pub fn summarize_response(&self, summary: &String) -> (r: AnalysisResult)
        ensures
            r@.summary == summary@,
            r@.suggestions == summary_suggestions(summary@),
            r@.confidence == clamp100(confidence_spec(summary@)),
            r@.confidence <= 100,
    {
        let suggestions = extract_suggestions(summary.as_str());
        let suggestions = if suggestions.len() == 0 {
            lower_keyword_fallback(summary)
        } else {
            suggestions
        };
        let chars = crate::text::str_chars(summary.as_str());
        let confidence = calculate_confidence(&chars);
        let confidence = if confidence > 100 {
            100
        } else {
            confidence
        };
        AnalysisResult { summary: summary.clone(), suggestions, confidence }
    }
}

pub open spec fn review_prompt(code: Seq<char>) -> Seq<char> {
    "You are a code review expert. Analyze this code and provide specific, actionable feedback:\n\n```\n"@
        + code
        + "\n```\n\nProvide a concise summary of the code quality and list specific suggestions for improvement."@
}

pub open spec fn bugs_prompt(code: Seq<char>) -> Seq<char> {
    "You are a bug-finding expert. Analyze this code for potential bugs and issues:\n\n```\n"@
        + code
        + "\n```\n\nList each potential issue with:\n1. Issue description\n2. Severity (Low/Medium/High/Critical)\n3. Impact on code\n4. Suggested fix\n5. Prevention tips\n\nFormat your response in clear sections with bullet points."@
}

pub open spec fn security_prompt(code: Seq<char>) -> Seq<char> {
    "You are a security expert. Analyze this code for security vulnerabilities:\n\n```\n"@ + code
        + "\n```\n\nFor each vulnerability found, provide:\n1. Vulnerability type and CWE ID\n2. Severity (Low/Medium/High/Critical)\n3. Potential impact and attack vectors\n4. Mitigation steps\n5. Best practices to prevent\n\nFormat your response in clear sections with bullet points."@
}

pub open spec fn docs_prompt(code: Seq<char>) -> Seq<char> {
    "You are a technical documentation expert. Generate comprehensive documentation for this code:\n\n```\n"@
        + code
        + "\n```\n\nInclude:\n1. Overview and purpose\n2. Key components and architecture\n3. Usage examples with code snippets\n4. Dependencies and requirements\n5. Error handling and edge cases\n\nFormat your response in clear sections with markdown formatting."@
}

pub open spec fn performance_prompt(code: Seq<char>) -> Seq<char> {
    "You are a performance optimization expert. Analyze this code for optimization opportunities:\n\n```\n"@
        + code
        + "\n```\n\nFor each optimization opportunity, provide:\n1. Current performance bottleneck\n2. Impact on system resources\n3. Suggested improvement with code example\n4. Expected performance benefit\n5. Implementation complexity\n\nFormat your response in clear sections with bullet points."@
}

// ---------------------------------------------------------------------
// Suggestion extraction
// ---------------------------------------------------------------------

/// Whether Unicode classes the character as numeric.
pub uninterp spec fn unicode_numeric(c: char) -> bool;

/// Whether Unicode classes the character as alphabetic.
pub uninterp spec fn unicode_alphabetic(c: char) -> bool;

/// Relies on `char::is_numeric`: the Unicode numeric classification of
/// a character, a function of the character alone.
pub assume_specification[ char::is_numeric ](c: char) -> (r: bool)
    ensures
        r == unicode_numeric(c),
;

/// Relies on `char::is_alphabetic`: the Unicode alphabetic
/// classification of a character, a function of the character alone.
pub assume_specification[ char::is_alphabetic ](c: char) -> (r: bool)
    ensures
        r == unicode_alphabetic(c),
;

/// Index of the first letter, or `s.len()` if none.
pub open spec fn first_alpha(s: Seq<char>) -> int
    decreases s.len(),
{
    if s.len() == 0 {
        0
    } else if unicode_alphabetic(s[0]) {
        0
    } else {
        1 + first_alpha(s.drop_first())
    }
}

pub proof fn lemma_first_alpha(s: Seq<char>)
    ensures
        0 <= first_alpha(s) <= s.len(),
        forall|j: int| 0 <= j < first_alpha(s) ==> !unicode_alphabetic(#[trigger] s[j]),
        first_alpha(s) < s.len() ==> unicode_alphabetic(s[first_alpha(s)]),
    decreases s.len(),
{
    if s.len() > 0 && !unicode_alphabetic(s[0]) {
        lemma_first_alpha(s.drop_first());
        assert forall|j: int| 0 <= j < first_alpha(s) implies !unicode_alphabetic(
            #[trigger] s[j],
        ) by {
            if j > 0 {
                assert(s.drop_first()[j - 1] == s[j]);
            }
        }
        if first_alpha(s) < s.len() {
            assert(s.drop_first()[first_alpha(s) - 1] == s[first_alpha(s)]);
        }
    }
}

/// A line that reads as a bullet or numbered list entry.
pub open spec fn is_bullet_line(l: Seq<char>) -> bool {
    let t = trim_spec(l);
    t.len() > 0 && (t[0] == '\u{2022}' || t[0] == '-' || (unicode_numeric(t[0])
        && contains_char_spec(t, '.')))
}

/// The suggestion text of a bullet line: the trimmed line with its
/// leading non-letter marker stripped.
pub open spec fn bullet_text(l: Seq<char>) -> Seq<char> {
    let t = trim_spec(l);
    t.skip(first_alpha(t))
}

/// The bullet-style suggestions of a text, in line order.
pub open spec fn bullet_suggestions(lines: Seq<Seq<char>>) -> Seq<Seq<char>>
    decreases lines.len(),
{
    if lines.len() == 0 {
        Seq::empty()
    } else {
        bullet_suggestions(lines.drop_last()) + if is_bullet_line(lines.last()) {
            seq![bullet_text(lines.last())]
        } else {
            Seq::<Seq<char>>::empty()
        }
    }
}

/// A line long enough to matter whose text contains an advice keyword.
pub open spec fn is_keyword_line(l: Seq<char>) -> bool {
    let t = trim_spec(l);
    t.len() > 10 && (has_sub(t, "suggest"@) || has_sub(t, "recommend"@) || has_sub(t, "could"@)
        || has_sub(t, "should"@) || has_sub(t, "improve"@))
}

/// The keyword-line suggestions of a text, in line order.
pub open spec fn keyword_suggestions(lines: Seq<Seq<char>>) -> Seq<Seq<char>>
    decreases lines.len(),
{
    if lines.len() == 0 {
        Seq::empty()
    } else {
        keyword_suggestions(lines.drop_last()) + if is_keyword_line(lines.last()) {
            seq![trim_spec(lines.last())]
        } else {
            Seq::<Seq<char>>::empty()
        }
    }
}

/// What [`extract_suggestions`] returns: the bullet entries, or the
/// keyword lines when there are no bullets.
pub open spec fn suggestions_spec(s: Seq<char>) -> Seq<Seq<char>> {
    let lines = lines_of(s);
    let b = bullet_suggestions(lines);
    if b.len() > 0 {
        b
    } else {
        keyword_suggestions(lines)
    }
}

/// A line whose lowercased text contains an advice keyword, of any
/// length.
pub open spec fn is_lower_keyword_line(l: Seq<char>) -> bool {
    let t = lower_spec(trim_spec(l));
    has_sub(t, "suggest"@) || has_sub(t, "recommend"@) || has_sub(t, "could"@) || has_sub(
        t,
        "should"@,
    ) || has_sub(t, "improve"@)
}

/// The lowercase-keyword suggestions of a text, in line order.
pub open spec fn lower_keyword_suggestions(lines: Seq<Seq<char>>) -> Seq<Seq<char>>
    decreases lines.len(),
{
    if lines.len() == 0 {
        Seq::empty()
    } else {
        lower_keyword_suggestions(lines.drop_last()) + if is_lower_keyword_line(lines.last()) {
            seq![trim_spec(lines.last())]
        } else {
            Seq::<Seq<char>>::empty()
        }
    }
}

/// What [`Coder::summarize_response`] reports as suggestions: the
/// extracted ones, or — if there are none at all — the lines whose
/// lowercased text carries an advice keyword.
pub open spec fn summary_suggestions(s: Seq<char>) -> Seq<Seq<char>> {
    let first = suggestions_spec(s);
    if first.len() > 0 {
        first
    } else {
        lower_keyword_suggestions(lines_of(s))
    }
}

/// Extracts suggestion lines from a model answer: bullet entries
/// (`•`, `-`, or a numbered item) with their markers stripped, or, when
/// no bullets are present, lines longer than ten characters containing
/// an advice keyword.
#[verifier::loop_isolation(false)]
pub fn extract_suggestions(analysis: &str) -> (r: Vec<String>)
    ensures
        r@.map_values(|s: String| s@) == suggestions_spec(analysis@),
{
    let chars = crate::text::str_chars(analysis);
    let lines = crate::text::split_lines(&chars);
    let mut bullets: Vec<String> = Vec::new();
    let mut i: usize = 0;
    proof {
        assert(views_of(lines@).take(0) =~= Seq::<Seq<char>>::empty());
        assert(bullets@.map_values(|s: String| s@) =~= bullet_suggestions(
            views_of(lines@).take(0),
        ));
    }
    while i < lines.len()
        invariant
            i <= lines@.len(),
            bullets@.map_values(|s: String| s@) == bullet_suggestions(
                views_of(lines@).take(i as int),
            ),
        decreases lines@.len() - i,
    {
        let ghost before = bullets@.map_values(|s: String| s@);
        proof {
            let vs = views_of(lines@);
            assert(vs.take(i + 1).drop_last() =~= vs.take(i as int));
            assert(vs.take(i + 1).last() == lines@[i as int]@);
        }
        let t = crate::text::trim_chars(&lines[i]);
        let bullet = if t.len() == 0 {
            false
        } else {
            let c0 = t[0];
            c0 == '\u{2022}' || c0 == '-' || (c0.is_numeric() && crate::text::contains_char(
                &t,
                '.',
            ))
        };
        if bullet {
            let mut a: usize = 0;
            while a < t.len() && !t[a].is_alphabetic()
                invariant
                    a <= t@.len(),
                    forall|j: int| 0 <= j < a ==> !unicode_alphabetic(#[trigger] t@[j]),
                decreases t@.len() - a,
            {
                a = a + 1;
            }
            proof {
                lemma_first_alpha(t@);
                let fa = first_alpha(t@);
                if (a as int) < fa {
                    assert(!unicode_alphabetic(t@[a as int]));
                    assert(unicode_alphabetic(t@[a as int]));
                } else if (a as int) > fa {
                    assert(!unicode_alphabetic(t@[fa]));
                }
            }
            let text = crate::text::copy_range(&t, a, t.len());
            proof {
                assert(text@ =~= bullet_text(lines@[i as int]@));
            }
            bullets.push(crate::text::chars_to_string(&text));
            proof {
                assert(bullets@.map_values(|s: String| s@) =~= before + seq![
                    bullet_text(lines@[i as int]@),
                ]);
            }
        }
        i = i + 1;
    }
    proof {
        assert(views_of(lines@).take(lines@.len() as int) =~= views_of(lines@));
    }
    if bullets.len() > 0 {
        return bullets;
    }
    let mut found: Vec<String> = Vec::new();
    let mut i: usize = 0;
    proof {
        assert(views_of(lines@).take(0) =~= Seq::<Seq<char>>::empty());
        assert(found@.map_values(|s: String| s@) =~= keyword_suggestions(
            views_of(lines@).take(0),
        ));
    }
    while i < lines.len()
        invariant
            i <= lines@.len(),
            found@.map_values(|s: String| s@) == keyword_suggestions(
                views_of(lines@).take(i as int),
            ),
        decreases lines@.len() - i,
    {
        let ghost before = found@.map_values(|s: String| s@);
        proof {
            let vs = views_of(lines@);
            assert(vs.take(i + 1).drop_last() =~= vs.take(i as int));
            assert(vs.take(i + 1).last() == lines@[i as int]@);
        }
        let t = crate::text::trim_chars(&lines[i]);
        if t.len() > 10 && contains_any_keyword(&t) {
            found.push(crate::text::chars_to_string(&t));
            proof {
                assert(found@.map_values(|s: String| s@) =~= before + seq![
                    trim_spec(lines@[i as int]@),
                ]);
            }
        }
        i = i + 1;
    }
    proof {
        assert(views_of(lines@).take(lines@.len() as int) =~= views_of(lines@));
    }
    found
}

/// Tests a trimmed line for the advice keywords.
fn contains_any_keyword(t: &Vec<char>) -> (r: bool)
    ensures
        r == (has_sub(t@, "suggest"@) || has_sub(t@, "recommend"@) || has_sub(t@, "could"@)
            || has_sub(t@, "should"@) || has_sub(t@, "improve"@)),
{
    let k1 = crate::text::str_chars("suggest");
    let k2 = crate::text::str_chars("recommend");
    let k3 = crate::text::str_chars("could");
    let k4 = crate::text::str_chars("should");
    let k5 = crate::text::str_chars("improve");
    crate::text::contains_sub(t, &k1) || crate::text::contains_sub(t, &k2)
        || crate::text::contains_sub(t, &k3) || crate::text::contains_sub(t, &k4)
        || crate::text::contains_sub(t, &k5)
}

/// Collects the lowercase-keyword fallback suggestions.
#[verifier::loop_isolation(false)]
fn lower_keyword_fallback(summary: &String) -> (r: Vec<String>)
    ensures
        r@.map_values(|s: String| s@) == lower_keyword_suggestions(lines_of(summary@)),
{
    let chars = crate::text::str_chars(summary.as_str());
    let lines = crate::text::split_lines(&chars);
    let mut found: Vec<String> = Vec::new();
    let mut i: usize = 0;
    proof {
        assert(views_of(lines@).take(0) =~= Seq::<Seq<char>>::empty());
        assert(found@.map_values(|s: String| s@) =~= lower_keyword_suggestions(
            views_of(lines@).take(0),
        ));
    }
    while i < lines.len()
        invariant
            i <= lines@.len(),
            found@.map_values(|s: String| s@) == lower_keyword_suggestions(
                views_of(lines@).take(i as int),
            ),
        decreases lines@.len() - i,
    {
        let ghost before = found@.map_values(|s: String| s@);
        proof {
            let vs = views_of(lines@);
            assert(vs.take(i + 1).drop_last() =~= vs.take(i as int));
            assert(vs.take(i + 1).last() == lines@[i as int]@);
        }
        let t = crate::text::trim_chars(&lines[i]);
        let low = crate::to_lower_chars(&t);
        if contains_any_keyword(&low) {
            found.push(crate::text::chars_to_string(&t));
            proof {
                assert(found@.map_values(|s: String| s@) =~= before + seq![
                    trim_spec(lines@[i as int]@),
                ]);
            }
        }
        i = i + 1;
    }
    proof {
        assert(views_of(lines@).take(lines@.len() as int) =~= views_of(lines@));
    }
    found
}

// ---------------------------------------------------------------------
// Confidence
// ---------------------------------------------------------------------

/// Keyword-weighted confidence of an answer, in hundredths: a base of
/// fifty plus a fixed weight per hedge or certainty marker present.
pub open spec fn confidence_spec(s: Seq<char>) -> nat {
    (50 + (if has_sub(s, "definitely"@) {
        20nat
    } else {
        0nat
    }) + (if has_sub(s, "likely"@) {
        15nat
    } else {
        0nat
    }) + (if has_sub(s, "possibly"@) {
        10nat
    } else {
        0nat
    }) + (if has_sub(s, "might"@) {
        5nat
    } else {
        0nat
    }) + (if has_sub(s, "code example"@) {
        15nat
    } else {
        0nat
    }) + (if has_sub(s, "specific"@) {
        10nat
    } else {
        0nat
    }) + (if has_sub(s, "recommend"@) {
        10nat
    } else {
        0nat
    }) + (if has_sub(s, "suggest"@) {
        10nat
    } else {
        0nat
    })) as nat
}

/// A confidence clamped into `0..=100`.
pub open spec fn clamp100(n: nat) -> u64 {
    if n > 100 {
        100
    } else {
        n as u64
    }
}

/// Computes the keyword-weighted confidence.
fn calculate_confidence(s: &Vec<char>) -> (r: u64)
    ensures
        r as nat == confidence_spec(s@),
{
    let mut r: u64 = 50;
    let p1 = crate::text::str_chars("definitely");
    if crate::text::contains_sub(s, &p1) {
        r = r + 20;
    }
    let p2 = crate::text::str_chars("likely");
    if crate::text::contains_sub(s, &p2) {
        r = r + 15;
    }
    let p3 = crate::text::str_chars("possibly");
    if crate::text::contains_sub(s, &p3) {
        r = r + 10;
    }
    let p4 = crate::text::str_chars("might");
    if crate::text::contains_sub(s, &p4) {
        r = r + 5;
    }
    let p5 = crate::text::str_chars("code example");
    if crate::text::contains_sub(s, &p5) {
        r = r + 15;
    }
    let p6 = crate::text::str_chars("specific");
    if crate::text::contains_sub(s, &p6) {
        r = r + 10;
    }
    let p7 = crate::text::str_chars("recommend");
    if crate::text::contains_sub(s, &p7) {
        r = r + 10;
    }
    let p8 = crate::text::str_chars("suggest");
    if crate::text::contains_sub(s, &p8) {
        r = r + 10;
    }
    r
}

} // verus!
