//! Status-bar rendering of per-file scores.

use vstd::prelude::*;

verus! {

use crate::ai_enhanced::AIAnalysisResult;
use crate::text::dec_digits;
use crate::windsurf::Position;

/// Range in a document, as the display layer uses it.
#[derive(Debug, Clone, Copy, PartialEq, Eq, Structural)]
pub struct Range {
    pub start: Position,
    pub end: Position,
}

impl Default for Range {
    fn default() -> (r: Self)
        ensures
            r.start.line == 0,
            r.start.character == 0,
            r.end.line == 0,
            r.end.character == 0,
    {
        Range {
            start: Position { line: 0, character: 0 },
            end: Position { line: 0, character: 0 },
        }
    }
}

/// The two scores shown in the status bar. `complexity_score` is in
/// hundredths, `quality_score` in whole points.
#[derive(Debug, Clone, Copy, PartialEq, Eq, Structural)]
pub struct MetricsDisplay {
    pub complexity_score: u64,
    pub quality_score: u64,
}

/// A value in hundredths rendered with one decimal place.
pub open spec fn hundredths_1dp(n: u64) -> Seq<char> {
    dec_digits((n / 100) as nat) + seq!['.', crate::text::digit_char(((n % 100) / 10) as nat)]
}

/// A whole number rendered with one (zero) decimal place.
pub open spec fn units_1dp(n: u64) -> Seq<char> {
    dec_digits(n as nat) + seq!['.', '0']
}

impl MetricsDisplay {
    /// Takes the two scores from an AI answer.
    pub fn new(analysis_result: &AIAnalysisResult) -> (r: Self)
        ensures
            r.complexity_score == analysis_result.semantic_complexity,
            r.quality_score == analysis_result.code_quality_score,
    {
        MetricsDisplay {
            complexity_score: analysis_result.semantic_complexity,
            quality_score: analysis_result.code_quality_score,
        }
    }

    /// Renders the scores for the status bar, one decimal place each.
    pub fn to_status_bar_text(&self) -> (r: String)
        ensures
            r@ == "Complexity: "@ + hundredths_1dp(self.complexity_score) + " | Quality: "@
                + units_1dp(self.quality_score),
    {
        let mut v = crate::text::str_chars("Complexity: ");
        let mut c_whole = crate::text::u64_to_chars(self.complexity_score / 100);
        v.append(&mut c_whole);
        v.push('.');
        v.push(digit_exec(((self.complexity_score % 100) / 10) as usize));
        let mut sep = crate::text::str_chars(" | Quality: ");
        v.append(&mut sep);
        let mut q_whole = crate::text::u64_to_chars(self.quality_score);
        v.append(&mut q_whole);
        v.push('.');
        v.push('0');
        let r = crate::text::chars_to_string(&v);
        proof {
            assert(r@ =~= "Complexity: "@ + hundredths_1dp(self.complexity_score)
                + " | Quality: "@ + units_1dp(self.quality_score));
        }
        r
    }
}

/// Computes a decimal digit character.
fn digit_exec(d: usize) -> (c: char)
    requires
        d < 10,
    ensures
        c == crate::text::digit_char(d as nat),
{
    match d {
        0 => '0',
        1 => '1',
        2 => '2',
        3 => '3',
        4 => '4',
        5 => '5',
        6 => '6',
        7 => '7',
        8 => '8',
        _ => '9',
    }
}

} // verus!
