//! Recording test doubles for the editor integration and the AI
//! provider.

use vstd::prelude::*;

verus! {

use crate::ai_enhanced::{
    AIAnalysisResult, AIProvider, OptimizationCategory, OptimizationSuggestion,
    SecurityRecommendation,
};
use crate::windsurf::interface::{Interface, WindsurfIntegration};
use crate::windsurf::{Position, Range, WindsurfConfig, WindsurfPlugin};
use crate::{DevFlowError, IssueSeverity, SecurityIssue};

/// A recording integration: every event the editor adapter delivers is
/// kept, in order, for the test to inspect.
#[derive(Debug)]
pub struct MockIntegration {
    text_changes: Vec<String>,
    cursor_moves: Vec<Position>,
    visible_ranges: Vec<Range>,
    real_time_enabled: bool,
    plugin: WindsurfPlugin,
    config: WindsurfConfig,
    current_file: Option<String>,
}

impl MockIntegration {
    /// The recorded text changes.
    pub closed spec fn text_changes_view(&self) -> Seq<Seq<char>> {
        self.text_changes@.map_values(|s: String| s@)
    }

    /// The recorded cursor moves.
    pub closed spec fn cursor_moves_view(&self) -> Seq<Position> {
        self.cursor_moves@
    }

    /// The recorded visible ranges.
    pub closed spec fn visible_ranges_view(&self) -> Seq<Range> {
        self.visible_ranges@
    }

    /// Whether real-time analysis is on.
    pub closed spec fn real_time_view(&self) -> bool {
        self.real_time_enabled
    }

    /// The file currently open, if any.
    pub closed spec fn current_file_view(&self) -> Option<Seq<char>> {
        match self.current_file {
            Some(p) => Some(p@),
            None => None,
        }
    }

    /// The current configuration.
    pub closed spec fn config_view(&self) -> WindsurfConfig {
        self.config
    }

    /// The plugin identity held, as its name and version texts.
    pub closed spec fn plugin_view(&self) -> (Seq<char>, Seq<char>) {
        (self.plugin.name@, self.plugin.version@)
    }

    /// Creates a fresh recorder: nothing recorded, real-time analysis
    /// off, default configuration, no open file, holding the given
    /// plugin.
    pub fn new(plugin: WindsurfPlugin) -> (r: Self)
        ensures
            r.text_changes_view() == Seq::<Seq<char>>::empty(),
            r.cursor_moves_view() == Seq::<Position>::empty(),
            r.visible_ranges_view() == Seq::<Range>::empty(),
            r.real_time_view() == false,
            r.current_file_view() is None,
            r.config_view() == (WindsurfConfig { real_time_enabled: false }),
            r.plugin_view() == (plugin.name@, plugin.version@),
    {
        let r = MockIntegration {
            plugin,
            text_changes: Vec::new(),
            cursor_moves: Vec::new(),
            visible_ranges: Vec::new(),
            real_time_enabled: false,
            config: WindsurfConfig::default(),
            current_file: None,
        };
        proof {
            assert(r.text_changes_view() =~= Seq::<Seq<char>>::empty());
        }
        r
    }

    /// A copy of the recorded text changes.
    pub fn get_text_changes(&self) -> (r: Vec<String>)
        ensures
            r@.map_values(|s: String| s@) == self.text_changes_view(),
    {
        crate::clone_strings(&self.text_changes)
    }

    /// A copy of the recorded cursor moves.
    pub fn get_cursor_moves(&self) -> (r: Vec<Position>)
        ensures
            r@ == self.cursor_moves_view(),
    {
        let mut r: Vec<Position> = Vec::new();
        let mut i: usize = 0;
        while i < self.cursor_moves.len()
            invariant
                i <= self.cursor_moves@.len(),
                r@ == self.cursor_moves@.take(i as int),
            decreases self.cursor_moves@.len() - i,
        {
            r.push(self.cursor_moves[i]);
            proof {
                assert(r@ =~= self.cursor_moves@.take(i + 1 as int));
            }
            i = i + 1;
        }
        proof {
            assert(self.cursor_moves@.take(self.cursor_moves@.len() as int)
                =~= self.cursor_moves@);
        }
        r
    }

    /// A copy of the recorded visible ranges.
    pub fn get_visible_ranges(&self) -> (r: Vec<Range>)
        ensures
            r@ == self.visible_ranges_view(),
    {
        let mut r: Vec<Range> = Vec::new();
        let mut i: usize = 0;
        while i < self.visible_ranges.len()
            invariant
                i <= self.visible_ranges@.len(),
                r@ == self.visible_ranges@.take(i as int),
            decreases self.visible_ranges@.len() - i,
        {
            r.push(self.visible_ranges[i]);
            proof {
                assert(r@ =~= self.visible_ranges@.take(i + 1 as int));
            }
            i = i + 1;
        }
        proof {
            assert(self.visible_ranges@.take(self.visible_ranges@.len() as int)
                =~= self.visible_ranges@);
        }
        r
    }

    /// Records one text change.
    pub fn record_text_change(&mut self, content: &String)
        ensures
            final(self).text_changes_view() == old(self).text_changes_view().push(content@),
            final(self).cursor_moves_view() == old(self).cursor_moves_view(),
            final(self).visible_ranges_view() == old(self).visible_ranges_view(),
            final(self).real_time_view() == old(self).real_time_view(),
    {
        self.text_changes.push(content.clone());
        proof {
            assert(self.text_changes_view() =~= old(self).text_changes_view().push(content@));
        }
    }

    /// Records one cursor move.
    pub fn record_cursor_move(&mut self, line: u32, character: u32)
        ensures
            final(self).cursor_moves_view() == old(self).cursor_moves_view().push(
                Position { line, character },
            ),
            final(self).text_changes_view() == old(self).text_changes_view(),
            final(self).visible_ranges_view() == old(self).visible_ranges_view(),
            final(self).real_time_view() == old(self).real_time_view(),
    {
        self.cursor_moves.push(Position { line, character });
    }

    /// Records one visible-range change.
    pub fn record_visible_range(&mut self, range: Range)
        ensures
            final(self).visible_ranges_view() == old(self).visible_ranges_view().push(range),
            final(self).text_changes_view() == old(self).text_changes_view(),
            final(self).cursor_moves_view() == old(self).cursor_moves_view(),
            final(self).real_time_view() == old(self).real_time_view(),
    {
        self.visible_ranges.push(range);
    }
}

impl Interface for MockIntegration {
    /// Records the text and succeeds.
    fn handle_text_change(&mut self, content: &String) -> (r: Result<(), DevFlowError>)
        ensures
            r is Ok,
            final(self).text_changes_view() == old(self).text_changes_view().push(content@),
            final(self).cursor_moves_view() == old(self).cursor_moves_view(),
            final(self).visible_ranges_view() == old(self).visible_ranges_view(),
    {
        self.record_text_change(content);
        Ok(())
    }

    /// Records the position and succeeds.
    fn handle_cursor_move(&mut self, line: u32, character: u32) -> (r: Result<(), DevFlowError>)
        ensures
            r is Ok,
            final(self).cursor_moves_view() == old(self).cursor_moves_view().push(
                Position { line, character },
            ),
            final(self).text_changes_view() == old(self).text_changes_view(),
            final(self).visible_ranges_view() == old(self).visible_ranges_view(),
    {
        self.record_cursor_move(line, character);
        Ok(())
    }

    /// Records the range and succeeds.
    fn handle_visible_range_change(&mut self, range: Range) -> (r: Result<(), DevFlowError>)
        ensures
            r is Ok,
            final(self).visible_ranges_view() == old(self).visible_ranges_view().push(range),
            final(self).text_changes_view() == old(self).text_changes_view(),
            final(self).cursor_moves_view() == old(self).cursor_moves_view(),
    {
        self.record_visible_range(range);
        Ok(())
    }

    /// Flips the real-time flag and succeeds.
    fn toggle_real_time_analysis(&mut self) -> (r: Result<(), DevFlowError>)
        ensures
            r is Ok,
            final(self).real_time_view() == !old(self).real_time_view(),
            final(self).text_changes_view() == old(self).text_changes_view(),
    {
        self.real_time_enabled = !self.real_time_enabled;
        Ok(())
    }

    /// The plugin given at construction.
    fn get_plugin(&self) -> (r: &WindsurfPlugin)
        ensures
            (r.name@, r.version@) == self.plugin_view(),
    {
        &self.plugin
    }

    /// The open file, as last set.
    fn get_current_file(&self) -> (r: Result<Option<String>, DevFlowError>)
        ensures
            r matches Ok(p) && (match (p, self.current_file_view()) {
                (Some(a), Some(b)) => a@ == b,
                (None, None) => true,
                _ => false,
            }),
    {
        match &self.current_file {
            Some(p) => Ok(Some(p.clone())),
            None => Ok(None),
        }
    }

    /// Replaces the open file and succeeds.
    fn set_current_file(&mut self, path: Option<String>) -> (r: Result<(), DevFlowError>)
        ensures
            r is Ok,
            final(self).current_file_view() == (match path {
                Some(p) => Some(p@),
                None => None::<Seq<char>>,
            }),
    {
        self.current_file = path;
        Ok(())
    }

    /// The current configuration.
    fn get_config(&self) -> (r: Result<WindsurfConfig, DevFlowError>)
        ensures
            r matches Ok(c) && c == self.config_view(),
    {
        Ok(self.config)
    }

    /// Replaces the configuration and succeeds.
    fn set_config(&mut self, config: WindsurfConfig) -> (r: Result<(), DevFlowError>)
        ensures
            r is Ok,
            final(self).config_view() == config,
    {
        self.config = config;
        Ok(())
    }
}

impl WindsurfIntegration for MockIntegration {
    /// Succeeds; there is nothing to set up.
    fn initialize(&self) -> (r: Result<(), DevFlowError>)
        ensures
            r is Ok,
    {
        Ok(())
    }
}

/// The one answer the test provider reports: quality 80 of 100,
/// complexity 50 hundredths, one `Low` recommendation and one
/// `Performance` suggestion, independent of the content.
pub open spec fn test_answer() -> crate::ai_enhanced::AIAnalysisResultView {
    crate::ai_enhanced::AIAnalysisResultView {
        code_quality_score: 80,
        semantic_complexity: 50,
        security_recommendations: seq![
            crate::ai_enhanced::SecurityRecommendationView {
                severity: IssueSeverity::Low,
                description: "Test security recommendation"@,
                suggested_fix: Some("Test suggestion"@),
                confidence: 80,
            },
        ],
        optimization_suggestions: seq![
            crate::ai_enhanced::OptimizationSuggestionView {
                category: OptimizationCategory::Performance,
                description: "Test optimization suggestion"@,
                impact_score: 70,
                suggested_implementation: Some("Test suggestion"@),
            },
        ],
    }
}

/// An AI provider for tests that always answers with a fixed,
/// normalized result.
#[derive(Debug)]
pub struct TestProvider;

impl TestProvider {
    fn generate_security_recommendations(content: &String) -> (r: Vec<SecurityRecommendation>)
        ensures
            r@.map_values(|x: SecurityRecommendation| x@) == test_answer().security_recommendations,
    {
        let _ = content;
        let mut r: Vec<SecurityRecommendation> = Vec::new();
        r.push(
            SecurityRecommendation {
                severity: IssueSeverity::Low,
                description: "Test security recommendation".to_owned(),
                suggested_fix: Some("Test suggestion".to_owned()),
                confidence: 80,
            },
        );
        proof {
            assert(r@.map_values(|x: SecurityRecommendation| x@)
                =~= test_answer().security_recommendations);
        }
        r
    }

    fn generate_optimization_suggestions(content: &String) -> (r: Vec<OptimizationSuggestion>)
        ensures
            r@.map_values(|x: OptimizationSuggestion| x@) == test_answer().optimization_suggestions,
    {
        let _ = content;
        let mut r: Vec<OptimizationSuggestion> = Vec::new();
        r.push(
            OptimizationSuggestion {
                category: OptimizationCategory::Performance,
                description: "Test optimization suggestion".to_owned(),
                impact_score: 70,
                suggested_implementation: Some("Test suggestion".to_owned()),
            },
        );
        proof {
            assert(r@.map_values(|x: OptimizationSuggestion| x@)
                =~= test_answer().optimization_suggestions);
        }
        r
    }
}

impl AIProvider for TestProvider {
    /// Always succeeds with the provider's fixed answer, whatever the
    /// content.
    fn analyze_code(&mut self, content: &String) -> (r: Result<AIAnalysisResult, DevFlowError>)
        ensures
            r matches Ok(a) && a@ == test_answer(),
    {
        let r = AIAnalysisResult {
            code_quality_score: 80,
            semantic_complexity: 50,
            security_recommendations: Self::generate_security_recommendations(content),
            optimization_suggestions: Self::generate_optimization_suggestions(content),
        };
        proof {
            assert(r@.security_recommendations =~= test_answer().security_recommendations);
            assert(r@.optimization_suggestions =~= test_answer().optimization_suggestions);
        }
        Ok(r)
    }

    /// Always succeeds, with one fixed fix text.
    fn suggest_fixes(&mut self, issues: &Vec<SecurityIssue>) -> (r: Result<
        Vec<String>,
        DevFlowError,
    >)
        ensures
            r matches Ok(v) && v@.len() == 1 && v@[0]@ == "Test fix suggestion"@,
    {
        let _ = issues;
        let mut v: Vec<String> = Vec::new();
        v.push("Test fix suggestion".to_owned());
        Ok(v)
    }
}

} // verus!
