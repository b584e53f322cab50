//! The concurrent-analysis pipeline, as a state machine.
//!
//! Workers pull paths from a queue the embedding program owns, compute
//! a per-file result, and record it here. The pipeline guarantees the
//! run's core properties: a path is recorded at most once (recording an
//! already-cached path changes nothing), a recorded result is never
//! overwritten, the processed-file counter always equals the number of
//! cached entries, and a failed file still leaves a placeholder entry
//! so no reader ever waits on it.

use vstd::prelude::*;

verus! {

use crate::ai_enhanced::{AIAnalysisResult, AIAnalysisResultView};
use crate::analysis::semantic::{SemanticContext, SemanticContextView};
use crate::{assoc_get, assoc_has, assoc_idx, lemma_assoc_get_push, lemma_assoc_idx,
    lemma_assoc_idx_unique, DevFlowError};

/// The merged outcome for one file.
#[derive(Debug)]
pub struct AnalysisResult {
    pub file_path: String,
    pub semantic_context: SemanticContext,
    pub ai_insights: Option<AIAnalysisResult>,
}

/// Spec-level value of an [`AnalysisResult`].
pub struct AnalysisResultView {
    pub file_path: Seq<char>,
    pub semantic_context: SemanticContextView,
    pub ai_insights: Option<AIAnalysisResultView>,
}

impl View for AnalysisResult {
    type V = AnalysisResultView;

    open spec fn view(&self) -> AnalysisResultView {
        AnalysisResultView {
            file_path: self.file_path@,
            semantic_context: self.semantic_context@,
            ai_insights: match self.ai_insights {
                Some(a) => Some(a@),
                None => None,
            },
        }
    }
}

impl Clone for AnalysisResult {
    fn clone(&self) -> (r: Self)
        ensures
            r@ == self@,
    {
        AnalysisResult {
            file_path: self.file_path.clone(),
            semantic_context: self.semantic_context.clone(),
            ai_insights: match &self.ai_insights {
                Some(a) => Some(a.clone()),
                None => None,
            },
        }
    }
}

/// The empty semantic context a failed file is recorded with.
pub open spec fn empty_context_view() -> SemanticContextView {
    SemanticContextView {
        imports: Seq::empty(),
        functions: Seq::empty(),
        types: Seq::empty(),
        dependencies: Seq::empty(),
    }
}

/// The placeholder recorded for a file whose analysis failed: empty
/// metrics and no AI insight, distinguishing "processed with failure"
/// from "not yet processed".
pub open spec fn placeholder_view(path: Seq<char>) -> AnalysisResultView {
    AnalysisResultView {
        file_path: path,
        semantic_context: empty_context_view(),
        ai_insights: None,
    }
}

/// Counters of one run. They only grow while the pipeline lives.
#[derive(Debug, Clone, Copy, PartialEq, Eq, Structural)]
pub struct Stats {
    pub files_processed: usize,
    pub total_files: usize,
    pub processing_time: u128,
    pub errors: usize,
}

impl Stats {
    /// Fresh counters, all zero.
    pub fn new() -> (r: Self)
        ensures
            r.files_processed == 0,
            r.total_files == 0,
            r.processing_time == 0,
            r.errors == 0,
    {
        Stats { files_processed: 0, total_files: 0, processing_time: 0, errors: 0 }
    }

    /// Counts one more processed file.
    pub fn increment_files_processed(&mut self)
        requires
            old(self).files_processed < usize::MAX,
        ensures
            *final(self) == (Stats {
                files_processed: (old(self).files_processed + 1) as usize,
                ..*old(self)
            }),
    {
        self.files_processed = self.files_processed + 1;
    }

    /// Counts one more failed file.
    pub fn increment_errors(&mut self)
        requires
            old(self).errors < usize::MAX,
        ensures
            *final(self) == (Stats { errors: (old(self).errors + 1) as usize, ..*old(self) }),
    {
        self.errors = self.errors + 1;
    }

    /// The number of files processed so far.
    pub fn get_files_processed(&self) -> (r: usize)
        ensures
            r == self.files_processed,
    {
        self.files_processed
    }

    /// The number of files whose analysis failed.
    pub fn get_errors(&self) -> (r: usize)
        ensures
            r == self.errors,
    {
        self.errors
    }
}

impl Default for Stats {
    fn default() -> (r: Self)
        ensures
            r.files_processed == 0,
            r.total_files == 0,
            r.processing_time == 0,
            r.errors == 0,
    {
        Stats::new()
    }
}

/// The per-run result cache: one entry per recorded path, in recording
/// order, with write-once semantics.
#[derive(Debug)]
pub struct ResultCache {
    entries: Vec<(String, AnalysisResult)>,
}

impl ResultCache {
    /// The recorded entries, as path/result values.
    pub closed spec fn entries_view(&self) -> Seq<(Seq<char>, AnalysisResultView)> {
        self.entries@.map_values(|p: (String, AnalysisResult)| (p.0@, p.1@))
    }

    /// Paths are recorded at most once.
    pub open spec fn wf(&self) -> bool {
        crate::assoc_distinct(self.entries_view())
    }

    /// An empty cache.
    pub fn new() -> (r: Self)
        ensures
            r.wf(),
            r.entries_view() == Seq::<(Seq<char>, AnalysisResultView)>::empty(),
    {
        let r = ResultCache { entries: Vec::new() };
        proof {
            assert(r.entries_view() =~= Seq::<(Seq<char>, AnalysisResultView)>::empty());
        }
        r
    }

    /// How many paths are recorded.
    pub fn len(&self) -> (r: usize)
        ensures
            r == self.entries_view().len(),
    {
        self.entries.len()
    }

    /// Whether a path is recorded.
    pub fn contains_key(&self, path: &String) -> (r: bool)
        ensures
            r == assoc_has(self.entries_view(), path@),
    {
        let mut i: usize = 0;
        while i < self.entries.len()
            invariant
                i <= self.entries@.len(),
                forall|j: int| 0 <= j < i ==> (#[trigger] self.entries_view()[j]).0 != path@,
            decreases self.entries@.len() - i,
        {
            proof {
                assert(self.entries_view()[i as int] == (self.entries@[i as int].0@,
                self.entries@[i as int].1@));
            }
            if self.entries[i].0.eq(path) {
                return true;
            }
            i = i + 1;
        }
        false
    }

    /// Reads the recorded result for a path.
    pub fn get(&self, path: &String) -> (r: Option<&AnalysisResult>)
        requires
            self.wf(),
        ensures
            match r {
                Some(a) => assoc_get(self.entries_view(), path@) == Some(a@),
                None => !assoc_has(self.entries_view(), path@),
            },
    {
        let ghost v = self.entries_view();
        let mut i: usize = 0;
        while i < self.entries.len()
            invariant
                i <= self.entries@.len(),
                v == self.entries_view(),
                forall|j: int| 0 <= j < i ==> (#[trigger] v[j]).0 != path@,
            decreases self.entries@.len() - i,
        {
            proof {
                assert(v[i as int] == (self.entries@[i as int].0@, self.entries@[i as int].1@));
            }
            if self.entries[i].0.eq(path) {
                proof {
                    lemma_assoc_idx_unique(v, path@, i as int);
                }
                return Some(&self.entries[i].1);
            }
            i = i + 1;
        }
        proof {
            lemma_assoc_idx_unique(v, path@, v.len() as int);
            lemma_assoc_idx(v, path@);
        }
        None
    }

    /// Records a result under a path not yet recorded; recording an
    /// already-present path changes nothing and reports `false`.
    pub fn insert_if_absent(&mut self, path: String, value: AnalysisResult) -> (r: bool)
        requires
            old(self).wf(),
        ensures
            final(self).wf(),
            r == !assoc_has(old(self).entries_view(), path@),
            r ==> final(self).entries_view() == old(self).entries_view().push((path@, value@)),
            !r ==> *final(self) == *old(self),
    {
        if self.contains_key(&path) {
            return false;
        }
        let ghost v = self.entries_view();
        let ghost pv = path@;
        self.entries.push((path, value));
        proof {
            assert(self.entries_view() =~= v.push((pv, value@)));
            assert forall|a: int, b: int|
                0 <= a < b < self.entries_view().len() implies (
            #[trigger] self.entries_view()[a]).0 != (#[trigger] self.entries_view()[b]).0 by {
                if b < v.len() {
                    assert(self.entries_view()[a] == v[a]);
                    assert(self.entries_view()[b] == v[b]);
                } else {
                    assert(self.entries_view()[a] == v[a]);
                    assert(self.entries_view()[b].0 == pv);
                    assert(!assoc_has(v, pv));
                }
            }
        }
        true
    }
}

// ---------------------------------------------------------------------
// The pipeline
// ---------------------------------------------------------------------

/// The abstract state of a pipeline: the cache contents and the two
/// counters the laws speak about.
pub struct PipelineModel {
    pub cache: Seq<(Seq<char>, AnalysisResultView)>,
    pub files_processed: int,
    pub errors: int,
}

/// How recording one outcome changes the abstract state: an
/// already-recorded path changes nothing; otherwise the outcome (or a
/// placeholder, on failure) is appended and the counters move.
pub open spec fn record_model(
    m: PipelineModel,
    path: Seq<char>,
    outcome: Option<AnalysisResultView>,
) -> PipelineModel {
    if assoc_has(m.cache, path) {
        m
    } else {
        match outcome {
            Some(a) => PipelineModel {
                cache: m.cache.push((path, a)),
                files_processed: m.files_processed + 1,
                errors: m.errors,
            },
            None => PipelineModel {
                cache: m.cache.push((path, placeholder_view(path))),
                files_processed: m.files_processed + 1,
                errors: m.errors + 1,
            },
        }
    }
}

/// The coordination state of one run: the result cache and the shared
/// counters. Workers call [`Pipeline::record_outcome`] once per pulled
/// path; the embedding program owns the queue and the worker threads.
#[derive(Debug)]
pub struct Pipeline {
    pub cache: ResultCache,
    pub stats: Stats,
}

impl Pipeline {
    /// The abstract state.
    pub open spec fn model(&self) -> PipelineModel {
        PipelineModel {
            cache: self.cache.entries_view(),
            files_processed: self.stats.files_processed as int,
            errors: self.stats.errors as int,
        }
    }

    /// The processed-file counter always equals the number of recorded
    /// paths, and those paths are distinct.
    pub open spec fn wf(&self) -> bool {
        &&& self.cache.wf()
        &&& self.stats.files_processed == self.cache.entries_view().len()
        &&& self.stats.errors <= self.stats.files_processed
    }

    /// A fresh pipeline: empty cache, zeroed counters.
    pub fn new() -> (r: Self)
        ensures
            r.wf(),
            r.model().cache == Seq::<(Seq<char>, AnalysisResultView)>::empty(),
            r.model().files_processed == 0,
            r.model().errors == 0,
    {
        Pipeline { cache: ResultCache::new(), stats: Stats::new() }
    }

    /// Whether a file was already processed (successfully or not).
    pub fn is_file_processed(&self, path: &String) -> (r: bool)
        ensures
            r == assoc_has(self.model().cache, path@),
    {
        self.cache.contains_key(path)
    }

    /// A copy of the recorded result for a path, if any.
    pub fn get_analysis_result(&self, path: &String) -> (r: Option<AnalysisResult>)
        requires
            self.wf(),
        ensures
            match r {
                Some(a) => assoc_get(self.model().cache, path@) == Some(a@),
                None => !assoc_has(self.model().cache, path@),
            },
    {
        match self.cache.get(path) {
            Some(a) => Some(a.clone()),
            None => None,
        }
    }

    /// The current counters.
    pub fn get_stats(&self) -> (r: Stats)
        ensures
            r == self.stats,
    {
        self.stats
    }

    /// Records one worker outcome for a path.
    ///
    /// A path already in the cache is left untouched — the at-most-once
    /// guarantee. Otherwise a successful result is recorded as it is; a
    /// failure is counted and recorded as a placeholder, so the path is
    /// never re-queued and readers never block on it.
    pub fn record_outcome(
        &mut self,
        path: &String,
        outcome: Result<AnalysisResult, DevFlowError>,
    )
        requires
            old(self).wf(),
            old(self).stats.files_processed < usize::MAX,
        ensures
            final(self).wf(),
            final(self).model() == record_model(
                old(self).model(),
                path@,
                match outcome {
                    Ok(a) => Some(a@),
                    Err(_) => None,
                },
            ),
            final(self).stats.total_files == old(self).stats.total_files,
            final(self).stats.processing_time == old(self).stats.processing_time,
    {
        if self.cache.contains_key(path) {
            return;
        }
        match outcome {
            Ok(result) => {
                let _ = self.cache.insert_if_absent(path.clone(), result);
                self.stats.increment_files_processed();
            },
            Err(_) => {
                let placeholder = AnalysisResult {
                    file_path: path.clone(),
                    semantic_context: SemanticContext {
                        imports: Vec::new(),
                        functions: Vec::new(),
                        types: Vec::new(),
                        dependencies: Vec::new(),
                    },
                    ai_insights: None,
                };
                proof {
                    assert(placeholder@.semantic_context.imports =~= Seq::<Seq<char>>::empty());
                    assert(placeholder@.semantic_context.functions =~= Seq::<
                        crate::analysis::semantic::FunctionInfoView,
                    >::empty());
                    assert(placeholder@.semantic_context.types =~= Seq::<
                        crate::analysis::semantic::TypeInfoView,
                    >::empty());
                    assert(placeholder@.semantic_context.dependencies =~= Seq::<
                        Seq<char>,
                    >::empty());
                    assert(placeholder@ == placeholder_view(path@));
                }
                let _ = self.cache.insert_if_absent(path.clone(), placeholder);
                self.stats.increment_errors();
                self.stats.increment_files_processed();
            },
        }
    }
}

impl Default for Pipeline {
    fn default() -> (r: Self)
        ensures
            r.wf(),
            r.model().cache == Seq::<(Seq<char>, AnalysisResultView)>::empty(),
            r.model().files_processed == 0,
            r.model().errors == 0,
    {
        Pipeline::new()
    }
}

// ---------------------------------------------------------------------
// Laws of the pipeline
// ---------------------------------------------------------------------

/// Idempotent dedupe: recording the same path a second time — whatever
/// the second outcome — leaves the state exactly as it was after the
/// first recording: one cache entry, one counter increment.
pub proof fn lemma_record_idempotent(
    m: PipelineModel,
    path: Seq<char>,
    first: Option<AnalysisResultView>,
    second: Option<AnalysisResultView>,
)
    ensures
        record_model(record_model(m, path, first), path, second) == record_model(m, path, first),
{
    let after = record_model(m, path, first);
    if assoc_has(m.cache, path) {
        assert(assoc_has(after.cache, path));
    } else {
        assert(after.cache.last().0 == path);
        assert(assoc_has(after.cache, path));
    }
}

/// A recorded result is never overwritten: recording any further
/// outcome, for any path, leaves every present entry's value unchanged.
pub proof fn lemma_no_overwrite(
    m: PipelineModel,
    path: Seq<char>,
    outcome: Option<AnalysisResultView>,
    q: Seq<char>,
)
    requires
        assoc_has(m.cache, q),
    ensures
        assoc_get(record_model(m, path, outcome).cache, q) == assoc_get(m.cache, q),
{
    if !assoc_has(m.cache, path) {
        match outcome {
            Some(a) => {
                lemma_assoc_get_push(m.cache, path, a, q);
            },
            None => {
                lemma_assoc_get_push(m.cache, path, placeholder_view(path), q);
            },
        }
    }
}

/// One batch item: a path and its outcome (`None` marks a failure).
pub open spec fn record_fold(
    m: PipelineModel,
    items: Seq<(Seq<char>, Option<AnalysisResultView>)>,
) -> PipelineModel
    decreases items.len(),
{
    if items.len() == 0 {
        m
    } else {
        record_model(record_fold(m, items.drop_last()), items.last().0, items.last().1)
    }
}

/// The failures in a batch.
pub open spec fn count_failures(items: Seq<(Seq<char>, Option<AnalysisResultView>)>) -> int
    decreases items.len(),
{
    if items.len() == 0 {
        0
    } else {
        count_failures(items.drop_last()) + if items.last().1 is None {
            1int
        } else {
            0int
        }
    }
}

/// At-most-once and fault isolation for a whole run: recording `N`
/// distinct, previously unrecorded paths — in any order the workers
/// finish in — raises `files_processed` by exactly `N` and `errors` by
/// exactly the number of failures; every successful path ends up with
/// exactly its own result, every failed path with the placeholder; and
/// entries recorded before the batch keep their values.
pub proof fn lemma_batch_run(
    m: PipelineModel,
    items: Seq<(Seq<char>, Option<AnalysisResultView>)>,
)
    requires
        forall|i: int, j: int|
            0 <= i < j < items.len() ==> (#[trigger] items[i]).0 != (#[trigger] items[j]).0,
        forall|i: int| 0 <= i < items.len() ==> !assoc_has(m.cache, (#[trigger] items[i]).0),
    ensures
        record_fold(m, items).files_processed == m.files_processed + items.len(),
        record_fold(m, items).errors == m.errors + count_failures(items),
        forall|i: int|
            0 <= i < items.len() ==> assoc_get(record_fold(m, items).cache, (#[trigger] items[i]).0)
                == Some(
                match items[i].1 {
                    Some(a) => a,
                    None => placeholder_view(items[i].0),
                },
            ),
        forall|q: Seq<char>|
            #[trigger] assoc_has(m.cache, q) ==> assoc_get(record_fold(m, items).cache, q)
                == assoc_get(m.cache, q),
    decreases items.len(),
{
    if items.len() > 0 {
        let front = items.drop_last();
        let last = items.last();
        lemma_batch_run(m, front);
        let before = record_fold(m, front);
        // the last path is new: it is not in m and not among the front items
        assert(!assoc_has(before.cache, last.0)) by {
            lemma_batch_absent(m, front, last.0);
        }
        let after = record_model(before, last.0, last.1);
        // counters
        assert(after.files_processed == before.files_processed + 1);
        // lookups
        let v = match last.1 {
            Some(a) => a,
            None => placeholder_view(last.0),
        };
        assert(after.cache == before.cache.push((last.0, v)));
        lemma_assoc_get_push(before.cache, last.0, v, last.0);
        assert forall|i: int| 0 <= i < items.len() implies assoc_get(
            after.cache,
            (#[trigger] items[i]).0,
        ) == Some(
            match items[i].1 {
                Some(a) => a,
                None => placeholder_view(items[i].0),
            },
        ) by {
            if i < items.len() - 1 {
                assert(front[i] == items[i]);
                assert(assoc_get(before.cache, items[i].0) == Some(
                    match items[i].1 {
                        Some(a) => a,
                        None => placeholder_view(items[i].0),
                    },
                ));
                assert(assoc_has(before.cache, items[i].0)) by {
                    lemma_assoc_idx(before.cache, items[i].0);
                }
                lemma_assoc_get_push(before.cache, last.0, v, items[i].0);
            }
        }
        assert forall|q: Seq<char>| #[trigger] assoc_has(m.cache, q) implies assoc_get(
            after.cache,
            q,
        ) == assoc_get(m.cache, q) by {
            assert(assoc_get(before.cache, q) == assoc_get(m.cache, q));
            assert(assoc_has(before.cache, q)) by {
                lemma_assoc_idx(m.cache, q);
                lemma_assoc_idx(before.cache, q);
                if !assoc_has(before.cache, q) {
                    assert(assoc_get(before.cache, q) is None);
                    assert(assoc_get(m.cache, q) is Some);
                }
            }
            lemma_assoc_get_push(before.cache, last.0, v, q);
        }
    }
}

/// A path absent from the start state and from a batch of items is
/// still absent after folding the batch.
proof fn lemma_batch_absent(
    m: PipelineModel,
    items: Seq<(Seq<char>, Option<AnalysisResultView>)>,
    q: Seq<char>,
)
    requires
        !assoc_has(m.cache, q),
        forall|i: int| 0 <= i < items.len() ==> (#[trigger] items[i]).0 != q,
    ensures
        !assoc_has(record_fold(m, items).cache, q),
    decreases items.len(),
{
    if items.len() > 0 {
        let front = items.drop_last();
        assert forall|i: int| 0 <= i < front.len() implies (#[trigger] front[i]).0 != q by {
            assert(front[i] == items[i]);
        }
        lemma_batch_absent(m, front, q);
        let before = record_fold(m, front);
        let last = items.last();
        let after = record_model(before, last.0, last.1);
        if !assoc_has(before.cache, last.0) {
            let v = match last.1 {
                Some(a) => a,
                None => placeholder_view(last.0),
            };
            assert(after.cache == before.cache.push((last.0, v)));
            if assoc_has(after.cache, q) {
                let i = choose|i: int|
                    0 <= i < after.cache.len() && (#[trigger] after.cache[i]).0 == q;
                if i < before.cache.len() {
                    assert(before.cache[i] == after.cache[i]);
                    assert(assoc_has(before.cache, q));
                } else {
                    assert(after.cache[i].0 == last.0);
                }
            }
        }
    }
}

} // verus!
