//! The selection orchestrator, written as a step machine: each call of
//! `begin` starts one retrieval and answers with the next outside action to
//! perform (probe the accessibility tree, run a clipboard swap, fetch file
//! paths), and each `on_*` method takes that action's outcome and answers
//! with the following action, until `Finish` carries the overall result.
//! The driver that performs the actions holds no logic of its own.
//!
//! On a cache hit the orchestrator re-probes the accessibility tree once —
//! a cheap double-check — before falling back to the clipboard swap,
//! whichever verdict is recorded; presence of a verdict decides whether a
//! swap outcome updates the cache and whether an empty swap still counts as
//! a result.

use vstd::prelude::*;
use vstd::pervasive::unreached;
use crate::cache::{
    StrategyCache, StrategyVerdict, lru_insert, lru_touch, model_has_key, model_value_of,
    model_wf, lemma_insert_then_found, lemma_insert_preserves_wf,
};
use crate::tokenize::split_file_paths;
use crate::tokenize::split_paths_spec;

verus! {

/// Default bound of the strategy cache, in entries.
pub const DEFAULT_CACHE_CAPACITY: usize = 100;

/// Default clipboard-settle delay handed to the swap driver, in milliseconds.
pub const DEFAULT_SETTLE_DELAY_MS: u64 = 100;

/// Whether `items` holds free text or file-path strings.
#[derive(Clone, Copy, Debug, PartialEq, Eq, Structural)]
pub enum SourceKind {
    Text,
    FilePaths,
}

/// What one retrieval yields: the kind of content, the foreground
/// application it was read from (empty means no foreground application),
/// and the content itself — exactly one element for text, zero or more for
/// file paths.
#[derive(Clone, Debug)]
pub struct SelectionResult {
    pub source_kind: SourceKind,
    pub application_id: String,
    pub items: Vec<String>,
}

/// The outside action the driver must perform next, or the finished result.
#[derive(Clone, Debug)]
pub enum Action {
    /// Run the copy-as-path clipboard automation for a file-manager context.
    FetchFilePaths,
    /// Read the focused element's selected text from the accessibility tree.
    ProbeAccessibility,
    /// Run the clipboard-swap automation (callback, synthetic copy, settle
    /// delay, change-counter check).
    SwapClipboard,
    /// The retrieval is over; `None` means no technique yielded anything.
    Finish(Option<SelectionResult>),
}

/// Which outcome the orchestrator is waiting for.
#[derive(Clone, Debug)]
pub enum PendingStep {
    Idle,
    AwaitingFilePaths { paths_app: String },
    AwaitingProbe { probe_app: String, from_cache_hit: bool },
    AwaitingSwap { swap_app: String, record_fallback: bool },
}

/// The kind of step the orchestrator stands at; lets a driver check the
/// protocol state before feeding an outcome in.
#[derive(Clone, Copy, Debug, PartialEq, Eq, Structural)]
pub enum StepKind {
    Idle,
    AwaitingFilePaths,
    AwaitingProbe,
    AwaitingSwap,
}

/// A foreground application context in which file paths, not text, are
/// retrieved: no foreground application at all, or the file manager.
pub open spec fn is_special_app(app: Seq<char>, file_manager: Seq<char>) -> bool {
    app.len() == 0 || app == file_manager
}

/// Whether a technique's outcome carries non-empty text.
pub open spec fn nonempty_outcome(outcome: Option<String>) -> bool {
    outcome matches Some(t) && t@.len() > 0
}

/// The shape of a finished text retrieval: a `Text` result for `app` whose
/// single item is `text`.
pub open spec fn finished_text(action: Action, app: Seq<char>, text: Seq<char>) -> bool {
    &&& action matches Action::Finish(r)
    &&& r matches Some(res)
    &&& res.source_kind is Text
    &&& res.application_id@ == app
    &&& res.items.deep_view() == seq![text]
}

/// The result invariant: file paths come only out of a file-manager (or
/// no-foreground-application) context, and a text result holds exactly one
/// item.
pub open spec fn result_wf(res: SelectionResult, file_manager: Seq<char>) -> bool {
    &&& (res.source_kind is FilePaths ==> is_special_app(res.application_id@, file_manager))
    &&& (res.source_kind is Text ==> res.items@.len() == 1)
}

/// The adaptive dual-path retrieval engine: the strategy cache, the special
/// file-manager identifier, the tunable settle delay, and the step the
/// current retrieval stands at.
pub struct SelectionEngine {
    cache: StrategyCache,
    file_manager_id: String,
    clipboard_settle_delay_ms: u64,
    pending: PendingStep,
}

/// What consulting the strategy cache for `app` does: the queried entry is
/// refreshed for recency, and the accessibility tree is probed next — on a
/// hit as a cheap double-check of the recorded verdict, on a miss as the
/// first technique tried.
pub open spec fn consult_post(
    pre: SelectionEngine,
    post: SelectionEngine,
    app: Seq<char>,
    action: Action,
) -> bool {
    &&& action == Action::ProbeAccessibility
    &&& post.cache_entries() == lru_touch(pre.cache_entries(), app)
    &&& post.cache_capacity() == pre.cache_capacity()
    &&& post.file_manager() == pre.file_manager()
    &&& post.settle_delay() == pre.settle_delay()
    &&& (pre.wf() ==> post.wf())
    &&& (post.pending_step() matches PendingStep::AwaitingProbe { probe_app, from_cache_hit }
        && probe_app@ == app && from_cache_hit == model_has_key(pre.cache_entries(), app))
}

impl SelectionEngine {
    /// The strategy cache's entries, most recently used first.
    pub closed spec fn cache_entries(&self) -> Seq<(Seq<char>, StrategyVerdict)> {
        self.cache.entries()
    }

    /// The strategy cache's bound.
    pub closed spec fn cache_capacity(&self) -> nat {
        self.cache.capacity()
    }

    /// The identifier of the file-manager application.
    pub closed spec fn file_manager(&self) -> Seq<char> {
        self.file_manager_id@
    }

    /// The clipboard-settle delay, in milliseconds.
    pub closed spec fn settle_delay(&self) -> u64 {
        self.clipboard_settle_delay_ms
    }

    /// The step the current retrieval stands at.
    pub closed spec fn pending_step(&self) -> PendingStep {
        self.pending
    }

    pub open spec fn wf(&self) -> bool {
        &&& model_wf(self.cache_entries(), self.cache_capacity())
        &&& (self.pending_step() matches PendingStep::AwaitingFilePaths { paths_app }
            ==> is_special_app(paths_app@, self.file_manager()))
    }

    /// An engine with the default cache capacity and settle delay.
    pub fn new(file_manager_id: String) -> (e: Self)
        ensures
            e.cache_entries() == Seq::<(Seq<char>, StrategyVerdict)>::empty(),
            e.cache_capacity() == DEFAULT_CACHE_CAPACITY as nat,
            e.file_manager() == file_manager_id@,
            e.settle_delay() == DEFAULT_SETTLE_DELAY_MS,
            e.pending_step() is Idle,
            e.wf(),
    {
        Self::with_tuning(file_manager_id, DEFAULT_CACHE_CAPACITY, DEFAULT_SETTLE_DELAY_MS)
    }

    /// An engine with explicit tunables: the cache capacity and the
    /// clipboard-settle delay.
    pub fn with_tuning(
        file_manager_id: String,
        cache_capacity: usize,
        settle_delay_ms: u64,
    ) -> (e: Self)
        requires
            1 <= cache_capacity,
        ensures
            e.cache_entries() == Seq::<(Seq<char>, StrategyVerdict)>::empty(),
            e.cache_capacity() == cache_capacity as nat,
            e.file_manager() == file_manager_id@,
            e.settle_delay() == settle_delay_ms,
            e.pending_step() is Idle,
            e.wf(),
    {
        SelectionEngine {
            cache: StrategyCache::new(cache_capacity),
            file_manager_id,
            clipboard_settle_delay_ms: settle_delay_ms,
            pending: PendingStep::Idle,
        }
    }

    /// The settle delay the swap driver must wait before re-reading the
    /// clipboard change counter.
    pub fn settle_delay_ms(&self) -> (d: u64)
        ensures
            d == self.settle_delay(),
    {
        self.clipboard_settle_delay_ms
    }

    /// The kind of step the orchestrator stands at.
    pub fn current_step(&self) -> (k: StepKind)
        ensures
            (k == StepKind::Idle <==> self.pending_step() is Idle),
            (k == StepKind::AwaitingFilePaths <==> self.pending_step() is AwaitingFilePaths),
            (k == StepKind::AwaitingProbe <==> self.pending_step() is AwaitingProbe),
            (k == StepKind::AwaitingSwap <==> self.pending_step() is AwaitingSwap),
    {
        match &self.pending {
            PendingStep::Idle => StepKind::Idle,
            PendingStep::AwaitingFilePaths { .. } => StepKind::AwaitingFilePaths,
            PendingStep::AwaitingProbe { .. } => StepKind::AwaitingProbe,
            PendingStep::AwaitingSwap { .. } => StepKind::AwaitingSwap,
        }
    }

    /// The application identifier of the retrieval in progress, if any;
    /// lets a driver check that an outcome it holds still belongs to the
    /// retrieval the engine stands in.
    pub fn pending_application_id(&self) -> (r: Option<&String>)
        ensures
            self.pending_step() is Idle <==> r is None,
            self.pending_step() matches PendingStep::AwaitingFilePaths { paths_app } ==> (
            r matches Some(a) && a@ == paths_app@),
            self.pending_step() matches PendingStep::AwaitingProbe { probe_app, .. } ==> (
            r matches Some(a) && a@ == probe_app@),
            self.pending_step() matches PendingStep::AwaitingSwap { swap_app, .. } ==> (
            r matches Some(a) && a@ == swap_app@),
    {
        match &self.pending {
            PendingStep::Idle => None,
            PendingStep::AwaitingFilePaths { paths_app } => Some(paths_app),
            PendingStep::AwaitingProbe { probe_app, .. } => Some(probe_app),
            PendingStep::AwaitingSwap { swap_app, .. } => Some(swap_app),
        }
    }

    /// The verdict currently cached for an application; the query counts as
    /// a use for recency, as every cache read does.
    pub fn cached_strategy(&mut self, application_id: &String) -> (r: Option<StrategyVerdict>)
        ensures
            final(self).cache_capacity() == old(self).cache_capacity(),
            final(self).file_manager() == old(self).file_manager(),
            final(self).settle_delay() == old(self).settle_delay(),
            final(self).pending_step() == old(self).pending_step(),
            final(self).cache_entries() == lru_touch(old(self).cache_entries(), application_id@),
            r == (if model_has_key(old(self).cache_entries(), application_id@) {
                Some(model_value_of(old(self).cache_entries(), application_id@))
            } else {
                None::<StrategyVerdict>
            }),
            old(self).wf() ==> final(self).wf(),
    {
        self.cache.lookup(application_id)
    }

    /// Starts a retrieval for the given foreground application identifier
    /// (empty when no foreground application could be determined). In a
    /// file-manager or no-foreground-application context the file-path
    /// automation is attempted before any text technique; otherwise the
    /// strategy cache is consulted and the accessibility tree probed.
    pub fn begin(&mut self, application_id: String) -> (action: Action)
        ensures
            final(self).cache_capacity() == old(self).cache_capacity(),
            final(self).file_manager() == old(self).file_manager(),
            final(self).settle_delay() == old(self).settle_delay(),
            old(self).wf() ==> final(self).wf(),
            is_special_app(application_id@, old(self).file_manager()) ==> ({
                &&& action == Action::FetchFilePaths
                &&& final(self).cache_entries() == old(self).cache_entries()
                &&& (final(self).pending_step() matches PendingStep::AwaitingFilePaths {
                    paths_app,
                } && paths_app@ == application_id@)
            }),
            !is_special_app(application_id@, old(self).file_manager()) ==> consult_post(
                *old(self),
                *final(self),
                application_id@,
                action,
            ),
    {
        let special = application_id.as_str().unicode_len() == 0 || application_id.eq(
            &self.file_manager_id,
        );
        if special {
            self.pending = PendingStep::AwaitingFilePaths { paths_app: application_id };
            Action::FetchFilePaths
        } else {
            self.consult(application_id)
        }
    }

    /// Consults the strategy cache and moves to the probe step.
    fn consult(&mut self, application_id: String) -> (action: Action)
        ensures
            consult_post(*old(self), *final(self), application_id@, action),
    {
        let verdict = self.cache.lookup(&application_id);
        let hit = match verdict {
            Some(_) => true,
            None => false,
        };
        self.pending = PendingStep::AwaitingProbe {
            probe_app: application_id,
            from_cache_hit: hit,
        };
        Action::ProbeAccessibility
    }

    /// Takes the outcome of the file-path automation. Success — even with
    /// an empty payload — finishes the retrieval with the tokenized paths;
    /// failure falls through to the text techniques, starting with the
    /// cache consultation, under the same application identifier.
    pub fn on_file_paths(&mut self, outcome: Option<String>) -> (action: Action)
        requires
            old(self).pending_step() is AwaitingFilePaths,
        ensures
            final(self).cache_capacity() == old(self).cache_capacity(),
            final(self).file_manager() == old(self).file_manager(),
            final(self).settle_delay() == old(self).settle_delay(),
            old(self).wf() ==> final(self).wf(),
            outcome matches Some(raw) ==> action matches Action::Finish(r) && r matches Some(res)
                && res.source_kind is FilePaths
                && res.application_id@ == old(self).pending_step()->paths_app@
                && res.items.deep_view() == split_paths_spec(raw@)
                && (old(self).wf() ==> result_wf(res, old(self).file_manager()))
                && final(self).cache_entries() == old(self).cache_entries()
                && final(self).pending_step() is Idle,
            outcome is None ==> consult_post(
                *old(self),
                *final(self),
                old(self).pending_step()->paths_app@,
                action,
            ),
    {
        let app: String = match &self.pending {
            PendingStep::AwaitingFilePaths { paths_app } => paths_app.clone(),
            _ => unreached(),
        };
        match outcome {
            Some(raw) => {
                self.pending = PendingStep::Idle;
                let items = split_file_paths(raw.as_str());
                Action::Finish(
                    Some(
                        SelectionResult {
                            source_kind: SourceKind::FilePaths,
                            application_id: app,
                            items,
                        },
                    ),
                )
            },
            None => self.consult(app),
        }
    }

    /// Takes the outcome of the accessibility probe. Non-empty text settles
    /// the retrieval and records `AccessibilitySucceeded`; an absent or
    /// empty attribute falls back to the clipboard swap. The fallback
    /// records its own success only when the probe step came from a cache
    /// miss; after a hit the swap outcome leaves the cache as it stands.
    pub fn on_probe(&mut self, outcome: Option<String>) -> (action: Action)
        requires
            old(self).pending_step() is AwaitingProbe,
        ensures
            final(self).cache_capacity() == old(self).cache_capacity(),
            final(self).file_manager() == old(self).file_manager(),
            final(self).settle_delay() == old(self).settle_delay(),
            old(self).wf() ==> final(self).wf(),
            outcome matches Some(text) ==> text@.len() > 0 ==> finished_text(
                action,
                old(self).pending_step()->probe_app@,
                text@,
            ) && final(self).cache_entries() == lru_insert(
                old(self).cache_entries(),
                old(self).cache_capacity(),
                old(self).pending_step()->probe_app@,
                StrategyVerdict::AccessibilitySucceeded,
            ) && final(self).pending_step() is Idle,
            !nonempty_outcome(outcome) ==> ({
                &&& action == Action::SwapClipboard
                &&& final(self).cache_entries() == old(self).cache_entries()
                &&& (final(self).pending_step() matches PendingStep::AwaitingSwap {
                    swap_app,
                    record_fallback,
                } && swap_app@ == old(self).pending_step()->probe_app@ && record_fallback == !old(
                    self,
                ).pending_step()->from_cache_hit)
            }),
    {
        let (app, hit): (String, bool) = match &self.pending {
            PendingStep::AwaitingProbe { probe_app, from_cache_hit } => (
                probe_app.clone(),
                *from_cache_hit,
            ),
            _ => unreached(),
        };
        let found: Option<String> = match outcome {
            Some(text) => {
                if text.as_str().unicode_len() > 0 {
                    Some(text)
                } else {
                    None
                }
            },
            None => None,
        };
        match found {
            Some(text) => {
                self.cache.record(app.clone(), StrategyVerdict::AccessibilitySucceeded);
                self.pending = PendingStep::Idle;
                Action::Finish(Some(Self::text_result(app, text)))
            },
            None => {
                self.pending = PendingStep::AwaitingSwap {
                    swap_app: app,
                    record_fallback: !hit,
                };
                Action::SwapClipboard
            },
        }
    }

    /// Takes the outcome of the clipboard swap, the last technique tried.
    /// After a cache hit the swap's text — even empty — is the result, and
    /// an automation launch failure yields absence. After a miss, non-empty
    /// text is the result and records `AccessibilityFailed`; empty text or
    /// a launch failure yields absence with no verdict recorded, so the
    /// next retrieval re-probes from scratch.
    pub fn on_swap(&mut self, outcome: Option<String>) -> (action: Action)
        requires
            old(self).pending_step() is AwaitingSwap,
        ensures
            final(self).cache_capacity() == old(self).cache_capacity(),
            final(self).file_manager() == old(self).file_manager(),
            final(self).settle_delay() == old(self).settle_delay(),
            old(self).wf() ==> final(self).wf(),
            final(self).pending_step() is Idle,
            !old(self).pending_step()->record_fallback
                ==> final(self).cache_entries() == old(self).cache_entries(),
            outcome matches Some(text) ==> !old(self).pending_step()->record_fallback
                ==> finished_text(action, old(self).pending_step()->swap_app@, text@),
            outcome is None ==> action == Action::Finish(None::<SelectionResult>),
            outcome matches Some(text) ==> old(self).pending_step()->record_fallback
                && text@.len() > 0
                ==> finished_text(action, old(self).pending_step()->swap_app@, text@)
                    && final(self).cache_entries() == lru_insert(
                        old(self).cache_entries(),
                        old(self).cache_capacity(),
                        old(self).pending_step()->swap_app@,
                        StrategyVerdict::AccessibilityFailed,
                    ),
            old(self).pending_step()->record_fallback && !nonempty_outcome(outcome)
                ==> action == Action::Finish(None::<SelectionResult>)
                    && final(self).cache_entries() == old(self).cache_entries(),
    {
        let (app, fallback): (String, bool) = match &self.pending {
            PendingStep::AwaitingSwap { swap_app, record_fallback } => (
                swap_app.clone(),
                *record_fallback,
            ),
            _ => unreached(),
        };
        self.pending = PendingStep::Idle;
        if fallback {
            match outcome {
                Some(text) => {
                    if text.as_str().unicode_len() > 0 {
                        self.cache.record(app.clone(), StrategyVerdict::AccessibilityFailed);
                        Action::Finish(Some(Self::text_result(app, text)))
                    } else {
                        Action::Finish(None)
                    }
                },
                None => Action::Finish(None),
            }
        } else {
            match outcome {
                Some(text) => Action::Finish(Some(Self::text_result(app, text))),
                None => Action::Finish(None),
            }
        }
    }

    /// Wraps non-empty or hit-path text as a single-item `Text` result.
    fn text_result(application_id: String, text: String) -> (res: SelectionResult)
        ensures
            res.source_kind is Text,
            res.application_id@ == application_id@,
            res.items.deep_view() == seq![text@],
    {
        let mut items: Vec<String> = Vec::new();
        items.push(text);
        let res = SelectionResult {
            source_kind: SourceKind::Text,
            application_id,
            items,
        };
        proof {
            assert(res.items.deep_view() =~~= seq![text@]);
        }
        res
    }
}

/// After a retrieval in which the accessibility probe succeeded for an
/// application, that application carries the `AccessibilitySucceeded`
/// verdict; by `consult_post`, the next retrieval that consults the cache
/// for it probes the accessibility tree again, and — by the contract of
/// `on_probe` — reaches the clipboard swap only if that probe yields no
/// text.
pub proof fn lemma_probe_success_then_reprobe(
    m: Seq<(Seq<char>, StrategyVerdict)>,
    cap: nat,
    app: Seq<char>,
)
    requires
        model_wf(m, cap),
    ensures
        model_has_key(lru_insert(m, cap, app, StrategyVerdict::AccessibilitySucceeded), app),
        model_value_of(lru_insert(m, cap, app, StrategyVerdict::AccessibilitySucceeded), app)
            == StrategyVerdict::AccessibilitySucceeded,
        model_wf(lru_insert(m, cap, app, StrategyVerdict::AccessibilitySucceeded), cap),
{
    lemma_insert_then_found(m, cap, app, StrategyVerdict::AccessibilitySucceeded);
    lemma_insert_preserves_wf(m, cap, app, StrategyVerdict::AccessibilitySucceeded);
}

/// After a retrieval in which the probe failed and the clipboard swap
/// succeeded for an application, that application carries the
/// `AccessibilityFailed` verdict; by `consult_post`, the next retrieval for
/// it still re-tries the probe once — the cheap double-check — before
/// falling back to the swap again.
pub proof fn lemma_clipboard_success_then_reprobe(
    m: Seq<(Seq<char>, StrategyVerdict)>,
    cap: nat,
    app: Seq<char>,
)
    requires
        model_wf(m, cap),
    ensures
        model_has_key(lru_insert(m, cap, app, StrategyVerdict::AccessibilityFailed), app),
        model_value_of(lru_insert(m, cap, app, StrategyVerdict::AccessibilityFailed), app)
            == StrategyVerdict::AccessibilityFailed,
        model_wf(lru_insert(m, cap, app, StrategyVerdict::AccessibilityFailed), cap),
{
    lemma_insert_then_found(m, cap, app, StrategyVerdict::AccessibilityFailed);
    lemma_insert_preserves_wf(m, cap, app, StrategyVerdict::AccessibilityFailed);
}

} // verus!
