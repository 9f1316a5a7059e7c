//! The search controller: the input fields and options, the search session
//! it drives, the active match, and semantic search.
use vstd::prelude::*;

use crate::navigation::{
    active_match_index,
    lemma_navigation_cycles,
    repeat_select,
    ends_before,
    is_first_at_or_after,
    opt_int,
    select,
    selected_index,
    Anchor,
    Direction,
    MatchRange,
};
use crate::query::{
    all_compile,
    build_search_query,
    pattern_valid,
    query_wf,
    regex_compiles,
    InputErrors,
    QueryView,
    SearchQuery,
};
use crate::text::list_entries;
use crate::semantic::{
    awaits_progress,
    awaits_query,
    semantic_wf,
    index_answered,
    index_refused,
    progress_applied,
    query_cleared,
    toggled,
    ProgressUpdate,
    SemanticAction,
    SemanticPhase,
    SemanticSearch,
    SemanticView,
};
use crate::session::{apply_event, is_current, start_search, ProjectSearch, SearchEvent, SessionView};

verus! {

/// What the presentation is to do after the matches changed.
#[derive(Clone, Copy, Debug, PartialEq, Eq, Structural)]
pub struct ModelChange {
    /// A match to select and scroll to.
    pub select: Option<MatchRange>,
    /// Whether focus moves from the query field to the results.
    pub focus_results: bool,
}

/// The controller's state as plain values.
pub struct SearchViewState {
    pub model: SessionView,
    pub query_text: Seq<char>,
    pub included_files: Seq<char>,
    pub excluded_files: Seq<char>,
    pub case_sensitive: bool,
    pub whole_word: bool,
    pub regex: bool,
    pub semantic: SemanticView,
    pub panels_with_errors: InputErrors,
    pub active_match_index: Option<usize>,
    /// The id of the search whose matches were last shown.
    pub search_id: nat,
    pub query_editor_was_focused: bool,
}

/// The active match is one of the matches, and there is none without matches.
pub open spec fn index_wf(v: SearchViewState) -> bool {
    &&& (v.active_match_index matches Some(i) ==> i < v.model.ranges.len())
    &&& (v.model.ranges.len() == 0 ==> v.active_match_index is None)
}

/// The controller after its session changed to `m`: without matches there
/// is no active match; the first matches of a new search make the first one
/// active and selected, and take focus from the query field.
pub open spec fn after_model_change(v: SearchViewState, m: SessionView, query_editor_focused: bool) -> (
    SearchViewState,
    ModelChange,
) {
    if m.ranges.len() == 0 {
        (
            SearchViewState { model: m, active_match_index: None, ..v },
            ModelChange { select: None, focus_results: false },
        )
    } else {
        let is_new = m.search_id != v.search_id;
        let active = if is_new {
            0
        } else {
            match v.active_match_index {
                Some(i) if i < m.ranges.len() => i,
                _ => 0,
            }
        };
        let focus = is_new && query_editor_focused;
        (
            SearchViewState {
                model: m,
                active_match_index: Some(active),
                search_id: m.search_id,
                query_editor_was_focused: if focus {
                    false
                } else {
                    v.query_editor_was_focused
                },
                ..v
            },
            ModelChange {
                select: if is_new {
                    Some(m.ranges[0])
                } else {
                    None
                },
                focus_results: focus,
            },
        )
    }
}

/// The most results a semantic query asks for.
pub const SEMANTIC_RESULT_LIMIT: usize = 10;

/// A search option that the user toggles.
#[derive(Clone, Copy, Debug, PartialEq, Eq, Structural)]
pub enum SearchOption {
    WholeWord,
    CaseSensitive,
    Regex,
}

/// What the caller is to do after a search was asked for.
pub enum SearchAction {
    /// Nothing runs.
    Idle,
    /// Run the session's active query; its events carry `search_id`.
    Text { search_id: usize },
    /// Ask the semantic index for `phrase`, at most `limit` results; the
    /// answer carries `generation`.
    Semantic { generation: usize, phrase: String, limit: usize },
}

pub enum SearchActionView {
    Idle,
    Text { search_id: nat },
    Semantic { generation: nat, phrase: Seq<char>, limit: nat },
}

impl View for SearchAction {
    type V = SearchActionView;

    open spec fn view(&self) -> SearchActionView {
        match self {
            SearchAction::Idle => SearchActionView::Idle,
            SearchAction::Text { search_id } => SearchActionView::Text { search_id: *search_id as nat },
            SearchAction::Semantic { generation, phrase, limit } => SearchActionView::Semantic {
                generation: *generation as nat,
                phrase: phrase@,
                limit: *limit as nat,
            },
        }
    }
}

/// Which input fields are invalid.
pub open spec fn field_errors(v: SearchViewState) -> InputErrors {
    InputErrors {
        query: !pattern_valid(v.query_text, v.whole_word, v.case_sensitive, v.regex),
        included: !all_compile(list_entries(v.included_files)),
        excluded: !all_compile(list_entries(v.excluded_files)),
    }
}

pub open spec fn fields_valid(v: SearchViewState) -> bool {
    field_errors(v) == InputErrors { query: false, included: false, excluded: false }
}

/// The query that the input fields and options describe.
pub open spec fn query_from_fields(v: SearchViewState) -> QueryView {
    QueryView {
        pattern: v.query_text,
        is_regex: v.regex,
        whole_word: v.whole_word,
        case_sensitive: v.case_sensitive,
        included: list_entries(v.included_files),
        excluded: list_entries(v.excluded_files),
    }
}

/// What a search request does: with semantic search on, a semantic query
/// once indexing is complete and none runs; else the query of the fields is
/// started if they are all valid, and the invalid ones are marked.
pub open spec fn searched(v: SearchViewState) -> (SearchViewState, SearchActionView) {
    match v.semantic.phase {
        SemanticPhase::Off => if fields_valid(v) {
            let m = start_search(v.model, query_from_fields(v));
            (
                SearchViewState {
                    model: m,
                    active_match_index: None,
                    panels_with_errors: field_errors(v),
                    ..v
                },
                SearchActionView::Text { search_id: m.search_id },
            )
        } else {
            (
                SearchViewState { panels_with_errors: field_errors(v), ..v },
                SearchActionView::Idle,
            )
        },
        SemanticPhase::Active { file_count, outstanding, listening, query_running } => if outstanding
            == 0 && !query_running {
            (
                SearchViewState {
                    semantic: SemanticView {
                        generation: v.semantic.generation,
                        phase: SemanticPhase::Active {
                            file_count,
                            outstanding,
                            listening,
                            query_running: true,
                        },
                    },
                    ..v
                },
                SearchActionView::Semantic {
                    generation: v.semantic.generation,
                    phrase: v.query_text,
                    limit: SEMANTIC_RESULT_LIMIT as nat,
                },
            )
        } else {
            (v, SearchActionView::Idle)
        },
        SemanticPhase::Requested => (v, SearchActionView::Idle),
    }
}

/// A search whose regex pattern does not compile runs nothing: the session,
/// with its matches, and the active match stay as they were, and the
/// pattern field is marked invalid.
pub proof fn lemma_invalid_pattern_runs_nothing(v: SearchViewState)
    requires
        v.semantic.phase is Off,
        v.regex,
        !regex_compiles(v.query_text),
    ensures
        searched(v).1 == SearchActionView::Idle,
        searched(v).0.model == v.model,
        searched(v).0.active_match_index == v.active_match_index,
        searched(v).0.panels_with_errors.query,
{
}

/// Stepping the active match as many times as there are matches, in one
/// direction, comes back to the match one started from.
pub proof fn lemma_select_match_cycles(v: SearchViewState, direction: Direction)
    requires
        index_wf(v),
        v.active_match_index is Some,
    ensures
        repeat_select(
            direction,
            opt_int(v.active_match_index),
            v.model.ranges.len() as int,
            v.model.ranges.len(),
        ) == opt_int(v.active_match_index),
{
    lemma_navigation_cycles(
        direction,
        v.active_match_index->0 as int,
        v.model.ranges.len() as int,
    );
}

/// The state with `option` flipped.
pub open spec fn with_option_toggled(v: SearchViewState, option: SearchOption) -> SearchViewState {
    match option {
        SearchOption::WholeWord => SearchViewState { whole_word: !v.whole_word, ..v },
        SearchOption::CaseSensitive => SearchViewState { case_sensitive: !v.case_sensitive, ..v },
        SearchOption::Regex => SearchViewState { regex: !v.regex, ..v },
    }
}

/// What the results area shows when there are no matches.
#[derive(Clone, Copy, Debug, PartialEq, Eq, Structural)]
pub enum ResultsStatus {
    /// There are matches to show.
    Matches,
    /// The query is empty.
    EmptyQuery,
    /// A search or a semantic query runs.
    Searching,
    /// Indexing runs: `done` of `total` files are indexed.
    Indexing { done: usize, total: usize },
    /// Indexing is complete and no semantic query runs.
    IndexingComplete,
    /// The search has ended without a match.
    NoResults,
}

/// Where the results view places its breadcrumbs in the toolbar.
#[derive(Clone, Copy, Debug, PartialEq, Eq, Structural)]
pub enum ToolbarItemLocation {
    Hidden,
    PrimaryLeft,
    PrimaryRight,
    Secondary,
}

/// Which editor of the controller takes focus.
#[derive(Clone, Copy, Debug, PartialEq, Eq, Structural)]
pub enum FocusTarget {
    QueryEditor,
    ResultsEditor,
}

/// What the results area shows.
pub open spec fn status_of(v: SearchViewState) -> ResultsStatus {
    if v.model.ranges.len() > 0 {
        ResultsStatus::Matches
    } else if v.query_text.len() == 0 {
        ResultsStatus::EmptyQuery
    } else {
        match v.semantic.phase {
            SemanticPhase::Active { file_count, outstanding, query_running, .. } => if query_running {
                ResultsStatus::Searching
            } else if outstanding > 0 {
                ResultsStatus::Indexing {
                    done: (file_count - outstanding) as usize,
                    total: file_count as usize,
                }
            } else {
                ResultsStatus::IndexingComplete
            },
            _ => if v.model.pending {
                ResultsStatus::Searching
            } else {
                ResultsStatus::NoResults
            },
        }
    }
}

/// The search controller of one project.
pub struct ProjectSearchView {
    model: ProjectSearch,
    query_text: String,
    included_files: String,
    excluded_files: String,
    case_sensitive: bool,
    whole_word: bool,
    regex: bool,
    semantic: SemanticSearch,
    panels_with_errors: InputErrors,
    active_match_index: Option<usize>,
    search_id: usize,
    query_editor_was_focused: bool,
}

impl View for ProjectSearchView {
    type V = SearchViewState;

    closed spec fn view(&self) -> SearchViewState {
        SearchViewState {
            model: self.model@,
            query_text: self.query_text@,
            included_files: self.included_files@,
            excluded_files: self.excluded_files@,
            case_sensitive: self.case_sensitive,
            whole_word: self.whole_word,
            regex: self.regex,
            semantic: self.semantic@,
            panels_with_errors: self.panels_with_errors,
            active_match_index: self.active_match_index,
            search_id: self.search_id as nat,
            query_editor_was_focused: self.query_editor_was_focused,
        }
    }
}

impl ProjectSearchView {
    pub closed spec fn wf(&self) -> bool {
        &&& self.semantic.wf()
        &&& index_wf(self@)
    }

    /// A controller for `model`, with the fields and options of its query,
    /// or empty ones when it has none.
    pub fn new(model: ProjectSearch) -> (r: ProjectSearchView)
        ensures
            r.wf(),
            r@.model == model@,
            r@.query_text == match model@.query {
                Some(q) => q.pattern,
                None => Seq::empty(),
            },
            r@.regex == (model@.query matches Some(q) && q.is_regex),
            r@.whole_word == (model@.query matches Some(q) && q.whole_word),
            r@.case_sensitive == (model@.query matches Some(q) && q.case_sensitive),
            r@.included_files == Seq::<char>::empty(),
            r@.excluded_files == Seq::<char>::empty(),
            r@.semantic == (SemanticView { generation: 0, phase: SemanticPhase::Off }),
            r@.panels_with_errors == (InputErrors { query: false, included: false, excluded: false }),
            r@.active_match_index == if model@.ranges.len() > 0 {
                Some(0usize)
            } else {
                None
            },
            r@.search_id == model@.search_id,
            !r@.query_editor_was_focused,
    {
        let mut query_text = String::new();
        let mut regex = false;
        let mut whole_word = false;
        let mut case_sensitive = false;
        match model.active_query() {
            Some(q) => {
                query_text = q.as_str().to_owned();
                regex = q.is_regex();
                whole_word = q.whole_word();
                case_sensitive = q.case_sensitive();
            },
            None => {},
        }
        let active_match_index = if model.match_ranges().len() > 0 {
            Some(0)
        } else {
            None
        };
        let search_id = model.search_id();
        ProjectSearchView {
            model,
            query_text,
            included_files: String::new(),
            excluded_files: String::new(),
            case_sensitive,
            whole_word,
            regex,
            semantic: SemanticSearch::new(),
            panels_with_errors: InputErrors::none(),
            active_match_index,
            search_id,
            query_editor_was_focused: false,
        }
    }

    /// Brings the active match and the shown search up to date after the
    /// session changed.
    fn model_changed(&mut self, query_editor_focused: bool) -> (r: ModelChange)
        requires
            old(self).semantic.wf(),
        ensures
            final(self).wf(),
            (final(self)@, r) == after_model_change(old(self)@, old(self)@.model, query_editor_focused),
    {
        let ranges = self.model.match_ranges();
        if ranges.len() == 0 {
            self.active_match_index = None;
            return ModelChange { select: None, focus_results: false };
        }
        let model_id = self.model.search_id();
        let is_new = model_id != self.search_id;
        let active = if is_new {
            0
        } else {
            match self.active_match_index {
                Some(i) => if i < ranges.len() {
                    i
                } else {
                    0
                },
                None => 0,
            }
        };
        let select = if is_new {
            Some(ranges[0])
        } else {
            None
        };
        let focus = is_new && query_editor_focused;
        self.active_match_index = Some(active);
        self.search_id = model_id;
        if focus {
            self.query_editor_was_focused = false;
        }
        ModelChange { select, focus_results: focus }
    }

    /// Applies an event of the running search; returns what the
    /// presentation is to do, or `None` when the event was stale.
    pub fn handle_search_event(&mut self, event: SearchEvent, query_editor_focused: bool) -> (r:
        Option<ModelChange>)
        requires
            old(self).wf(),
        ensures
            final(self).wf(),
            !is_current(old(self)@.model, event@) ==> r is None && final(self)@ == old(self)@,
            is_current(old(self)@.model, event@) ==> r is Some && (final(self)@, r->0)
                == after_model_change(
                old(self)@,
                apply_event(old(self)@.model, event@),
                query_editor_focused,
            ),
    {
        if self.model.handle_event(event) {
            Some(self.model_changed(query_editor_focused))
        } else {
            None
        }
    }

    /// Steps the active match in `direction`, wrapping around; returns the
    /// match to select.
    pub fn select_match(&mut self, direction: Direction) -> (r: Option<MatchRange>)
        requires
            old(self).wf(),
        ensures
            final(self).wf(),
            final(self)@ == (SearchViewState {
                active_match_index: final(self)@.active_match_index,
                ..old(self)@
            }),
            opt_int(final(self)@.active_match_index) == selected_index(
                direction,
                opt_int(old(self)@.active_match_index),
                old(self)@.model.ranges.len() as int,
            ),
            r == match final(self)@.active_match_index {
                Some(i) => Some(old(self)@.model.ranges[i as int]),
                None => None,
            },
    {
        let ranges = self.model.match_ranges();
        let new_index = select(direction, self.active_match_index, ranges.len());
        self.active_match_index = new_index;
        match new_index {
            Some(i) => Some(ranges[i]),
            None => None,
        }
    }

    /// Makes the match under the caret, or the first one after it, the
    /// active one; says whether the active match changed.
    pub fn update_match_index(&mut self, caret: Anchor) -> (changed: bool)
        requires
            old(self).wf(),
        ensures
            final(self).wf(),
            final(self)@ == (SearchViewState {
                active_match_index: final(self)@.active_match_index,
                ..old(self)@
            }),
            match final(self)@.active_match_index {
                Some(i) => is_first_at_or_after(old(self)@.model.ranges, caret, i as int),
                None => forall|j: int|
                    0 <= j < old(self)@.model.ranges.len() ==> ends_before(
                        #[trigger] old(self)@.model.ranges[j],
                        caret,
                    ),
            },
            changed == (final(self)@.active_match_index != old(self)@.active_match_index),
    {
        let new_index = active_match_index(self.model.match_ranges(), caret);
        let changed = new_index != self.active_match_index;
        self.active_match_index = new_index;
        changed
    }

    /// Whether the search has found any match; the caret lying outside
    /// every match does not count as having none.
    pub fn has_matches(&self) -> (r: bool)
        ensures
            r == (self@.model.ranges.len() > 0),
    {
        self.model.match_ranges().len() > 0
    }
}

impl ProjectSearchView {
    /// Validates the input fields and marks the invalid ones; returns the
    /// query they describe when all are valid.
    pub fn build_search_query(&mut self) -> (r: Option<SearchQuery>)
        requires
            old(self).wf(),
        ensures
            final(self).wf(),
            final(self)@ == (SearchViewState { panels_with_errors: field_errors(old(self)@), ..old(self)@ }),
            r is Some <==> fields_valid(old(self)@),
            r matches Some(q) ==> q@ == query_from_fields(old(self)@) && query_wf(q@),
    {
        let built = build_search_query(
            self.query_text.as_str(),
            self.whole_word,
            self.case_sensitive,
            self.regex,
            self.included_files.as_str(),
            self.excluded_files.as_str(),
        );
        match built {
            Ok(q) => {
                self.panels_with_errors = InputErrors::none();
                Some(q)
            },
            Err(e) => {
                self.panels_with_errors = e;
                None
            },
        }
    }

    /// Runs the search that the fields describe, or a semantic query when
    /// semantic search is on.
    pub fn search(&mut self) -> (r: SearchAction)
        requires
            old(self).wf(),
            old(self)@.model.search_id < usize::MAX,
        ensures
            final(self).wf(),
            (final(self)@, r@) == searched(old(self)@),
    {
        if self.semantic.is_on() {
            match self.semantic.start_query() {
                Some(generation) => {
                    return SearchAction::Semantic {
                        generation,
                        phrase: self.query_text.clone(),
                        limit: SEMANTIC_RESULT_LIMIT,
                    };
                },
                None => {
                    return SearchAction::Idle;
                },
            }
        }
        match self.build_search_query() {
            Some(q) => {
                let search_id = self.model.search(q);
                self.active_match_index = None;
                SearchAction::Text { search_id }
            },
            None => SearchAction::Idle,
        }
    }

    /// Flips `option` and searches again.
    pub fn toggle_search_option(&mut self, option: SearchOption) -> (r: SearchAction)
        requires
            old(self).wf(),
            old(self)@.model.search_id < usize::MAX,
        ensures
            final(self).wf(),
            (final(self)@, r@) == searched(with_option_toggled(old(self)@, option)),
    {
        match option {
            SearchOption::WholeWord => self.whole_word = !self.whole_word,
            SearchOption::CaseSensitive => self.case_sensitive = !self.case_sensitive,
            SearchOption::Regex => self.regex = !self.regex,
        }
        self.search()
    }

    /// Whether `option` is on.
    pub fn is_option_enabled(&self, option: SearchOption) -> (r: bool)
        ensures
            r == match option {
                SearchOption::WholeWord => self@.whole_word,
                SearchOption::CaseSensitive => self@.case_sensitive,
                SearchOption::Regex => self@.regex,
            },
    {
        match option {
            SearchOption::WholeWord => self.whole_word,
            SearchOption::CaseSensitive => self.case_sensitive,
            SearchOption::Regex => self.regex,
        }
    }

    /// Starts the query of the fields in a new session, which is returned,
    /// and puts this controller's fields and options back to those of its
    /// own query. Nothing happens when a field is invalid but the marking.
    pub fn search_in_new(&mut self) -> (r: Option<ProjectSearch>)
        requires
            old(self).wf(),
        ensures
            final(self).wf(),
            r is Some <==> fields_valid(old(self)@),
            r matches Some(m) ==> m@ == start_search(
                SessionView { search_id: 0, query: None, ranges: Seq::empty(), pending: false },
                query_from_fields(old(self)@),
            ),
            final(self)@.panels_with_errors == field_errors(old(self)@),
            final(self)@.model == old(self)@.model,
            final(self)@.active_match_index == old(self)@.active_match_index,
            final(self)@.included_files == old(self)@.included_files,
            final(self)@.excluded_files == old(self)@.excluded_files,
            final(self)@.semantic == old(self)@.semantic,
            final(self)@.search_id == old(self)@.search_id,
            final(self)@.query_editor_was_focused == old(self)@.query_editor_was_focused,
            match (r, old(self)@.model.query) {
                (Some(_), Some(q)) => {
                    &&& final(self)@.query_text == q.pattern
                    &&& final(self)@.regex == q.is_regex
                    &&& final(self)@.whole_word == q.whole_word
                    &&& final(self)@.case_sensitive == q.case_sensitive
                },
                _ => {
                    &&& final(self)@.query_text == old(self)@.query_text
                    &&& final(self)@.regex == old(self)@.regex
                    &&& final(self)@.whole_word == old(self)@.whole_word
                    &&& final(self)@.case_sensitive == old(self)@.case_sensitive
                },
            },
    {
        let new_query = self.build_search_query();
        match new_query {
            Some(q) => {
                match self.model.active_query() {
                    Some(old_query) => {
                        self.query_text = old_query.as_str().to_owned();
                        self.regex = old_query.is_regex();
                        self.whole_word = old_query.whole_word();
                        self.case_sensitive = old_query.case_sensitive();
                    },
                    None => {},
                }
                let mut model = ProjectSearch::new();
                model.search(q);
                Some(model)
            },
            None => None,
        }
    }
}

impl ProjectSearchView {
    /// Turns semantic search on or off.
    pub fn toggle_semantic_search(&mut self) -> (r: SemanticAction)
        requires
            old(self).wf(),
            old(self)@.semantic.generation < usize::MAX,
        ensures
            final(self).wf(),
            final(self)@ == (SearchViewState { semantic: toggled(old(self)@.semantic), ..old(self)@ }),
            r == if old(self)@.semantic.phase is Off {
                SemanticAction::RequestIndex { generation: r->generation }
            } else {
                SemanticAction::Cancel
            },
            r is RequestIndex ==> r->generation as nat == final(self)@.semantic.generation,
    {
        self.semantic.toggle()
    }

    /// The indexer's answer to the request of `generation`.
    pub fn index_ready(&mut self, generation: usize, file_count: usize) -> (accepted: bool)
        requires
            old(self).wf(),
        ensures
            final(self).wf(),
            final(self)@ == (SearchViewState {
                semantic: index_answered(old(self)@.semantic, generation as nat, file_count as nat),
                ..old(self)@
            }),
            accepted == (old(self)@.semantic.phase is Requested && generation as nat == old(
                self,
            )@.semantic.generation),
    {
        self.semantic.index_ready(generation, file_count)
    }

    /// The indexer refused the request of `generation`.
    pub fn index_failed(&mut self, generation: usize) -> (accepted: bool)
        requires
            old(self).wf(),
        ensures
            final(self).wf(),
            final(self)@ == (SearchViewState {
                semantic: index_refused(old(self)@.semantic, generation as nat),
                ..old(self)@
            }),
            accepted == (old(self)@.semantic.phase is Requested && generation as nat == old(
                self,
            )@.semantic.generation),
    {
        self.semantic.index_failed(generation)
    }

    /// A progress value of the indexing of `generation`.
    pub fn indexing_progress(&mut self, generation: usize, count: usize) -> (r: ProgressUpdate)
        requires
            old(self).wf(),
        ensures
            final(self).wf(),
            final(self)@ == (SearchViewState {
                semantic: progress_applied(old(self)@.semantic, generation as nat, count as nat),
                ..old(self)@
            }),
            r == if awaits_progress(old(self)@.semantic, generation as nat) {
                if count == 0 {
                    ProgressUpdate::Complete
                } else {
                    ProgressUpdate::Updated
                }
            } else {
                ProgressUpdate::Ignored
            },
    {
        self.semantic.indexing_progress(generation, count)
    }

    /// The answer of the semantic query of `generation`, ranked: when it is
    /// the running query's, it is cleared and the results are shown.
    pub fn semantic_search_finished(&mut self, generation: usize, results: Vec<MatchRange>) -> (r:
        Option<ModelChange>)
        requires
            old(self).wf(),
            old(self)@.model.search_id < usize::MAX,
        ensures
            final(self).wf(),
            !awaits_query(old(self)@.semantic, generation as nat) ==> r is None && final(self)@
                == old(self)@,
            awaits_query(old(self)@.semantic, generation as nat) ==> r is Some && (final(self)@, r->0)
                == after_model_change(
                SearchViewState {
                    semantic: query_cleared(old(self)@.semantic, generation as nat),
                    ..old(self)@
                },
                SessionView {
                    search_id: old(self)@.model.search_id + 1,
                    query: old(self)@.model.query,
                    ranges: results@,
                    pending: false,
                },
                false,
            ),
    {
        if self.semantic.query_finished(generation) {
            self.model.show_ranked_matches(results);
            Some(self.model_changed(false))
        } else {
            None
        }
    }

    /// What the results area shows.
    pub fn results_status(&self) -> (r: ResultsStatus)
        requires
            self.wf(),
        ensures
            r == status_of(self@),
    {
        proof {
            self.semantic.lemma_wf();
        }
        if self.model.match_ranges().len() > 0 {
            return ResultsStatus::Matches;
        }
        if self.query_text.as_str().is_empty() {
            return ResultsStatus::EmptyQuery;
        }
        match self.semantic.state() {
            Some(s) => if s.search_task {
                ResultsStatus::Searching
            } else if s.outstanding_file_count > 0 {
                ResultsStatus::Indexing {
                    done: s.file_count - s.outstanding_file_count,
                    total: s.file_count,
                }
            } else {
                ResultsStatus::IndexingComplete
            },
            None => if self.model.is_pending() {
                ResultsStatus::Searching
            } else {
                ResultsStatus::NoResults
            },
        }
    }

    /// The tab's tooltip: the query, or a title when it is empty.
    pub fn tab_tooltip_text(&self) -> (r: String)
        ensures
            r@ == if self@.query_text.len() > 0 {
                self@.query_text
            } else {
                "Project Search"@
            },
    {
        if self.query_text.as_str().is_empty() {
            "Project Search".to_owned()
        } else {
            self.query_text.clone()
        }
    }

    /// Breadcrumbs show while there are matches.
    pub fn breadcrumb_location(&self) -> (r: ToolbarItemLocation)
        ensures
            r == if self@.model.ranges.len() > 0 {
                ToolbarItemLocation::Secondary
            } else {
                ToolbarItemLocation::Hidden
            },
    {
        if self.has_matches() {
            ToolbarItemLocation::Secondary
        } else {
            ToolbarItemLocation::Hidden
        }
    }

    /// The editor that takes focus when the controller does: the one that
    /// had it last.
    pub fn focus_in(&self) -> (r: FocusTarget)
        ensures
            r == if self@.query_editor_was_focused {
                FocusTarget::QueryEditor
            } else {
                FocusTarget::ResultsEditor
            },
    {
        if self.query_editor_was_focused {
            FocusTarget::QueryEditor
        } else {
            FocusTarget::ResultsEditor
        }
    }

    /// Records that focus went to the query field.
    pub fn focus_query_editor(&mut self)
        requires
            old(self).wf(),
        ensures
            final(self).wf(),
            final(self)@ == (SearchViewState { query_editor_was_focused: true, ..old(self)@ }),
    {
        self.query_editor_was_focused = true;
    }

    /// Records that focus went to the results.
    pub fn focus_results_editor(&mut self)
        requires
            old(self).wf(),
        ensures
            final(self).wf(),
            final(self)@ == (SearchViewState { query_editor_was_focused: false, ..old(self)@ }),
    {
        self.query_editor_was_focused = false;
    }

    /// Moves focus to the results when they are not focused and there are
    /// matches; says whether it did.
    pub fn move_focus_to_results(&mut self, results_editor_focused: bool) -> (moved: bool)
        requires
            old(self).wf(),
        ensures
            final(self).wf(),
            moved == (!results_editor_focused && old(self)@.model.ranges.len() > 0),
            final(self)@ == if moved {
                SearchViewState { query_editor_was_focused: false, ..old(self)@ }
            } else {
                old(self)@
            },
    {
        if !results_editor_focused && self.model.match_ranges().len() > 0 {
            self.focus_results_editor();
            true
        } else {
            false
        }
    }

    /// Replaces the query field's text.
    pub fn set_query(&mut self, text: &str)
        requires
            old(self).wf(),
        ensures
            final(self).wf(),
            final(self)@ == (SearchViewState { query_text: text@, ..old(self)@ }),
    {
        self.query_text = text.to_owned();
    }

    /// Replaces the inclusion filter's text.
    pub fn set_included_files(&mut self, text: &str)
        requires
            old(self).wf(),
        ensures
            final(self).wf(),
            final(self)@ == (SearchViewState { included_files: text@, ..old(self)@ }),
    {
        self.included_files = text.to_owned();
    }

    /// Replaces the exclusion filter's text.
    pub fn set_excluded_files(&mut self, text: &str)
        requires
            old(self).wf(),
        ensures
            final(self).wf(),
            final(self)@ == (SearchViewState { excluded_files: text@, ..old(self)@ }),
    {
        self.excluded_files = text.to_owned();
    }

    pub fn model(&self) -> (r: &ProjectSearch)
        ensures
            r@ == self@.model,
    {
        &self.model
    }

    pub fn semantic(&self) -> (r: &SemanticSearch)
        ensures
            r@ == self@.semantic,
            self.wf() ==> r.wf(),
    {
        &self.semantic
    }

    pub fn active_match_index(&self) -> (r: Option<usize>)
        ensures
            r == self@.active_match_index,
    {
        self.active_match_index
    }

    pub fn query_text(&self) -> (r: &str)
        ensures
            r@ == self@.query_text,
    {
        self.query_text.as_str()
    }

    pub fn panels_with_errors(&self) -> (r: InputErrors)
        ensures
            r == self@.panels_with_errors,
    {
        self.panels_with_errors
    }

    /// What a well formed controller guarantees: a valid active match, and
    /// no more files outstanding than there are files to index.
    pub proof fn lemma_wf(&self)
        requires
            self.wf(),
        ensures
            index_wf(self@),
            semantic_wf(self@.semantic),
    {
        self.semantic.lemma_wf();
    }
}

} // verus!
