use project_search::navigation::{select, Anchor, Direction, MatchRange};
use project_search::semantic::{ProgressUpdate, SemanticAction};
use project_search::session::{order_matches, DocumentMatches, ProjectSearch, SearchEvent};
use project_search::view::{ResultsStatus, SearchAction, SearchOption};
use project_search::ProjectSearchView;

const FILES: [(&str, &str); 4] = [
    ("one.rs", "const ONE: usize = 1;"),
    ("two.rs", "const TWO: usize = one::ONE + one::ONE;"),
    ("three.rs", "const THREE: usize = one::ONE + two::TWO;"),
    ("four.rs", "const FOUR: usize = one::ONE + three::THREE;"),
];

/// Plays the project's search capability: case-insensitive occurrences of
/// `query` in each file, in the order the files are given.
fn fake_search(files: &[(&str, &str)], query: &str) -> Vec<DocumentMatches> {
    let needle = query.to_lowercase();
    let mut docs = Vec::new();
    for (i, (path, text)) in files.iter().enumerate() {
        let hay = text.to_lowercase();
        let mut ranges = Vec::new();
        let mut from = 0;
        while let Some(pos) = hay[from..].find(&needle) {
            let start = from + pos;
            ranges.push((start, start + needle.len()));
            from = start + needle.len();
        }
        if !ranges.is_empty() {
            docs.push(DocumentMatches {
                buffer_id: i as u64,
                path: Some(vec![path.to_string()]),
                ranges,
            });
        }
    }
    docs
}

fn text_search_id(action: SearchAction) -> usize {
    match action {
        SearchAction::Text { search_id } => search_id,
        _ => panic!("expected a text search to start"),
    }
}

fn range(buffer_id: u64, excerpt: usize, start: usize, end: usize) -> MatchRange {
    MatchRange { buffer_id, excerpt, start, end }
}

/// Runs `query` in `view` to completion against the fake files.
fn run_search(view: &mut ProjectSearchView, query: &str, query_focused: bool) {
    view.set_query(query);
    let id = text_search_id(view.search());
    let documents = fake_search(&FILES, query);
    view.handle_search_event(SearchEvent::Results { search_id: id, documents }, query_focused);
    view.handle_search_event(SearchEvent::Finished { search_id: id }, query_focused);
}

#[test]
fn test_project_search() {
    let mut view = ProjectSearchView::new(ProjectSearch::new());
    view.set_query("TWO");
    let id = text_search_id(view.search());
    let documents = fake_search(&FILES, "TWO");
    let change = view
        .handle_search_event(SearchEvent::Results { search_id: id, documents }, false)
        .unwrap();
    view.handle_search_event(SearchEvent::Finished { search_id: id }, false);

    let three = range(2, 0, 32, 35);
    let three_upper = range(2, 0, 37, 40);
    let two = range(1, 1, 6, 9);
    assert_eq!(view.model().match_ranges(), &vec![three, three_upper, two]);
    assert!(!view.model().is_pending());
    assert_eq!(view.active_match_index(), Some(0));
    assert_eq!(change.select, Some(three));

    assert_eq!(view.select_match(Direction::Next), Some(three_upper));
    assert_eq!(view.active_match_index(), Some(1));
    assert_eq!(view.select_match(Direction::Next), Some(two));
    assert_eq!(view.active_match_index(), Some(2));
    assert_eq!(view.select_match(Direction::Next), Some(three));
    assert_eq!(view.active_match_index(), Some(0));
    assert_eq!(view.select_match(Direction::Prev), Some(two));
    assert_eq!(view.active_match_index(), Some(2));
    assert_eq!(view.select_match(Direction::Prev), Some(three_upper));
    assert_eq!(view.active_match_index(), Some(1));
}

#[test]
fn test_project_search_focus() {
    let mut registry = project_search::init();
    let project = 1u64;
    let view_id = 10u64;
    let open: Vec<u64> = Vec::new();
    assert_eq!(
        registry.deploy_target(project, &open),
        project_search::panes::DeployTarget::New
    );

    let mut view = ProjectSearchView::new(ProjectSearch::new());
    view.focus_query_editor();
    registry.activate(project, view_id);
    assert_eq!(view.focus_in(), project_search::view::FocusTarget::QueryEditor);
    assert!(!view.move_focus_to_results(false));
    assert_eq!(view.query_text(), "");
    assert!(view.model().match_ranges().is_empty());

    run_search(&mut view, "sOMETHINGtHATsURELYdOESnOTeXIST", true);
    assert!(view.model().match_ranges().is_empty());
    assert!(!view.move_focus_to_results(false));
    assert_eq!(view.focus_in(), project_search::view::FocusTarget::QueryEditor);

    view.set_query("TWO");
    let id = text_search_id(view.search());
    let documents = fake_search(&FILES, "TWO");
    let change = view
        .handle_search_event(SearchEvent::Results { search_id: id, documents }, true)
        .unwrap();
    assert!(change.focus_results);
    assert_eq!(view.focus_in(), project_search::view::FocusTarget::ResultsEditor);
    assert!(!view.move_focus_to_results(true));

    let open = vec![view_id];
    assert_eq!(
        registry.deploy_target(project, &open),
        project_search::panes::DeployTarget::Existing(view_id)
    );
    let suggestion = project_search::panes::deploy_query(Some("two".to_string())).unwrap();
    view.set_query(&suggestion);
    view.focus_query_editor();
    assert_eq!(view.query_text(), "two");
    assert_eq!(view.model().match_ranges().len(), 3);
    assert_eq!(view.focus_in(), project_search::view::FocusTarget::QueryEditor);
    assert!(view.move_focus_to_results(false));
    assert_eq!(view.focus_in(), project_search::view::FocusTarget::ResultsEditor);
}

#[test]
fn search_settles_with_sorted_matches() {
    let mut view = ProjectSearchView::new(ProjectSearch::new());
    view.set_query("one");
    let id = text_search_id(view.search());
    assert!(view.model().is_pending());
    assert_eq!(view.results_status(), ResultsStatus::Searching);
    let all = order_matches(fake_search(&FILES, "one"));
    assert_eq!(all.len(), 9);
    let documents = fake_search(&FILES, "one");
    view.handle_search_event(SearchEvent::Results { search_id: id, documents }, false);
    assert!(view.model().is_pending());
    view.handle_search_event(SearchEvent::Finished { search_id: id }, false);
    assert!(!view.model().is_pending());
    assert_eq!(view.model().match_ranges(), &all);
    // four.rs, one.rs, three.rs, two.rs
    let excerpts: Vec<usize> = all.iter().map(|r| r.excerpt).collect();
    assert_eq!(excerpts, vec![0, 0, 1, 2, 2, 3, 3, 3, 3]);
    assert_eq!(all[0].buffer_id, 3);
    assert_eq!(all[2].buffer_id, 0);
    assert_eq!(view.results_status(), ResultsStatus::Matches);
}

#[test]
fn rerun_reproduces_the_same_order() {
    let mut view = ProjectSearchView::new(ProjectSearch::new());
    run_search(&mut view, "ONE", false);
    let first = view.model().match_ranges().clone();

    let mut reversed = FILES;
    reversed.reverse();
    let id = text_search_id(view.search());
    let docs = fake_search(&reversed, "ONE");
    // the same documents under the same buffer ids, delivered in reverse
    let docs: Vec<DocumentMatches> = docs
        .into_iter()
        .map(|d| DocumentMatches { buffer_id: 3 - d.buffer_id, ..d })
        .collect();
    view.handle_search_event(
        SearchEvent::Results { search_id: id, documents: docs },
        false,
    );
    view.handle_search_event(SearchEvent::Finished { search_id: id }, false);
    assert_eq!(view.model().match_ranges(), &first);
}

#[test]
fn navigation_cycles_back_to_start() {
    for start in 0..4usize {
        let mut i = Some(start);
        for _ in 0..4 {
            i = select(Direction::Next, i, 4);
        }
        assert_eq!(i, Some(start));
        for _ in 0..4 {
            i = select(Direction::Prev, i, 4);
        }
        assert_eq!(i, Some(start));
    }
    assert_eq!(select(Direction::Next, None, 3), Some(0));
    assert_eq!(select(Direction::Prev, None, 3), Some(0));
    assert_eq!(select(Direction::Next, None, 0), None);
    assert_eq!(select(Direction::Prev, Some(0), 3), Some(2));
    assert_eq!(select(Direction::Next, Some(2), 3), Some(0));
}

#[test]
fn superseded_search_results_are_discarded() {
    let mut view = ProjectSearchView::new(ProjectSearch::new());
    view.set_query("TWO");
    let first = text_search_id(view.search());
    view.set_query("FOUR");
    let second = text_search_id(view.search());
    assert_eq!(second, first + 1);

    let stale = fake_search(&FILES, "TWO");
    assert!(view
        .handle_search_event(SearchEvent::Results { search_id: first, documents: stale }, false)
        .is_none());
    assert!(view
        .handle_search_event(SearchEvent::Finished { search_id: first }, false)
        .is_none());
    assert!(view.model().is_pending());
    assert!(view.model().match_ranges().is_empty());

    let fresh = order_matches(fake_search(&FILES, "FOUR"));
    let documents = fake_search(&FILES, "FOUR");
    view.handle_search_event(SearchEvent::Results { search_id: second, documents }, false);
    view.handle_search_event(SearchEvent::Failed { search_id: second }, false);
    assert_eq!(view.model().match_ranges(), &fresh);
    assert_eq!(fresh, vec![range(3, 0, 6, 10)]);
    assert!(!view.model().is_pending());
}

#[test]
fn invalid_regex_is_reported_and_not_run() {
    let mut view = ProjectSearchView::new(ProjectSearch::new());
    run_search(&mut view, "TWO", false);
    let before = view.model().match_ranges().clone();
    let id = view.model().search_id();

    view.set_query("const (");
    let action = view.toggle_search_option(SearchOption::Regex);
    assert!(matches!(action, SearchAction::Idle));
    assert!(view.is_option_enabled(SearchOption::Regex));
    let errors = view.panels_with_errors();
    assert!(errors.query);
    assert!(!errors.included);
    assert!(!errors.excluded);
    assert_eq!(view.model().search_id(), id);
    assert_eq!(view.model().match_ranges(), &before);

    view.set_query("const \\w+");
    let action = view.search();
    assert_eq!(text_search_id(action), id + 1);
    assert!(!view.panels_with_errors().query);
}

#[test]
fn semantic_indexing_progress_reaches_completion() {
    let mut view = ProjectSearchView::new(ProjectSearch::new());
    view.set_query("constants");
    let generation = match view.toggle_semantic_search() {
        SemanticAction::RequestIndex { generation } => generation,
        SemanticAction::Cancel => panic!("expected an index request"),
    };
    assert_eq!(view.semantic().progress(), None);
    assert!(view.index_ready(generation, 5));
    assert_eq!(view.semantic().progress(), Some((0, 5)));
    assert_eq!(view.results_status(), ResultsStatus::Indexing { done: 0, total: 5 });

    assert_eq!(view.indexing_progress(generation, 5), ProgressUpdate::Updated);
    assert_eq!(view.indexing_progress(generation, 3), ProgressUpdate::Updated);
    assert_eq!(view.results_status(), ResultsStatus::Indexing { done: 2, total: 5 });
    assert_eq!(view.indexing_progress(generation, 0), ProgressUpdate::Complete);

    let state = view.semantic().state().as_ref().unwrap();
    assert_eq!(state.outstanding_file_count, 0);
    assert_eq!(state.file_count, 5);
    assert!(!state.search_task);
    assert_eq!(view.results_status(), ResultsStatus::IndexingComplete);
}

#[test]
fn semantic_query_runs_one_at_a_time() {
    let mut view = ProjectSearchView::new(ProjectSearch::new());
    view.set_query("constants");
    let generation = match view.toggle_semantic_search() {
        SemanticAction::RequestIndex { generation } => generation,
        SemanticAction::Cancel => panic!("expected an index request"),
    };
    view.index_ready(generation, 2);
    assert!(matches!(view.search(), SearchAction::Idle));
    view.indexing_progress(generation, 0);
    match view.search() {
        SearchAction::Semantic { generation: g, phrase, limit } => {
            assert_eq!(g, generation);
            assert_eq!(phrase, "constants");
            assert_eq!(limit, 10);
        }
        _ => panic!("expected a semantic query"),
    }
    assert_eq!(view.results_status(), ResultsStatus::Searching);
    assert!(matches!(view.search(), SearchAction::Idle));

    let ranked = vec![range(2, 0, 0, 5), range(0, 1, 0, 5)];
    assert!(view.semantic_search_finished(generation + 1, ranked.clone()).is_none());
    let change = view.semantic_search_finished(generation, ranked.clone()).unwrap();
    assert_eq!(change.select, Some(ranked[0]));
    assert_eq!(view.model().match_ranges(), &ranked);
    assert_eq!(view.active_match_index(), Some(0));
    assert!(!view.semantic().state().as_ref().unwrap().search_task);
}

#[test]
fn semantic_toggle_off_drops_late_answers() {
    let mut view = ProjectSearchView::new(ProjectSearch::new());
    let generation = match view.toggle_semantic_search() {
        SemanticAction::RequestIndex { generation } => generation,
        SemanticAction::Cancel => panic!("expected an index request"),
    };
    assert_eq!(view.toggle_semantic_search(), SemanticAction::Cancel);
    assert!(!view.index_ready(generation, 4));
    assert!(view.semantic().state().is_none());
    assert_eq!(view.indexing_progress(generation, 1), ProgressUpdate::Ignored);

    let again = match view.toggle_semantic_search() {
        SemanticAction::RequestIndex { generation } => generation,
        SemanticAction::Cancel => panic!("expected an index request"),
    };
    assert_eq!(again, generation + 1);
    assert!(view.index_failed(again));
    assert!(!view.semantic().is_on());
    assert!(!view.index_ready(again, 4));
}

#[test]
fn progress_beyond_file_count_is_bounded() {
    let mut view = ProjectSearchView::new(ProjectSearch::new());
    let generation = match view.toggle_semantic_search() {
        SemanticAction::RequestIndex { generation } => generation,
        SemanticAction::Cancel => panic!("expected an index request"),
    };
    view.index_ready(generation, 3);
    assert_eq!(view.indexing_progress(generation, 9), ProgressUpdate::Updated);
    assert_eq!(view.semantic().progress(), Some((0, 3)));
}

#[test]
fn results_status_tells_states_apart() {
    let mut view = ProjectSearchView::new(ProjectSearch::new());
    assert_eq!(view.results_status(), ResultsStatus::EmptyQuery);
    run_search(&mut view, "nothing here", false);
    assert_eq!(view.results_status(), ResultsStatus::NoResults);
    assert!(!view.has_matches());
}

#[test]
fn caret_resynchronises_active_match() {
    let mut view = ProjectSearchView::new(ProjectSearch::new());
    run_search(&mut view, "TWO", false);
    assert!(!view.update_match_index(Anchor { excerpt: 0, offset: 10 }));
    assert_eq!(view.active_match_index(), Some(0));
    assert!(view.update_match_index(Anchor { excerpt: 0, offset: 36 }));
    assert_eq!(view.active_match_index(), Some(1));
    assert!(view.update_match_index(Anchor { excerpt: 1, offset: 0 }));
    assert_eq!(view.active_match_index(), Some(2));
    assert!(view.update_match_index(Anchor { excerpt: 1, offset: 20 }));
    assert_eq!(view.active_match_index(), None);
    assert!(view.has_matches());
    assert_eq!(view.select_match(Direction::Prev), Some(range(2, 0, 32, 35)));
}

#[test]
fn search_in_new_restores_this_view() {
    let mut view = ProjectSearchView::new(ProjectSearch::new());
    run_search(&mut view, "TWO", false);
    view.set_query("ONE");
    view.toggle_search_option(SearchOption::WholeWord);
    let restart = view.model().search_id();
    view.set_query("THREE");
    let model = view.search_in_new().unwrap();
    assert_eq!(view.query_text(), "ONE");
    assert!(view.is_option_enabled(SearchOption::WholeWord));
    assert_eq!(view.model().search_id(), restart);
    assert_eq!(model.search_id(), 1);
    assert!(model.is_pending());
    let q = model.active_query().as_ref().unwrap();
    assert_eq!(q.as_str(), "THREE");
    assert!(q.whole_word());

    let other = ProjectSearchView::new(model);
    assert_eq!(other.query_text(), "THREE");
    assert!(other.is_option_enabled(SearchOption::WholeWord));
    assert!(!other.is_option_enabled(SearchOption::Regex));

    view.set_included_files("a[");
    assert!(view.search_in_new().is_none());
    assert!(view.panels_with_errors().included);
}

#[test]
fn clone_search_keeps_matches_and_stops() {
    let mut model = ProjectSearch::new();
    let q = project_search::query::SearchQuery::text("x", false, true, Vec::new(), Vec::new());
    let id = model.search(q);
    let documents = vec![DocumentMatches {
        buffer_id: 1,
        path: Some(vec!["a.rs".to_string()]),
        ranges: vec![(1, 2)],
    }];
    model.handle_event(SearchEvent::Results { search_id: id, documents });
    let copy = model.clone_search();
    assert!(model.is_pending());
    assert!(!copy.is_pending());
    assert_eq!(copy.search_id(), id);
    assert_eq!(copy.match_ranges(), model.match_ranges());
    assert_eq!(copy.active_query().as_ref().unwrap().as_str(), "x");
    let view = ProjectSearchView::new(copy);
    assert_eq!(view.active_match_index(), Some(0));
    assert!(view.has_matches());
}

#[test]
fn tooltip_and_breadcrumbs() {
    let mut view = ProjectSearchView::new(ProjectSearch::new());
    assert_eq!(view.tab_tooltip_text(), "Project Search");
    assert_eq!(
        view.breadcrumb_location(),
        project_search::view::ToolbarItemLocation::Hidden
    );
    run_search(&mut view, "TWO", false);
    assert_eq!(view.tab_tooltip_text(), "TWO");
    assert_eq!(
        view.breadcrumb_location(),
        project_search::view::ToolbarItemLocation::Secondary
    );
}

#[test]
fn progress_after_completion_is_ignored() {
    let mut view = ProjectSearchView::new(ProjectSearch::new());
    let generation = match view.toggle_semantic_search() {
        SemanticAction::RequestIndex { generation } => generation,
        SemanticAction::Cancel => panic!("expected an index request"),
    };
    view.index_ready(generation, 4);
    assert_eq!(view.indexing_progress(generation, 0), ProgressUpdate::Complete);
    assert_eq!(view.indexing_progress(generation, 2), ProgressUpdate::Ignored);
    assert_eq!(view.semantic().progress(), Some((4, 4)));
    assert!(!view.semantic().state().as_ref().unwrap().listening);
}

#[test]
fn documents_reported_in_two_orders_list_the_same() {
    let mut docs = fake_search(&FILES, "ONE");
    let forward = order_matches(fake_search(&FILES, "ONE"));
    docs.reverse();
    assert_eq!(order_matches(docs), forward);
}

#[test]
fn second_report_of_a_search_is_refused() {
    let mut view = ProjectSearchView::new(ProjectSearch::new());
    view.set_query("TWO");
    let id = text_search_id(view.search());
    let documents = fake_search(&FILES, "TWO");
    assert!(view
        .handle_search_event(SearchEvent::Results { search_id: id, documents }, false)
        .is_some());
    let again = fake_search(&FILES, "ONE");
    assert!(view
        .handle_search_event(SearchEvent::Results { search_id: id, documents: again }, false)
        .is_none());
    assert_eq!(view.model().match_ranges(), &order_matches(fake_search(&FILES, "TWO")));
}
