use project_search::navigation::{cycle_field, Direction, MatchRange};
use project_search::panes::{deploy_query, to_item_events, DeployTarget, ItemEvent};
use project_search::paths::{components_before, path_before, str_lt};
use project_search::query::{
    build_regex_source, build_search_query, load_glob_set, CompiledGlob, InputPanel, SearchQuery,
};
use project_search::session::{flatten_matches, order_matches, sort_documents, DocumentMatches};
use project_search::text::list_entries_of;
use project_search::view::ToolbarItemLocation;
use project_search::{init, ProjectSearchBar, ViewEvent};

fn strings(v: &[&str]) -> Vec<String> {
    v.iter().map(|s| s.to_string()).collect()
}

#[test]
fn glob_filters_compile_and_classify_files() {
    let query = match build_search_query("TWO", false, true, false, "*.rs", "*.lock") {
        Ok(q) => q,
        Err(_) => panic!("the filters are valid"),
    };
    assert_eq!(query.files_to_include().len(), 1);
    assert_eq!(query.files_to_include()[0].as_str(), "*.rs");
    assert_eq!(query.files_to_exclude()[0].as_str(), "*.lock");
    assert!(query.file_matches("src/one.rs"));
    assert!(query.file_matches("two.rs"));
    assert!(!query.file_matches("Cargo.lock"));
    assert!(!query.file_matches("README.md"));
    assert!(!query.is_regex());
    assert!(query.case_sensitive());
    assert!(!query.whole_word());
    assert_eq!(query.as_str(), "TWO");
}

#[test]
fn exclusion_wins_over_inclusion() {
    let q = match build_search_query("x", false, false, false, "", "vendor/*, *.lock") {
        Ok(q) => q,
        Err(_) => panic!("the filters are valid"),
    };
    assert!(q.files_to_include().is_empty());
    assert!(q.file_matches("src/main.rs"));
    assert!(!q.file_matches("vendor/lib.rs"));
    assert!(!q.file_matches("Cargo.lock"));
    let both = match build_search_query("x", false, false, false, "*.lock", "*.lock") {
        Ok(q) => q,
        Err(_) => panic!("the filters are valid"),
    };
    assert!(!both.file_matches("Cargo.lock"));
}

#[test]
fn list_entries_are_split_trimmed_and_filtered() {
    assert_eq!(list_entries_of("  *.rs , ,src/** ,"), strings(&["*.rs", "src/**"]));
    assert_eq!(list_entries_of(""), Vec::<String>::new());
    assert_eq!(list_entries_of(" , \t,"), Vec::<String>::new());
    assert_eq!(list_entries_of("\u{3000}a b\u{a0},c"), strings(&["a b", "c"]));
    assert_eq!(list_entries_of("x"), strings(&["x"]));
}

#[test]
fn glob_set_names_the_first_bad_pattern() {
    let globs = match load_glob_set("*.rs, crates/**/*.toml") {
        Ok(g) => g,
        Err(_) => panic!("the patterns are valid"),
    };
    let texts: Vec<&str> = globs.iter().map(|g| g.as_str()).collect();
    assert_eq!(texts, vec!["*.rs", "crates/**/*.toml"]);
    match load_glob_set("*.rs, a[, {b") {
        Err(e) => assert_eq!(e.glob, "a["),
        Ok(_) => panic!("an unclosed class is refused"),
    }
    assert!(load_glob_set("").unwrap().is_empty());
}

#[test]
fn compiled_glob_matches_and_copies() {
    let g = match CompiledGlob::new("*.toml") {
        Ok(g) => g,
        Err(_) => panic!("valid pattern"),
    };
    let copy = g.duplicate();
    assert_eq!(copy.as_str(), "*.toml");
    assert!(copy.matcher().is_match("x.toml"));
    let q = SearchQuery::text("x", false, false, vec![g, copy], Vec::new());
    assert!(q.file_matches("Cargo.toml"));
    assert!(!q.file_matches("Cargo.lock"));
    let q2 = q.duplicate();
    assert!(q2.file_matches("a/b.toml"));
    assert!(!q2.file_matches("a/b.rs"));
    assert!(CompiledGlob::new("{a").is_err());
}

#[test]
fn every_invalid_field_is_reported() {
    match build_search_query("(", false, false, true, "a[", "b[") {
        Err(e) => {
            assert!(e.query && e.included && e.excluded);
            assert!(e.contains(InputPanel::Query));
            assert!(e.contains(InputPanel::Include));
            assert!(e.contains(InputPanel::Exclude));
        }
        Ok(_) => panic!("all three fields are invalid"),
    }
    match build_search_query("(", false, false, false, "a[", "*.rs") {
        Err(e) => {
            assert!(!e.query);
            assert!(e.included);
            assert!(!e.excluded);
        }
        Ok(_) => panic!("the inclusion filter is invalid"),
    }
    match build_search_query("a(b", false, false, true, "", "") {
        Err(e) => assert!(e.query && !e.included && !e.excluded),
        Ok(_) => panic!("the pattern is invalid"),
    }
    assert!(build_search_query("a(b", false, false, false, "", "").is_ok());
    assert!(build_search_query("a(b)", true, true, true, "", "").is_ok());
}

#[test]
fn regex_source_carries_the_options() {
    assert_eq!(build_regex_source("ab", false, true), "ab");
    assert_eq!(build_regex_source("ab", false, false), "(?i)ab");
    assert_eq!(build_regex_source("ab", true, true), "\\bab\\b");
    assert_eq!(build_regex_source("a\\nb", true, false), "(?im)\\ba\\nb\\b");
    assert_eq!(build_regex_source("a\nb", false, true), "(?m)a\nb");
    assert!(SearchQuery::regex("x+", false, false, Vec::new(), Vec::new()).is_some());
    assert!(SearchQuery::regex("x++(", false, false, Vec::new(), Vec::new()).is_none());
    let q = SearchQuery::regex("x+", true, false, Vec::new(), Vec::new()).unwrap();
    assert!(q.is_regex() && q.whole_word() && !q.case_sensitive());
    assert_eq!(q.duplicate().as_str(), "x+");
}

#[test]
fn paths_compare_by_component() {
    assert!(str_lt("a", "b"));
    assert!(str_lt("a", "ab"));
    assert!(!str_lt("ab", "a"));
    assert!(!str_lt("a", "a"));
    assert!(str_lt("Z", "a"));
    assert!(components_before(&strings(&["a", "b.rs"]), &strings(&["a.rs"])));
    assert!(!components_before(&strings(&["a.rs"]), &strings(&["a", "b.rs"])));
    assert!(components_before(&strings(&["a"]), &strings(&["a", "b"])));
    assert!(path_before(&None, &Some(strings(&["a"]))));
    assert!(!path_before(&Some(strings(&["a"])), &None));
    assert!(!path_before(&None, &None));
}

fn doc(buffer_id: u64, path: Option<&[&str]>, ranges: Vec<(usize, usize)>) -> DocumentMatches {
    DocumentMatches { buffer_id, path: path.map(strings), ranges }
}

#[test]
fn documents_sort_stably_by_path() {
    let docs = vec![
        doc(1, Some(&["src", "b.rs"]), vec![(0, 1)]),
        doc(2, Some(&["src", "a.rs"]), vec![(2, 3)]),
        doc(3, None, vec![(4, 5)]),
        doc(4, Some(&["src", "a.rs"]), vec![(6, 7)]),
    ];
    let sorted = sort_documents(docs);
    let ids: Vec<u64> = sorted.iter().map(|d| d.buffer_id).collect();
    assert_eq!(ids, vec![3, 2, 4, 1]);
    let flat = flatten_matches(&sorted);
    assert_eq!(
        flat,
        vec![
            MatchRange { buffer_id: 3, excerpt: 0, start: 4, end: 5 },
            MatchRange { buffer_id: 2, excerpt: 1, start: 2, end: 3 },
            MatchRange { buffer_id: 4, excerpt: 2, start: 6, end: 7 },
            MatchRange { buffer_id: 1, excerpt: 3, start: 0, end: 1 },
        ]
    );
    assert!(order_matches(Vec::new()).is_empty());
}

#[test]
fn focus_cycles_through_input_fields() {
    assert_eq!(cycle_field(InputPanel::Query, Direction::Next), InputPanel::Include);
    assert_eq!(cycle_field(InputPanel::Include, Direction::Next), InputPanel::Exclude);
    assert_eq!(cycle_field(InputPanel::Exclude, Direction::Next), InputPanel::Query);
    assert_eq!(cycle_field(InputPanel::Query, Direction::Prev), InputPanel::Exclude);
    assert_eq!(cycle_field(InputPanel::Exclude, Direction::Prev), InputPanel::Include);
}

#[test]
fn search_bar_follows_active_item() {
    let mut bar = ProjectSearchBar::new();
    assert_eq!(bar.active_project_search(), None);
    assert_eq!(bar.cycle_field(Some(InputPanel::Query), Direction::Next), None);
    assert_eq!(bar.set_active_pane_item(Some(7)), ToolbarItemLocation::PrimaryLeft);
    assert_eq!(bar.active_project_search(), Some(7));
    assert_eq!(bar.cycle_field(None, Direction::Next), None);
    assert_eq!(
        bar.cycle_field(Some(InputPanel::Include), Direction::Prev),
        Some(InputPanel::Query)
    );
    assert_eq!(bar.row_count(), 2);
    assert_eq!(bar.set_active_pane_item(None), ToolbarItemLocation::Hidden);
    assert_eq!(ProjectSearchBar::default().active_project_search(), None);
}

#[test]
fn registry_finds_the_last_focused_search() {
    let mut registry = init();
    assert_eq!(registry.get(1), None);
    assert_eq!(registry.deploy_target(1, &vec![5, 6]), DeployTarget::Existing(5));
    registry.activate(1, 6);
    registry.activate(2, 9);
    assert_eq!(registry.get(1), Some(6));
    assert_eq!(registry.deploy_target(1, &vec![5, 6]), DeployTarget::Existing(6));
    assert_eq!(registry.deploy_target(1, &vec![5]), DeployTarget::Existing(5));
    assert_eq!(registry.deploy_target(1, &vec![]), DeployTarget::New);
    registry.forget(1);
    assert_eq!(registry.get(1), None);
    assert_eq!(registry.get(2), Some(9));
    assert_eq!(deploy_query(Some(String::new())), None);
    assert_eq!(deploy_query(None), None);
    assert_eq!(deploy_query(Some("two".to_string())), Some("two".to_string()));
}

#[test]
fn view_events_map_to_item_events() {
    assert_eq!(
        to_item_events(&ViewEvent::UpdateTab),
        vec![ItemEvent::UpdateBreadcrumbs, ItemEvent::UpdateTab]
    );
    assert!(to_item_events(&ViewEvent::Activate).is_empty());
    assert_eq!(
        to_item_events(&ViewEvent::EditorEvent(vec![ItemEvent::Edit])),
        vec![ItemEvent::Edit]
    );
}

#[test]
fn deeply_nested_glob_is_refused_without_panic() {
    let deep = format!("{}a{}", "{".repeat(300), "}".repeat(300));
    match CompiledGlob::new(&deep) {
        Ok(g) => assert!(SearchQuery::text("x", false, false, vec![g], Vec::new()).file_matches("a")),
        Err(e) => assert_eq!(e.glob, deep),
    }
    let deep_star = format!("{}a*b{}", "{".repeat(300), "}".repeat(300));
    match CompiledGlob::new(&deep_star) {
        Ok(_) => {}
        Err(e) => assert_eq!(e.glob, deep_star),
    }
    match build_search_query("x", false, false, false, &deep_star, "") {
        Ok(q) => assert_eq!(q.files_to_include().len(), 1),
        Err(e) => assert!(e.included && !e.excluded && !e.query),
    }
}

#[test]
fn overlong_glob_is_refused_before_compiling() {
    let deep = format!("{}a{}", "{".repeat(100_000), "}".repeat(100_000));
    match CompiledGlob::new(&deep) {
        Err(e) => assert_eq!(e.glob.len(), deep.len()),
        Ok(_) => panic!("a pattern over the length bound is refused"),
    }
    let longest = "a".repeat(project_search::query::MAX_GLOB_CHARS);
    assert!(CompiledGlob::new(&longest).is_ok());
    let too_long = "a".repeat(project_search::query::MAX_GLOB_CHARS + 1);
    assert!(CompiledGlob::new(&too_long).is_err());
    match build_search_query("x", false, false, false, "*.rs", &too_long) {
        Err(e) => assert!(e.excluded && !e.included && !e.query),
        Ok(_) => panic!("the exclusion filter is too long"),
    }
}

#[test]
fn raw_regex_pattern_must_compile() {
    // with whole-word on, a trailing backslash escapes the added boundary
    assert!(build_search_query("a\\", true, true, true, "", "").is_err());
    assert!(SearchQuery::regex("a\\", true, true, Vec::new(), Vec::new()).is_none());
    assert!(build_search_query("a\\", true, true, false, "", "").is_ok());
}
