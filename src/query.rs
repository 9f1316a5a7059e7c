//! Search queries: file filters compiled from glob lists, the text or regex
//! pattern, and validation of the three input fields.
use vstd::prelude::*;

use crate::text::{list_entries, list_entries_of, strings_view};

verus! {

#[verifier::external_type_specification]
#[verifier::external_body]
pub struct ExGlobSet(globset::GlobSet);

#[verifier::external_type_specification]
#[verifier::external_body]
pub struct ExGlobError(globset::Error);

/// Whether globset parses `glob` and builds a matcher for it. globset's
/// defaults depend on the build target (a backslash escapes except where it
/// separates paths), which is fixed for a given program.
pub uninterp spec fn glob_compiles(glob: Seq<char>) -> bool;

/// The longest glob pattern that is compiled. globset turns nested
/// alternates into a regex by recursion, one level per `{`, so a bound on
/// the length keeps that recursion within the stack.
pub const MAX_GLOB_CHARS: usize = 1024;

/// Whether a glob pattern is accepted: not too long, and compiled by globset.
pub open spec fn glob_accepted(glob: Seq<char>) -> bool {
    glob.len() <= MAX_GLOB_CHARS && glob_compiles(glob)
}

/// Whether the pattern `glob`, compiled by globset, matches `path`.
pub uninterp spec fn glob_matches(glob: Seq<char>, path: Seq<char>) -> bool;

/// Whether the regex crate accepts `pattern`.
pub uninterp spec fn regex_compiles(pattern: Seq<char>) -> bool;

/// Relies on `globset::GlobSet::new`, given the pattern as parsed by
/// `globset::Glob::new`: parsing returns the parser's error, and building
/// returns the error of the regex it compiles instead of panicking. Whether
/// either fails depends on the pattern alone. Patterns are at most
/// `MAX_GLOB_CHARS` characters long, which bounds the nesting that globset
/// handles by recursion.
#[verifier::external_body]
fn compile_glob(glob: &str) -> (r: Result<globset::GlobSet, globset::Error>)
    requires
        glob@.len() <= MAX_GLOB_CHARS,
    ensures
        r is Ok <==> glob_compiles(glob@),
{
    globset::GlobSet::new([globset::Glob::new(glob)?])
}

/// Relies on the `Clone` impl of `globset::GlobSet`.
pub assume_specification[ <globset::GlobSet as Clone>::clone ](
    m: &globset::GlobSet,
) -> globset::GlobSet;

/// Relies on `regex::Regex::new`: whether a pattern compiles depends on the
/// pattern alone.
#[verifier::external_body]
fn regex_accepts(pattern: &str) -> (r: bool)
    ensures
        r == regex_compiles(pattern@),
{
    regex::Regex::new(pattern).is_ok()
}

/// A glob pattern with its compiled matcher.
///
/// Both fields are private and set together by [`CompiledGlob::new`], so the
/// matcher is always the one compiled from `glob`.
pub struct CompiledGlob {
    glob: String,
    matcher: globset::GlobSet,
}

/// A glob pattern that globset refused.
#[derive(Debug)]
pub struct InvalidGlob {
    pub glob: String,
}

impl View for CompiledGlob {
    type V = Seq<char>;

    closed spec fn view(&self) -> Seq<char> {
        self.glob@
    }
}

pub open spec fn globs_view(v: Seq<CompiledGlob>) -> Seq<Seq<char>> {
    v.map_values(|g: CompiledGlob| g@)
}

pub open spec fn all_compile(globs: Seq<Seq<char>>) -> bool {
    forall|i: int| 0 <= i < globs.len() ==> glob_accepted(#[trigger] globs[i])
}

impl CompiledGlob {
    /// Compiles `glob`, or says which pattern was refused: one longer than
    /// `MAX_GLOB_CHARS` characters, or one that globset does not compile.
    pub fn new(glob: &str) -> (r: Result<CompiledGlob, InvalidGlob>)
        ensures
            r is Ok <==> glob_accepted(glob@),
            r is Ok ==> r->Ok_0@ == glob@,
            r is Err ==> r->Err_0.glob@ == glob@,
    {
        if glob.unicode_len() > MAX_GLOB_CHARS {
            return Err(InvalidGlob { glob: glob.to_owned() });
        }
        match compile_glob(glob) {
            Ok(matcher) => Ok(CompiledGlob { glob: glob.to_owned(), matcher }),
            Err(_) => Err(InvalidGlob { glob: glob.to_owned() }),
        }
    }

    /// The pattern as it was written.
    pub fn as_str(&self) -> (r: &str)
        ensures
            r@ == self@,
    {
        self.glob.as_str()
    }

    /// The compiled matcher, a set of this one pattern.
    pub fn matcher(&self) -> &globset::GlobSet {
        &self.matcher
    }

    /// Relies on `globset::GlobSet::is_match`, on the set compiled from `glob`
    /// alone (see the type's invariant above).
    #[verifier::external_body]
    fn is_match(&self, path: &str) -> (r: bool)
        ensures
            r == glob_matches(self@, path@),
    {
        self.matcher.is_match(path)
    }

    pub fn duplicate(&self) -> (r: CompiledGlob)
        ensures
            r@ == self@,
    {
        CompiledGlob { glob: self.glob.clone(), matcher: self.matcher.clone() }
    }
}

/// Compiles each entry of a comma separated glob list; on failure, names the
/// first entry that did not compile.
pub fn load_glob_set(text: &str) -> (r: Result<Vec<CompiledGlob>, InvalidGlob>)
    ensures
        r is Ok <==> all_compile(list_entries(text@)),
        r is Ok ==> globs_view(r->Ok_0@) == list_entries(text@),
        r is Err ==> exists|i: int|
            0 <= i < list_entries(text@).len() && list_entries(text@)[i] == r->Err_0.glob@
                && !glob_accepted(list_entries(text@)[i]) && all_compile(
                list_entries(text@).take(i),
            ),
{
    let entries = list_entries_of(text);
    let ghost es = strings_view(entries@);
    let mut out: Vec<CompiledGlob> = Vec::new();
    let mut i: usize = 0;
    while i < entries.len()
        invariant
            es == strings_view(entries@),
            es == list_entries(text@),
            i <= entries.len(),
            globs_view(out@) == es.take(i as int),
            all_compile(es.take(i as int)),
        decreases entries.len() - i,
    {
        assert(es[i as int] == entries@[i as int]@);
        match CompiledGlob::new(entries[i].as_str()) {
            Ok(g) => {
                let ghost before = out@;
                let ghost gv = g@;
                out.push(g);
                assert(out@ == before.push(g));
                assert(globs_view(out@) =~= globs_view(before).push(gv));
                assert(globs_view(out@) =~= es.take(i as int + 1));
                assert(all_compile(es.take(i as int + 1))) by {
                    assert forall|j: int| 0 <= j < i + 1 implies glob_accepted(
                        #[trigger] es.take(i as int + 1)[j],
                    ) by {
                        if j < i {
                            assert(es.take(i as int + 1)[j] == es.take(i as int)[j]);
                        }
                    }
                }
            },
            Err(e) => {
                assert(!all_compile(es)) by {
                    assert(!glob_accepted(es[i as int]));
                }
                return Err(e);
            },
        }
        i = i + 1;
    }
    assert(es.take(i as int) =~= es);
    Ok(out)
}

/// Whether the regex source of a query contains a line break, written out
/// or escaped as `\n`.
pub open spec fn spans_lines(p: Seq<char>) -> bool {
    exists|i: int| 0 <= i < p.len() && #[trigger] breaks_line_at(p, i)
}

/// Whether a line break, or the escape `\n`, starts at `i`.
pub open spec fn breaks_line_at(p: Seq<char>, i: int) -> bool {
    p[i] == '\n' || (p[i] == '\\' && i + 1 < p.len() && p[i + 1] == 'n')
}

/// The inline flags that a regex query starts with.
pub open spec fn regex_flags(case_sensitive: bool, multi_line: bool) -> Seq<char> {
    if !case_sensitive && multi_line {
        "(?im)"@
    } else if !case_sensitive {
        "(?i)"@
    } else if multi_line {
        "(?m)"@
    } else {
        Seq::empty()
    }
}

/// The regular expression that a regex query searches with: the pattern,
/// between word boundaries for whole-word search, after the inline flags for
/// case-insensitive and multi-line matching.
pub open spec fn regex_source(pattern: Seq<char>, whole_word: bool, case_sensitive: bool) -> Seq<
    char,
> {
    let body = if whole_word {
        "\\b"@ + pattern + "\\b"@
    } else {
        pattern
    };
    regex_flags(case_sensitive, spans_lines(pattern)) + body
}

fn has_line_break(p: &str) -> (r: bool)
    ensures
        r == spans_lines(p@),
{
    let n = p.unicode_len();
    let mut i: usize = 0;
    while i < n
        invariant
            n == p@.len(),
            i <= n,
            forall|j: int| 0 <= j < i ==> !#[trigger] breaks_line_at(p@, j),
        decreases n - i,
    {
        let c = p.get_char(i);
        if c == '\n' {
            assert(breaks_line_at(p@, i as int));
            return true;
        }
        if c == '\\' && i + 1 < n && p.get_char(i + 1) == 'n' {
            assert(breaks_line_at(p@, i as int));
            return true;
        }
        i = i + 1;
    }
    false
}

/// The regular expression that a regex query with these options searches with.
pub fn build_regex_source(pattern: &str, whole_word: bool, case_sensitive: bool) -> (r: String)
    ensures
        r@ == regex_source(pattern@, whole_word, case_sensitive),
{
    let multi_line = has_line_break(pattern);
    let mut r = if !case_sensitive && multi_line {
        "(?im)".to_owned()
    } else if !case_sensitive {
        "(?i)".to_owned()
    } else if multi_line {
        "(?m)".to_owned()
    } else {
        String::new()
    };
    if whole_word {
        r.append("\\b");
        r.append(pattern);
        r.append("\\b");
        assert(r@ =~= regex_source(pattern@, whole_word, case_sensitive));
    } else {
        r.append(pattern);
    }
    r
}

/// What a query holds, as plain values.
pub struct QueryView {
    pub pattern: Seq<char>,
    pub is_regex: bool,
    pub whole_word: bool,
    pub case_sensitive: bool,
    pub included: Seq<Seq<char>>,
    pub excluded: Seq<Seq<char>>,
}

/// A validated search query: the pattern, its options and the file filters.
pub struct SearchQuery {
    query: String,
    regex: bool,
    whole_word: bool,
    case_sensitive: bool,
    files_to_include: Vec<CompiledGlob>,
    files_to_exclude: Vec<CompiledGlob>,
}

impl View for SearchQuery {
    type V = QueryView;

    closed spec fn view(&self) -> QueryView {
        QueryView {
            pattern: self.query@,
            is_regex: self.regex,
            whole_word: self.whole_word,
            case_sensitive: self.case_sensitive,
            included: globs_view(self.files_to_include@),
            excluded: globs_view(self.files_to_exclude@),
        }
    }
}

/// A regex query is valid when its pattern compiles as written, and so does
/// the expression it searches with.
pub open spec fn regex_query_valid(pattern: Seq<char>, whole_word: bool, case_sensitive: bool) -> bool {
    regex_compiles(pattern) && regex_compiles(regex_source(pattern, whole_word, case_sensitive))
}

/// A query is well formed when, as a regex query, it is valid.
pub open spec fn query_wf(q: QueryView) -> bool {
    q.is_regex ==> regex_query_valid(q.pattern, q.whole_word, q.case_sensitive)
}

/// Whether a query with these filters searches the file at `path`: no excluded
/// pattern matches it, and some inclusion pattern does, or there is none.
pub open spec fn filters_admit(included: Seq<Seq<char>>, excluded: Seq<Seq<char>>, path: Seq<
    char,
>) -> bool {
    &&& !(exists|i: int| 0 <= i < excluded.len() && glob_matches(#[trigger] excluded[i], path))
    &&& (included.len() == 0 || exists|i: int|
        0 <= i < included.len() && glob_matches(#[trigger] included[i], path))
}

fn any_matches(globs: &Vec<CompiledGlob>, path: &str) -> (r: bool)
    ensures
        r == exists|i: int|
            0 <= i < globs@.len() && glob_matches(#[trigger] globs_view(globs@)[i], path@),
{
    let mut i: usize = 0;
    while i < globs.len()
        invariant
            i <= globs.len(),
            forall|j: int| 0 <= j < i ==> !glob_matches(#[trigger] globs_view(globs@)[j], path@),
        decreases globs.len() - i,
    {
        if globs[i].is_match(path) {
            assert(glob_matches(globs_view(globs@)[i as int], path@));
            return true;
        }
        i = i + 1;
    }
    false
}

impl SearchQuery {
    /// A plain text query.
    pub fn text(
        query: &str,
        whole_word: bool,
        case_sensitive: bool,
        files_to_include: Vec<CompiledGlob>,
        files_to_exclude: Vec<CompiledGlob>,
    ) -> (r: SearchQuery)
        ensures
            r@ == (QueryView {
                pattern: query@,
                is_regex: false,
                whole_word,
                case_sensitive,
                included: globs_view(files_to_include@),
                excluded: globs_view(files_to_exclude@),
            }),
            query_wf(r@),
    {
        SearchQuery {
            query: query.to_owned(),
            regex: false,
            whole_word,
            case_sensitive,
            files_to_include,
            files_to_exclude,
        }
    }

    /// A regex query, or `None` when its expression does not compile.
    pub fn regex(
        query: &str,
        whole_word: bool,
        case_sensitive: bool,
        files_to_include: Vec<CompiledGlob>,
        files_to_exclude: Vec<CompiledGlob>,
    ) -> (r: Option<SearchQuery>)
        ensures
            r is Some <==> regex_query_valid(query@, whole_word, case_sensitive),
            r is Some ==> r->0@ == (QueryView {
                pattern: query@,
                is_regex: true,
                whole_word,
                case_sensitive,
                included: globs_view(files_to_include@),
                excluded: globs_view(files_to_exclude@),
            }),
            r is Some ==> query_wf(r->0@),
    {
        let source = build_regex_source(query, whole_word, case_sensitive);
        if regex_accepts(query) && regex_accepts(source.as_str()) {
            Some(
                SearchQuery {
                    query: query.to_owned(),
                    regex: true,
                    whole_word,
                    case_sensitive,
                    files_to_include,
                    files_to_exclude,
                },
            )
        } else {
            None
        }
    }

    pub fn as_str(&self) -> (r: &str)
        ensures
            r@ == self@.pattern,
    {
        self.query.as_str()
    }

    pub fn is_regex(&self) -> (r: bool)
        ensures
            r == self@.is_regex,
    {
        self.regex
    }

    pub fn whole_word(&self) -> (r: bool)
        ensures
            r == self@.whole_word,
    {
        self.whole_word
    }

    pub fn case_sensitive(&self) -> (r: bool)
        ensures
            r == self@.case_sensitive,
    {
        self.case_sensitive
    }

    pub fn files_to_include(&self) -> (r: &Vec<CompiledGlob>)
        ensures
            globs_view(r@) == self@.included,
    {
        &self.files_to_include
    }

    pub fn files_to_exclude(&self) -> (r: &Vec<CompiledGlob>)
        ensures
            globs_view(r@) == self@.excluded,
    {
        &self.files_to_exclude
    }

    /// Whether the file at `path` is searched under this query's filters.
    pub fn file_matches(&self, path: &str) -> (r: bool)
        ensures
            r == filters_admit(self@.included, self@.excluded, path@),
    {
        if any_matches(&self.files_to_exclude, path) {
            return false;
        }
        self.files_to_include.len() == 0 || any_matches(&self.files_to_include, path)
    }

    /// A copy of this query.
    pub fn duplicate(&self) -> (r: SearchQuery)
        ensures
            r@ == self@,
    {
        SearchQuery {
            query: self.query.clone(),
            regex: self.regex,
            whole_word: self.whole_word,
            case_sensitive: self.case_sensitive,
            files_to_include: duplicate_globs(&self.files_to_include),
            files_to_exclude: duplicate_globs(&self.files_to_exclude),
        }
    }
}

fn duplicate_globs(v: &Vec<CompiledGlob>) -> (r: Vec<CompiledGlob>)
    ensures
        globs_view(r@) == globs_view(v@),
{
    let mut out: Vec<CompiledGlob> = Vec::new();
    let mut i: usize = 0;
    while i < v.len()
        invariant
            i <= v.len(),
            globs_view(out@) == globs_view(v@).take(i as int),
        decreases v.len() - i,
    {
        let ghost before = out@;
        let g = v[i].duplicate();
        out.push(g);
        assert(globs_view(out@) =~= globs_view(before).push(g@));
        assert(globs_view(out@) =~= globs_view(v@).take(i as int + 1));
        i = i + 1;
    }
    assert(globs_view(v@).take(i as int) =~= globs_view(v@));
    out
}

/// The input fields of a search.
#[derive(Clone, Copy, Debug, PartialEq, Eq, Hash, Structural)]
pub enum InputPanel {
    Query,
    Exclude,
    Include,
}

/// Which input fields hold an invalid value.
#[derive(Clone, Copy, Debug, PartialEq, Eq, Structural)]
pub struct InputErrors {
    pub query: bool,
    pub included: bool,
    pub excluded: bool,
}

impl InputErrors {
    pub fn none() -> (r: InputErrors)
        ensures
            r == (InputErrors { query: false, included: false, excluded: false }),
    {
        InputErrors { query: false, included: false, excluded: false }
    }

    /// Whether `panel` holds an invalid value.
    pub fn contains(&self, panel: InputPanel) -> (r: bool)
        ensures
            r == match panel {
                InputPanel::Query => self.query,
                InputPanel::Include => self.included,
                InputPanel::Exclude => self.excluded,
            },
    {
        match panel {
            InputPanel::Query => self.query,
            InputPanel::Include => self.included,
            InputPanel::Exclude => self.excluded,
        }
    }
}

/// Whether the pattern field is valid under these options.
pub open spec fn pattern_valid(text: Seq<char>, whole_word: bool, case_sensitive: bool, regex: bool) -> bool {
    regex ==> regex_query_valid(text, whole_word, case_sensitive)
}

/// Builds a query from the three input fields and the options. Every field is
/// checked, so that all invalid fields are reported together; a query comes
/// back only when none is invalid.
pub fn build_search_query(
    text: &str,
    whole_word: bool,
    case_sensitive: bool,
    regex: bool,
    included_files: &str,
    excluded_files: &str,
) -> (r: Result<SearchQuery, InputErrors>)
    ensures
        ({
            let include_ok = all_compile(list_entries(included_files@));
            let exclude_ok = all_compile(list_entries(excluded_files@));
            let query_ok = pattern_valid(text@, whole_word, case_sensitive, regex);
            &&& r is Ok <==> include_ok && exclude_ok && query_ok
            &&& r is Ok ==> r->Ok_0@ == QueryView {
                pattern: text@,
                is_regex: regex,
                whole_word,
                case_sensitive,
                included: list_entries(included_files@),
                excluded: list_entries(excluded_files@),
            } && query_wf(r->Ok_0@)
            &&& r is Err ==> r->Err_0 == InputErrors {
                query: !query_ok,
                included: !include_ok,
                excluded: !exclude_ok,
            }
        }),
{
    let included = load_glob_set(included_files);
    let excluded = load_glob_set(excluded_files);
    let query_ok = !regex || (regex_accepts(text) && regex_accepts(
        build_regex_source(text, whole_word, case_sensitive).as_str(),
    ));
    match (included, excluded) {
        (Ok(inc), Ok(exc)) => {
            if regex {
                match SearchQuery::regex(text, whole_word, case_sensitive, inc, exc) {
                    Some(q) => Ok(q),
                    None => Err(InputErrors { query: true, included: false, excluded: false }),
                }
            } else {
                Ok(SearchQuery::text(text, whole_word, case_sensitive, inc, exc))
            }
        },
        (inc, exc) => Err(InputErrors { query: !query_ok, included: inc.is_err(), excluded: exc.is_err() }),
    }
}

} // verus!
