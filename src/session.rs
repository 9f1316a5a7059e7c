//! One search of a project: its id, its query, the matches streamed in so
//! far, and whether it is still running.
use vstd::prelude::*;

use crate::navigation::MatchRange;
use crate::paths::{lemma_path_lt_transitive, lemma_path_order, path_before, path_lt, path_view};
use crate::query::{QueryView, SearchQuery};

verus! {

/// The matches that the search capability found in one document.
pub struct DocumentMatches {
    pub buffer_id: u64,
    /// The document's file path as its components; `None` for a document
    /// without a file.
    pub path: Option<Vec<String>>,
    /// Start and end offsets of each match, in document order.
    pub ranges: Vec<(usize, usize)>,
}

pub struct DocumentView {
    pub buffer_id: u64,
    pub path: Option<Seq<Seq<char>>>,
    pub ranges: Seq<(usize, usize)>,
}

impl View for DocumentMatches {
    type V = DocumentView;

    open spec fn view(&self) -> DocumentView {
        DocumentView { buffer_id: self.buffer_id, path: path_view(self.path), ranges: self.ranges@ }
    }
}

pub open spec fn documents_view(v: Seq<DocumentMatches>) -> Seq<DocumentView> {
    v.map_values(|d: DocumentMatches| d@)
}

/// `d` placed into `s` after every document whose path does not come after
/// its own.
pub open spec fn insert_by_path(s: Seq<DocumentView>, d: DocumentView) -> Seq<DocumentView>
    decreases s.len(),
{
    if s.len() == 0 {
        seq![d]
    } else if path_lt(d.path, s[0].path) {
        seq![d] + s
    } else {
        seq![s[0]] + insert_by_path(s.drop_first(), d)
    }
}

/// The documents ordered by path; documents with equal paths keep their order.
pub open spec fn sort_by_path(s: Seq<DocumentView>) -> Seq<DocumentView>
    decreases s.len(),
{
    if s.len() == 0 {
        s
    } else {
        insert_by_path(sort_by_path(s.drop_last()), s.last())
    }
}

/// The matches of one document, shown as excerpt `excerpt` of the results.
pub open spec fn document_ranges(d: DocumentView, excerpt: int) -> Seq<MatchRange> {
    d.ranges.map_values(
        |r: (usize, usize)|
            MatchRange { buffer_id: d.buffer_id, excerpt: excerpt as usize, start: r.0, end: r.1 },
    )
}

/// The matches of all documents, each document as the excerpt of its position.
pub open spec fn flatten_documents(s: Seq<DocumentView>) -> Seq<MatchRange>
    decreases s.len(),
{
    if s.len() == 0 {
        Seq::empty()
    } else {
        flatten_documents(s.drop_last()) + document_ranges(s.last(), s.len() - 1)
    }
}

/// The matches of a search in the order they are listed: documents by path,
/// each document's matches in document order.
pub open spec fn ordered_matches(docs: Seq<DocumentView>) -> Seq<MatchRange> {
    flatten_documents(sort_by_path(docs))
}

proof fn lemma_insert_at(s: Seq<DocumentView>, d: DocumentView, j: int)
    requires
        0 <= j <= s.len(),
        forall|k: int| 0 <= k < j ==> !path_lt(d.path, #[trigger] s[k].path),
        j < s.len() ==> path_lt(d.path, s[j].path),
    ensures
        insert_by_path(s, d) == s.take(j).push(d) + s.skip(j),
    decreases j,
{
    if s.len() == 0 {
        assert(s.take(j).push(d) + s.skip(j) =~= seq![d]);
    } else if j == 0 {
        assert(s.take(0).push(d) + s.skip(0) =~= seq![d] + s);
    } else {
        let t = s.drop_first();
        assert forall|k: int| 0 <= k < j - 1 implies !path_lt(d.path, #[trigger] t[k].path) by {
            assert(t[k] == s[k + 1]);
        }
        lemma_insert_at(t, d, j - 1);
        assert(seq![s[0]] + (t.take(j - 1).push(d) + t.skip(j - 1)) =~= s.take(j).push(d) + s.skip(
            j,
        ));
    }
}

/// Inserts `d` into `out` as `insert_by_path` places it.
fn insert_document(out: &mut Vec<DocumentMatches>, d: DocumentMatches)
    ensures
        documents_view(final(out)@) == insert_by_path(documents_view(old(out)@), d@),
{
    let ghost s = documents_view(out@);
    let mut j: usize = 0;
    let mut found = false;
    while j < out.len() && !found
        invariant
            s == documents_view(out@),
            j <= out.len(),
            forall|k: int| 0 <= k < j ==> !path_lt(d@.path, #[trigger] s[k].path),
            found ==> j < s.len() && path_lt(d@.path, s[j as int].path),
        decreases out.len() - j + if found { 0int } else { 1int },
    {
        assert(s[j as int] == out@[j as int]@);
        if path_before(&d.path, &out[j].path) {
            found = true;
        } else {
            j = j + 1;
        }
    }
    proof {
        lemma_insert_at(s, d@, j as int);
    }
    let ghost dv = d@;
    out.insert(j, d);
    assert(documents_view(out@) =~= s.take(j as int).push(dv) + s.skip(j as int));
}

/// Orders the documents by path, keeping the order of documents with equal
/// paths.
pub fn sort_documents(docs: Vec<DocumentMatches>) -> (r: Vec<DocumentMatches>)
    ensures
        documents_view(r@) == sort_by_path(documents_view(docs@)),
{
    let ghost all = documents_view(docs@);
    let n = docs.len();
    let mut rest = docs;
    let mut out: Vec<DocumentMatches> = Vec::new();
    let mut i: usize = 0;
    assert(all.take(0) =~= Seq::<DocumentView>::empty());
    while rest.len() > 0
        invariant
            i + rest.len() == n,
            n == all.len(),
            documents_view(rest@) == all.skip(i as int),
            documents_view(out@) == sort_by_path(all.take(i as int)),
        decreases rest.len(),
    {
        let ghost before = rest@;
        let d = rest.remove(0);
        proof {
            assert(d@ == all[i as int]) by {
                assert(documents_view(before)[0] == before[0]@);
            }
            assert(documents_view(rest@) =~= all.skip(i as int + 1)) by {
                assert(rest@ =~= before.drop_first());
                assert(documents_view(rest@) =~= documents_view(before).drop_first());
            }
            let t = all.take(i as int + 1);
            assert(t.drop_last() =~= all.take(i as int));
        }
        insert_document(&mut out, d);
        i = i + 1;
    }
    assert(all.take(i as int) =~= all);
    out
}

/// The matches of the documents, in the order they are listed: each
/// document as the excerpt of its position, its matches in order.
pub fn flatten_matches(docs: &Vec<DocumentMatches>) -> (r: Vec<MatchRange>)
    ensures
        r@ == flatten_documents(documents_view(docs@)),
{
    let ghost all = documents_view(docs@);
    let mut out: Vec<MatchRange> = Vec::new();
    let mut k: usize = 0;
    while k < docs.len()
        invariant
            all == documents_view(docs@),
            k <= docs.len(),
            out@ == flatten_documents(all.take(k as int)),
        decreases docs.len() - k,
    {
        let d = &docs[k];
        let ghost base = out@;
        let mut j: usize = 0;
        while j < d.ranges.len()
            invariant
                j <= d.ranges.len(),
                out@ == base + document_ranges(d@, k as int).take(j as int),
            decreases d.ranges.len() - j,
        {
            let (start, end) = d.ranges[j];
            out.push(MatchRange { buffer_id: d.buffer_id, excerpt: k, start, end });
            assert(document_ranges(d@, k as int).take(j as int + 1) =~= document_ranges(
                d@,
                k as int,
            ).take(j as int).push(MatchRange { buffer_id: d.buffer_id, excerpt: k, start, end }));
            assert(out@ =~= base + document_ranges(d@, k as int).take(j as int + 1));
            j = j + 1;
        }
        proof {
            assert(document_ranges(d@, k as int).take(j as int) =~= document_ranges(d@, k as int));
            let t = all.take(k as int + 1);
            assert(t.drop_last() =~= all.take(k as int));
            assert(t.last() == d@);
        }
        k = k + 1;
    }
    assert(all.take(k as int) =~= all);
    out
}

/// The matches that the search capability found, in the order a search
/// lists them.
pub fn order_matches(docs: Vec<DocumentMatches>) -> (r: Vec<MatchRange>)
    ensures
        r@ == ordered_matches(documents_view(docs@)),
{
    let sorted = sort_documents(docs);
    flatten_matches(&sorted)
}

/// What the running search reports back.
pub enum SearchEvent {
    /// The documents that the search `search_id` matched, as the capability
    /// reported them: each document once, in no particular order. The
    /// session lists their matches in path order.
    Results { search_id: usize, documents: Vec<DocumentMatches> },
    /// The search `search_id` has no more matches.
    Finished { search_id: usize },
    /// The search `search_id` stopped on an error; the matches it delivered stay.
    Failed { search_id: usize },
}

pub enum SearchEventView {
    Results { search_id: nat, documents: Seq<DocumentView> },
    Finished { search_id: nat },
    Failed { search_id: nat },
}

impl View for SearchEvent {
    type V = SearchEventView;

    open spec fn view(&self) -> SearchEventView {
        match self {
            SearchEvent::Results { search_id, documents } => SearchEventView::Results {
                search_id: *search_id as nat,
                documents: documents_view(documents@),
            },
            SearchEvent::Finished { search_id } => SearchEventView::Finished {
                search_id: *search_id as nat,
            },
            SearchEvent::Failed { search_id } => SearchEventView::Failed {
                search_id: *search_id as nat,
            },
        }
    }
}

pub open spec fn event_search_id(e: SearchEventView) -> nat {
    match e {
        SearchEventView::Results { search_id, .. } => search_id,
        SearchEventView::Finished { search_id } => search_id,
        SearchEventView::Failed { search_id } => search_id,
    }
}

/// The state of a search session as plain values.
pub struct SessionView {
    pub search_id: nat,
    pub query: Option<QueryView>,
    pub ranges: Seq<MatchRange>,
    pub pending: bool,
}

/// The session once `query` has been started: a new id, no matches yet,
/// running.
pub open spec fn start_search(s: SessionView, query: QueryView) -> SessionView {
    SessionView { search_id: s.search_id + 1, query: Some(query), ranges: Seq::empty(), pending: true }
}

/// Whether the session takes the event: it belongs to the search that is
/// running, and, for a report of documents, no match is listed yet. The
/// documents are sorted once, on their first report; a later report of the
/// same search is refused, so that the listing stays in path order.
pub open spec fn is_current(s: SessionView, e: SearchEventView) -> bool {
    &&& event_search_id(e) == s.search_id
    &&& s.pending
    &&& (e is Results ==> s.ranges.len() == 0)
}

/// The session after an event: a report of the running search's documents
/// lists their matches in path order, its end or failure stops it, and any
/// other event changes nothing.
pub open spec fn apply_event(s: SessionView, e: SearchEventView) -> SessionView {
    if !is_current(s, e) {
        s
    } else {
        match e {
            SearchEventView::Results { documents, .. } => SessionView {
                ranges: ordered_matches(documents),
                ..s
            },
            _ => SessionView { pending: false, ..s },
        }
    }
}

/// The session after the events, in order.
pub open spec fn apply_events(s: SessionView, events: Seq<SearchEventView>) -> SessionView
    decreases events.len(),
{
    if events.len() == 0 {
        s
    } else {
        apply_event(apply_events(s, events.drop_last()), events.last())
    }
}

/// A project search session.
pub struct ProjectSearch {
    search_id: usize,
    active_query: Option<SearchQuery>,
    match_ranges: Vec<MatchRange>,
    pending: bool,
}

pub open spec fn query_view(q: Option<SearchQuery>) -> Option<QueryView> {
    match q {
        Some(q) => Some(q@),
        None => None,
    }
}

impl View for ProjectSearch {
    type V = SessionView;

    closed spec fn view(&self) -> SessionView {
        SessionView {
            search_id: self.search_id as nat,
            query: query_view(self.active_query),
            ranges: self.match_ranges@,
            pending: self.pending,
        }
    }
}

impl ProjectSearch {
    /// A session that has run no search.
    pub fn new() -> (r: ProjectSearch)
        ensures
            r@ == (SessionView { search_id: 0, query: None, ranges: Seq::empty(), pending: false }),
    {
        ProjectSearch { search_id: 0, active_query: None, match_ranges: Vec::new(), pending: false }
    }

    /// A session with the same query, id and matches; nothing runs in it.
    pub fn clone_search(&self) -> (r: ProjectSearch)
        ensures
            r@ == (SessionView { pending: false, ..self@ }),
    {
        let active_query = match &self.active_query {
            Some(q) => Some(q.duplicate()),
            None => None,
        };
        ProjectSearch {
            search_id: self.search_id,
            active_query,
            match_ranges: self.match_ranges.clone(),
            pending: false,
        }
    }

    /// Starts `query`, superseding any running search; returns the new
    /// search's id, which its events must carry.
    pub fn search(&mut self, query: SearchQuery) -> (id: usize)
        requires
            old(self)@.search_id < usize::MAX,
        ensures
            final(self)@ == start_search(old(self)@, query@),
            id as nat == final(self)@.search_id,
    {
        self.search_id = self.search_id + 1;
        self.active_query = Some(query);
        self.match_ranges = Vec::new();
        self.pending = true;
        self.search_id
    }

    /// Applies an event of a search; says whether the session took it.
    pub fn handle_event(&mut self, event: SearchEvent) -> (changed: bool)
        ensures
            final(self)@ == apply_event(old(self)@, event@),
            changed == is_current(old(self)@, event@),
    {
        let current = match &event {
            SearchEvent::Results { search_id, .. } => *search_id == self.search_id
                && self.match_ranges.len() == 0,
            SearchEvent::Finished { search_id } => *search_id == self.search_id,
            SearchEvent::Failed { search_id } => *search_id == self.search_id,
        };
        if !current || !self.pending {
            return false;
        }
        match event {
            SearchEvent::Results { search_id: _, documents } => {
                self.match_ranges = order_matches(documents);
            },
            _ => {
                self.pending = false;
            },
        }
        true
    }

    /// Shows a settled, ranked list of matches in place of the current
    /// ones, superseding any running search.
    pub fn show_ranked_matches(&mut self, ranges: Vec<MatchRange>) -> (id: usize)
        requires
            old(self)@.search_id < usize::MAX,
        ensures
            final(self)@ == (SessionView {
                search_id: old(self)@.search_id + 1,
                query: old(self)@.query,
                ranges: ranges@,
                pending: false,
            }),
            id as nat == final(self)@.search_id,
    {
        self.search_id = self.search_id + 1;
        self.match_ranges = ranges;
        self.pending = false;
        self.search_id
    }

    pub fn search_id(&self) -> (r: usize)
        ensures
            r as nat == self@.search_id,
    {
        self.search_id
    }

    pub fn is_pending(&self) -> (r: bool)
        ensures
            r == self@.pending,
    {
        self.pending
    }

    pub fn match_ranges(&self) -> (r: &Vec<MatchRange>)
        ensures
            r@ == self@.ranges,
    {
        &self.match_ranges
    }

    pub fn active_query(&self) -> (r: &Option<SearchQuery>)
        ensures
            query_view(*r) == self@.query,
    {
        &self.active_query
    }
}

/// The events of a search `id` whose capability reported `docs` and then
/// ended.
pub open spec fn report_events(id: nat, docs: Seq<DocumentView>) -> Seq<SearchEventView> {
    seq![
        SearchEventView::Results { search_id: id, documents: docs },
        SearchEventView::Finished { search_id: id },
    ]
}

/// A search whose capability reports its documents and ends settles with
/// the documents' matches in listing order and nothing running.
pub proof fn lemma_search_settles(s: SessionView, query: QueryView, docs: Seq<DocumentView>)
    ensures
        ({
            let started = start_search(s, query);
            let id = started.search_id;
            apply_events(started, report_events(id, docs)) == SessionView {
                search_id: id,
                query: Some(query),
                ranges: ordered_matches(docs),
                pending: false,
            }
        }),
{
    let started = start_search(s, query);
    let id = started.search_id;
    let evs = report_events(id, docs);
    let first = evs.drop_last();
    assert(first.drop_last() =~= Seq::<SearchEventView>::empty());
    assert(first.last() == SearchEventView::Results { search_id: id, documents: docs });
    assert(Seq::<MatchRange>::empty() + ordered_matches(docs) =~= ordered_matches(docs));
    let mid = apply_events(started, first);
    assert(apply_events(started, first.drop_last()) == started);
    assert(is_current(started, first.last()));
    assert(started.ranges + ordered_matches(docs) =~= ordered_matches(docs));
    assert(mid == SessionView { ranges: ordered_matches(docs), ..started });
    assert(evs.last() == SearchEventView::Finished { search_id: id });
}

/// No two documents share a path.
pub open spec fn paths_distinct(s: Seq<DocumentView>) -> bool {
    forall|i: int, j: int|
        0 <= i < s.len() && 0 <= j < s.len() && i != j ==> #[trigger] s[i].path != #[trigger] s[j].path
}

/// Every document comes before the ones after it.
pub open spec fn strictly_sorted(s: Seq<DocumentView>) -> bool {
    forall|i: int, j: int| 0 <= i < j < s.len() ==> path_lt(#[trigger] s[i].path, #[trigger] s[j].path)
}

proof fn lemma_insert_contents(s: Seq<DocumentView>, d: DocumentView)
    ensures
        insert_by_path(s, d).len() == s.len() + 1,
        forall|x: DocumentView| #[trigger] insert_by_path(s, d).contains(x) <==> s.contains(x) || x == d,
    decreases s.len(),
{
    if s.len() > 0 && !path_lt(d.path, s[0].path) {
        let t = s.drop_first();
        lemma_insert_contents(t, d);
        let r = insert_by_path(s, d);
        assert forall|x: DocumentView| #[trigger] r.contains(x) <==> s.contains(x) || x == d by {
            if r.contains(x) {
                let k = choose|k: int| 0 <= k < r.len() && r[k] == x;
                if k > 0 {
                    assert(insert_by_path(t, d)[k - 1] == x);
                    assert(insert_by_path(t, d).contains(x));
                    if t.contains(x) {
                        let m = choose|m: int| 0 <= m < t.len() && t[m] == x;
                        assert(s[m + 1] == x);
                    }
                } else {
                    assert(s[0] == x);
                }
            }
            if s.contains(x) {
                let m = choose|m: int| 0 <= m < s.len() && s[m] == x;
                if m == 0 {
                    assert(r[0] == x);
                } else {
                    assert(t[m - 1] == x);
                    assert(insert_by_path(t, d).contains(x));
                    let k = choose|k: int| 0 <= k < insert_by_path(t, d).len() && insert_by_path(t, d)[k] == x;
                    assert(r[k + 1] == x);
                }
            }
            if x == d {
                assert(insert_by_path(t, d).contains(d));
                let k = choose|k: int| 0 <= k < insert_by_path(t, d).len() && insert_by_path(t, d)[k] == d;
                assert(r[k + 1] == d);
            }
        }
    } else if s.len() > 0 {
        let r = insert_by_path(s, d);
        assert forall|x: DocumentView| #[trigger] r.contains(x) <==> s.contains(x) || x == d by {
            if r.contains(x) {
                let k = choose|k: int| 0 <= k < r.len() && r[k] == x;
                if k > 0 {
                    assert(s[k - 1] == x);
                }
            }
            if s.contains(x) {
                let m = choose|m: int| 0 <= m < s.len() && s[m] == x;
                assert(r[m + 1] == x);
            }
            if x == d {
                assert(r[0] == d);
            }
        }
    } else {
        let r = insert_by_path(s, d);
        assert(r[0] == d);
    }
}

proof fn lemma_sort_contents(s: Seq<DocumentView>)
    ensures
        sort_by_path(s).len() == s.len(),
        forall|x: DocumentView| #[trigger] sort_by_path(s).contains(x) <==> s.contains(x),
    decreases s.len(),
{
    if s.len() > 0 {
        let p = s.drop_last();
        lemma_sort_contents(p);
        lemma_insert_contents(sort_by_path(p), s.last());
        assert forall|x: DocumentView| #[trigger] sort_by_path(s).contains(x) <==> s.contains(x) by {
            if p.contains(x) {
                let m = choose|m: int| 0 <= m < p.len() && p[m] == x;
                assert(s[m] == x);
            }
            if s.contains(x) {
                let m = choose|m: int| 0 <= m < s.len() && s[m] == x;
                if m < s.len() - 1 {
                    assert(p[m] == x);
                }
            }
            if x == s.last() {
                assert(s[s.len() - 1] == x);
            }
        }
    }
}

proof fn lemma_insert_sorted(s: Seq<DocumentView>, d: DocumentView)
    requires
        strictly_sorted(s),
        forall|k: int| 0 <= k < s.len() ==> #[trigger] s[k].path != d.path,
    ensures
        strictly_sorted(insert_by_path(s, d)),
    decreases s.len(),
{
    let r = insert_by_path(s, d);
    if s.len() == 0 {
    } else if path_lt(d.path, s[0].path) {
        assert forall|i: int, j: int| 0 <= i < j < r.len() implies path_lt(
            #[trigger] r[i].path,
            #[trigger] r[j].path,
        ) by {
            if i == 0 && j > 1 {
                assert(path_lt(s[0].path, s[j - 1].path));
                lemma_path_lt_transitive(d.path, s[0].path, s[j - 1].path);
            } else if i > 0 {
                assert(r[i] == s[i - 1] && r[j] == s[j - 1]);
            }
        }
    } else {
        let t = s.drop_first();
        assert forall|k: int| 0 <= k < t.len() implies #[trigger] t[k].path != d.path by {
            assert(t[k] == s[k + 1]);
        }
        lemma_insert_sorted(t, d);
        lemma_insert_contents(t, d);
        lemma_path_order(d.path, s[0].path);
        let u = insert_by_path(t, d);
        assert forall|i: int, j: int| 0 <= i < j < r.len() implies path_lt(
            #[trigger] r[i].path,
            #[trigger] r[j].path,
        ) by {
            if i == 0 {
                let x = u[j - 1];
                assert(r[j] == x);
                assert(u.contains(x));
                if x != d {
                    assert(t.contains(x));
                    let m = choose|m: int| 0 <= m < t.len() && t[m] == x;
                    assert(s[m + 1] == x);
                }
            } else {
                assert(r[i] == u[i - 1] && r[j] == u[j - 1]);
            }
        }
    }
}

proof fn lemma_sort_sorted(s: Seq<DocumentView>)
    requires
        paths_distinct(s),
    ensures
        strictly_sorted(sort_by_path(s)),
    decreases s.len(),
{
    if s.len() > 0 {
        let p = s.drop_last();
        assert forall|i: int, j: int|
            0 <= i < p.len() && 0 <= j < p.len() && i != j implies #[trigger] p[i].path
            != #[trigger] p[j].path by {
            assert(p[i] == s[i] && p[j] == s[j]);
        }
        lemma_sort_sorted(p);
        lemma_sort_contents(p);
        let q = sort_by_path(p);
        assert forall|k: int| 0 <= k < q.len() implies #[trigger] q[k].path != s.last().path by {
            assert(q.contains(q[k]));
            assert(p.contains(q[k]));
            let m = choose|m: int| 0 <= m < p.len() && p[m] == q[k];
            assert(s[m] == q[k]);
            assert(s[s.len() - 1] == s.last());
        }
        lemma_insert_sorted(q, s.last());
    }
}

proof fn lemma_sorted_unique(a: Seq<DocumentView>, b: Seq<DocumentView>)
    requires
        strictly_sorted(a),
        strictly_sorted(b),
        forall|x: DocumentView| a.contains(x) <==> b.contains(x),
    ensures
        a == b,
    decreases a.len(),
{
    if a.len() == 0 {
        if b.len() > 0 {
            assert(b.contains(b[0]));
        }
        assert(a =~= b);
    } else {
        assert(a.contains(a[0]));
        assert(b.contains(a[0]));
        assert(b.contains(b[0]));
        assert(a.contains(b[0]));
        let k = choose|k: int| 0 <= k < b.len() && b[k] == a[0];
        let m = choose|m: int| 0 <= m < a.len() && a[m] == b[0];
        lemma_path_order(a[0].path, b[0].path);
        if k > 0 {
            assert(path_lt(b[0].path, b[k].path));
            if m > 0 {
                assert(path_lt(a[0].path, a[m].path));
            }
        }
        assert(a[0] == b[0]);
        let ta = a.drop_first();
        let tb = b.drop_first();
        assert forall|x: DocumentView| ta.contains(x) <==> tb.contains(x) by {
            if ta.contains(x) {
                let i = choose|i: int| 0 <= i < ta.len() && ta[i] == x;
                assert(a[i + 1] == x);
                assert(path_lt(a[0].path, a[i + 1].path));
                lemma_path_order(x.path, x.path);
                assert(b.contains(x));
                let j = choose|j: int| 0 <= j < b.len() && b[j] == x;
                assert(j != 0);
                assert(tb[j - 1] == x);
            }
            if tb.contains(x) {
                let i = choose|i: int| 0 <= i < tb.len() && tb[i] == x;
                assert(b[i + 1] == x);
                assert(path_lt(b[0].path, b[i + 1].path));
                lemma_path_order(x.path, x.path);
                assert(a.contains(x));
                let j = choose|j: int| 0 <= j < a.len() && a[j] == x;
                assert(j != 0);
                assert(ta[j - 1] == x);
            }
        }
        assert forall|i: int, j: int| 0 <= i < j < ta.len() implies path_lt(
            #[trigger] ta[i].path,
            #[trigger] ta[j].path,
        ) by {
            assert(ta[i] == a[i + 1] && ta[j] == a[j + 1]);
        }
        assert forall|i: int, j: int| 0 <= i < j < tb.len() implies path_lt(
            #[trigger] tb[i].path,
            #[trigger] tb[j].path,
        ) by {
            assert(tb[i] == b[i + 1] && tb[j] == b[j + 1]);
        }
        lemma_sorted_unique(ta, tb);
        assert(a =~= seq![a[0]] + ta);
        assert(b =~= seq![b[0]] + tb);
    }
}

/// The order in which a search lists its matches does not depend on the
/// order in which the capability reported the documents: the same
/// documents, each file once, give the same listing.
pub proof fn lemma_listing_ignores_report_order(first: Seq<DocumentView>, second: Seq<DocumentView>)
    requires
        paths_distinct(first),
        paths_distinct(second),
        forall|d: DocumentView| first.contains(d) <==> second.contains(d),
    ensures
        ordered_matches(first) == ordered_matches(second),
{
    lemma_sort_sorted(first);
    lemma_sort_sorted(second);
    lemma_sort_contents(first);
    lemma_sort_contents(second);
    lemma_sorted_unique(sort_by_path(first), sort_by_path(second));
}

/// Each document's matches are in document order.
pub open spec fn ranges_in_order(docs: Seq<DocumentView>) -> bool {
    forall|k: int, a: int, b: int|
        0 <= k < docs.len() && 0 <= a < b < docs[k].ranges.len() ==> (#[trigger] docs[k].ranges[a]).0
            <= (#[trigger] docs[k].ranges[b]).0
}

/// The matches are listed document by document, each by start offset.
pub open spec fn listed_in_order(l: Seq<MatchRange>) -> bool {
    forall|i: int, j: int|
        0 <= i < j < l.len() ==> (#[trigger] l[i]).excerpt < (#[trigger] l[j]).excerpt || (
        l[i].excerpt == l[j].excerpt && l[i].start <= l[j].start)
}

proof fn lemma_flatten_in_order(t: Seq<DocumentView>)
    requires
        ranges_in_order(t),
        t.len() <= usize::MAX,
    ensures
        listed_in_order(flatten_documents(t)),
        forall|i: int|
            0 <= i < flatten_documents(t).len() ==> (#[trigger] flatten_documents(t)[i]).excerpt
                < t.len() && flatten_documents(t)[i].buffer_id == t[flatten_documents(
                t,
            )[i].excerpt as int].buffer_id,
    decreases t.len(),
{
    if t.len() > 0 {
        let p = t.drop_last();
        assert forall|k: int, a: int, b: int|
            0 <= k < p.len() && 0 <= a < b < p[k].ranges.len() implies (
            #[trigger] p[k].ranges[a]).0 <= (#[trigger] p[k].ranges[b]).0 by {
            assert(p[k] == t[k]);
        }
        lemma_flatten_in_order(p);
        let fp = flatten_documents(p);
        let d = t.last();
        let dr = document_ranges(d, t.len() - 1);
        let f = flatten_documents(t);
        assert(f == fp + dr);
        assert forall|i: int| 0 <= i < f.len() implies (#[trigger] f[i]).excerpt < t.len()
            && f[i].buffer_id == t[f[i].excerpt as int].buffer_id by {
            if i < fp.len() {
                assert(f[i] == fp[i]);
                assert(t[fp[i].excerpt as int] == p[fp[i].excerpt as int]);
            } else {
                assert(f[i] == dr[i - fp.len()]);
                assert(t[t.len() - 1] == d);
            }
        }
        assert forall|i: int, j: int| 0 <= i < j < f.len() implies (#[trigger] f[i]).excerpt < (
        #[trigger] f[j]).excerpt || (f[i].excerpt == f[j].excerpt && f[i].start <= f[j].start) by {
            if j < fp.len() {
                assert(f[i] == fp[i] && f[j] == fp[j]);
            } else if i < fp.len() {
                assert(f[i] == fp[i] && f[j] == dr[j - fp.len()]);
            } else {
                assert(f[i] == dr[i - fp.len()] && f[j] == dr[j - fp.len()]);
                assert(t[t.len() - 1] == d);
                assert(d.ranges[i - fp.len()].0 <= d.ranges[j - fp.len()].0);
            }
        }
    }
}

/// A search lists its matches by file path, then by position: the
/// documents are listed in strictly increasing path order, and the listing
/// goes document by document, each document's matches by start offset, each
/// match naming its document.
pub proof fn lemma_listing_sorted(docs: Seq<DocumentView>)
    requires
        paths_distinct(docs),
        ranges_in_order(docs),
        docs.len() <= usize::MAX,
    ensures
        strictly_sorted(sort_by_path(docs)),
        listed_in_order(ordered_matches(docs)),
        forall|i: int|
            0 <= i < ordered_matches(docs).len() ==> (#[trigger] ordered_matches(docs)[i]).excerpt
                < docs.len() && ordered_matches(docs)[i].buffer_id == sort_by_path(
                docs,
            )[ordered_matches(docs)[i].excerpt as int].buffer_id,
{
    lemma_sort_sorted(docs);
    lemma_sort_contents(docs);
    let t = sort_by_path(docs);
    assert forall|k: int, a: int, b: int|
        0 <= k < t.len() && 0 <= a < b < t[k].ranges.len() implies (#[trigger] t[k].ranges[a]).0
        <= (#[trigger] t[k].ranges[b]).0 by {
        assert(t.contains(t[k]));
        assert(docs.contains(t[k]));
        let m = choose|m: int| 0 <= m < docs.len() && docs[m] == t[k];
        assert(docs[m].ranges[a] == t[k].ranges[a]);
    }
    lemma_flatten_in_order(t);
}

/// Running the same query again, after the first run has settled, settles
/// with the same matches in the same order, whatever order the capability
/// reports the same documents in.
pub proof fn lemma_rerun_reproduces(
    s: SessionView,
    query: QueryView,
    docs: Seq<DocumentView>,
    docs_again: Seq<DocumentView>,
)
    requires
        paths_distinct(docs),
        paths_distinct(docs_again),
        forall|d: DocumentView| docs.contains(d) <==> docs_again.contains(d),
    ensures
        ({
            let run1 = start_search(s, query);
            let settled = apply_events(run1, report_events(run1.search_id, docs));
            let run2 = start_search(settled, query);
            let resettled = apply_events(run2, report_events(run2.search_id, docs_again));
            &&& resettled.ranges == settled.ranges
            &&& !resettled.pending
            &&& resettled.query == settled.query
            &&& resettled.search_id == settled.search_id + 1
        }),
{
    lemma_listing_ignores_report_order(docs, docs_again);
    lemma_search_settles(s, query, docs);
    let run1 = start_search(s, query);
    let settled = apply_events(run1, report_events(run1.search_id, docs));
    lemma_search_settles(settled, query, docs_again);
}

/// Whatever a session receives after a start, its listing is empty or is
/// the path-ordered listing of one report of the running search: reports are
/// never merged, so the listing stays in path order.
pub proof fn lemma_listing_is_one_report(s: SessionView, events: Seq<SearchEventView>)
    requires
        s.ranges.len() == 0,
    ensures
        ({
            let r = apply_events(s, events).ranges;
            r.len() == 0 || exists|i: int|
                0 <= i < events.len() && #[trigger] events[i] is Results && event_search_id(
                    events[i],
                ) == s.search_id && r == ordered_matches(events[i]->documents)
        }),
    decreases events.len(),
{
    if events.len() > 0 {
        let p = events.drop_last();
        lemma_listing_is_one_report(s, p);
        lemma_events_keep_id(s, p);
        let t = apply_events(s, p);
        let e = events.last();
        let r = apply_events(s, events).ranges;
        if is_current(t, e) && e is Results {
            assert(events[events.len() - 1] == e);
        } else if r.len() > 0 {
            assert(r == t.ranges);
            let i = choose|i: int|
                0 <= i < p.len() && #[trigger] p[i] is Results && event_search_id(p[i])
                    == s.search_id && t.ranges == ordered_matches(p[i]->documents);
            assert(events[i] == p[i]);
        }
    }
}

/// The events, without those of the search `id`.
pub open spec fn events_except(events: Seq<SearchEventView>, id: nat) -> Seq<SearchEventView>
    decreases events.len(),
{
    if events.len() == 0 {
        events
    } else {
        let p = events_except(events.drop_last(), id);
        if event_search_id(events.last()) == id {
            p
        } else {
            p.push(events.last())
        }
    }
}

proof fn lemma_events_keep_id(s: SessionView, events: Seq<SearchEventView>)
    ensures
        apply_events(s, events).search_id == s.search_id,
    decreases events.len(),
{
    if events.len() > 0 {
        lemma_events_keep_id(s, events.drop_last());
    }
}

proof fn lemma_other_events_ignored(s: SessionView, events: Seq<SearchEventView>, id: nat)
    requires
        s.search_id != id,
    ensures
        apply_events(s, events) == apply_events(s, events_except(events, id)),
    decreases events.len(),
{
    if events.len() > 0 {
        let p = events_except(events.drop_last(), id);
        lemma_other_events_ignored(s, events.drop_last(), id);
        lemma_events_keep_id(s, events.drop_last());
        if event_search_id(events.last()) != id {
            assert(p.push(events.last()).drop_last() =~= p);
        }
    }
}

/// Once a second query has been started, nothing that the first search
/// reports has any effect: the session ends as if the first search's events
/// had never arrived.
pub proof fn lemma_superseded_search_ignored(
    s: SessionView,
    first: QueryView,
    second: QueryView,
    events: Seq<SearchEventView>,
)
    ensures
        ({
            let s1 = start_search(s, first);
            let s2 = start_search(s1, second);
            apply_events(s2, events) == apply_events(s2, events_except(events, s1.search_id))
        }),
{
    let s1 = start_search(s, first);
    let s2 = start_search(s1, second);
    lemma_other_events_ignored(s2, events, s1.search_id);
}

} // verus!
