//! Navigation over the ordered matches: stepping with wraparound, finding
//! the match under the caret, and moving between the input fields.
use vstd::prelude::*;
use vstd::arithmetic::div_mod::{
    lemma_add_mod_noop,
    lemma_add_mod_noop_right,
    lemma_mod_add_multiples_vanish,
    lemma_small_mod,
};

use crate::query::InputPanel;

verus! {

/// A direction to step in.
#[derive(Clone, Copy, Debug, PartialEq, Eq, Structural)]
pub enum Direction {
    Prev,
    Next,
}

/// A position in the results view: the excerpt of a document, in result
/// order, and an offset inside that document.
#[derive(Clone, Copy, Debug, PartialEq, Eq, Structural)]
pub struct Anchor {
    pub excerpt: usize,
    pub offset: usize,
}

/// One match: the document it lies in, that document's excerpt in the
/// results view, and its start and end offsets inside the document.
#[derive(Clone, Copy, Debug, PartialEq, Eq, Structural)]
pub struct MatchRange {
    pub buffer_id: u64,
    pub excerpt: usize,
    pub start: usize,
    pub end: usize,
}

/// Where a step from `current` lands among `count` matches: nothing when
/// there is no match, the first match when none is current, else the
/// neighbour in `direction`, wrapping around at both ends.
pub open spec fn selected_index(direction: Direction, current: Option<int>, count: int) -> Option<
    int,
> {
    if count <= 0 {
        None
    } else {
        match current {
            None => Some(0),
            Some(i) => match direction {
                Direction::Next => Some((i + 1) % count),
                Direction::Prev => Some(
                    if i == 0 {
                        count - 1
                    } else {
                        i - 1
                    },
                ),
            },
        }
    }
}

pub open spec fn opt_int(o: Option<usize>) -> Option<int> {
    match o {
        Some(i) => Some(i as int),
        None => None,
    }
}

/// The index a step in `direction` selects, among `match_count` matches,
/// from the index `current_index`.
pub fn select(direction: Direction, current_index: Option<usize>, match_count: usize) -> (r: Option<
    usize,
>)
    requires
        current_index matches Some(i) ==> i < match_count,
    ensures
        opt_int(r) == selected_index(direction, opt_int(current_index), match_count as int),
        r matches Some(i) ==> i < match_count,
{
    if match_count == 0 {
        return None;
    }
    match current_index {
        None => Some(0),
        Some(i) => match direction {
            Direction::Next => {
                if i + 1 == match_count {
                    assert((i + 1) as int % match_count as int == 0) by {
                        lemma_mod_add_multiples_vanish(0, match_count as int);
                    }
                    Some(0)
                } else {
                    assert((i + 1) as int % match_count as int == i + 1) by {
                        lemma_small_mod((i + 1) as nat, match_count as nat);
                    }
                    Some(i + 1)
                }
            },
            Direction::Prev => {
                if i == 0 {
                    Some(match_count - 1)
                } else {
                    Some(i - 1)
                }
            },
        },
    }
}

/// `times` steps in `direction` from `start`.
pub open spec fn repeat_select(
    direction: Direction,
    start: Option<int>,
    count: int,
    times: nat,
) -> Option<int>
    decreases times,
{
    if times == 0 {
        start
    } else {
        selected_index(direction, repeat_select(direction, start, count, (times - 1) as nat), count)
    }
}

proof fn lemma_repeat_select_closed_form(direction: Direction, i: int, n: int, k: nat)
    requires
        0 <= i < n,
    ensures
        repeat_select(direction, Some(i), n, k) == Some(
            match direction {
                Direction::Next => (i + k) % n,
                Direction::Prev => (i - k) % n,
            },
        ),
    decreases k,
{
    if k == 0 {
        lemma_small_mod(i as nat, n as nat);
    } else {
        let k1 = (k - 1) as nat;
        lemma_repeat_select_closed_form(direction, i, n, k1);
        match direction {
            Direction::Next => {
                lemma_add_mod_noop_right(1, i + k1, n);
                assert(1 + (i + k1) == i + k);
            },
            Direction::Prev => {
                let j = (i - k1) % n;
                lemma_add_mod_noop(i - k1, -1, n);
                lemma_mod_add_multiples_vanish(-1, n);
                lemma_small_mod((n - 1) as nat, n as nat);
                assert((-1int) % n == n - 1);
                assert((j + (n - 1)) % n == (i - k) % n);
                if j == 0 {
                    assert((n - 1) % n == n - 1);
                } else {
                    lemma_mod_add_multiples_vanish(j - 1, n);
                    lemma_small_mod((j - 1) as nat, n as nat);
                    assert(j + (n - 1) == n + (j - 1));
                }
            },
        }
    }
}

/// Stepping `n` times in the same direction among `n` matches, from any of
/// them, comes back to the match one started from.
pub proof fn lemma_navigation_cycles(direction: Direction, start: int, n: int)
    requires
        0 <= start < n,
    ensures
        repeat_select(direction, Some(start), n, n as nat) == Some(start),
{
    lemma_repeat_select_closed_form(direction, start, n, n as nat);
    lemma_mod_add_multiples_vanish(start, n);
    lemma_small_mod(start as nat, n as nat);
    assert((start - n) % n == start) by {
        lemma_mod_add_multiples_vanish(start - n, n);
        assert(n + (start - n) == start);
    }
}

/// Whether the match lies wholly before the caret.
pub open spec fn ends_before(r: MatchRange, caret: Anchor) -> bool {
    r.excerpt < caret.excerpt || (r.excerpt == caret.excerpt && r.end < caret.offset)
}

/// The index of the first match that holds or follows the caret, if any.
pub open spec fn is_first_at_or_after(ranges: Seq<MatchRange>, caret: Anchor, i: int) -> bool {
    &&& 0 <= i < ranges.len()
    &&& !ends_before(ranges[i], caret)
    &&& forall|j: int| 0 <= j < i ==> ends_before(#[trigger] ranges[j], caret)
}

/// The match that holds the caret, or the first one after it; `None` when
/// every match lies before the caret.
pub fn active_match_index(ranges: &Vec<MatchRange>, caret: Anchor) -> (r: Option<usize>)
    ensures
        match r {
            Some(i) => is_first_at_or_after(ranges@, caret, i as int),
            None => forall|j: int| 0 <= j < ranges@.len() ==> ends_before(#[trigger] ranges@[j], caret),
        },
{
    let mut i: usize = 0;
    while i < ranges.len()
        invariant
            i <= ranges.len(),
            forall|j: int| 0 <= j < i ==> ends_before(#[trigger] ranges@[j], caret),
        decreases ranges.len() - i,
    {
        let r = ranges[i];
        if !(r.excerpt < caret.excerpt || (r.excerpt == caret.excerpt && r.end < caret.offset)) {
            return Some(i);
        }
        i = i + 1;
    }
    None
}

/// The position of an input field in the order that focus moves through.
pub open spec fn panel_index(p: InputPanel) -> int {
    match p {
        InputPanel::Query => 0,
        InputPanel::Include => 1,
        InputPanel::Exclude => 2,
    }
}

/// The input field that focus moves to from `focused`: the query, the
/// inclusion filter and the exclusion filter, in a ring.
pub fn cycle_field(focused: InputPanel, direction: Direction) -> (r: InputPanel)
    ensures
        Some(panel_index(r)) == selected_index(direction, Some(panel_index(focused)), 3),
{
    match (focused, direction) {
        (InputPanel::Query, Direction::Next) => InputPanel::Include,
        (InputPanel::Include, Direction::Next) => InputPanel::Exclude,
        (InputPanel::Exclude, Direction::Next) => InputPanel::Query,
        (InputPanel::Query, Direction::Prev) => InputPanel::Exclude,
        (InputPanel::Include, Direction::Prev) => InputPanel::Query,
        (InputPanel::Exclude, Direction::Prev) => InputPanel::Include,
    }
}

} // verus!
