//! How the search fits into a workspace: the events it raises, its toolbar
//! bar, and the registry that finds a project's search again.
use std::collections::HashMap;
use vstd::prelude::*;

use crate::navigation::{cycle_field, panel_index, selected_index, Direction};
use crate::query::InputPanel;
use crate::view::ToolbarItemLocation;

verus! {

broadcast use vstd::std_specs::hash::group_hash_axioms;

/// What an item tells its pane.
#[derive(Clone, Copy, Debug, PartialEq, Eq, Structural)]
pub enum ItemEvent {
    CloseItem,
    UpdateTab,
    UpdateBreadcrumbs,
    Edit,
}

/// What the search controller raises.
pub enum ViewEvent {
    /// The tab's title or breadcrumbs changed.
    UpdateTab,
    /// The controller asks to be activated.
    Activate,
    /// One of its editors raised an event, given as the item events it means.
    EditorEvent(Vec<ItemEvent>),
}

/// The item events that a controller event means to its pane.
pub fn to_item_events(event: &ViewEvent) -> (r: Vec<ItemEvent>)
    ensures
        r@ == match event {
            ViewEvent::UpdateTab => seq![ItemEvent::UpdateBreadcrumbs, ItemEvent::UpdateTab],
            ViewEvent::EditorEvent(events) => events@,
            ViewEvent::Activate => Seq::empty(),
        },
{
    match event {
        ViewEvent::UpdateTab => {
            let v = vec![ItemEvent::UpdateBreadcrumbs, ItemEvent::UpdateTab];
            assert(v@ =~= seq![ItemEvent::UpdateBreadcrumbs, ItemEvent::UpdateTab]);
            v
        },
        ViewEvent::EditorEvent(events) => events.clone(),
        ViewEvent::Activate => Vec::new(),
    }
}

/// The search bar of a pane's toolbar, following the pane's active search.
pub struct ProjectSearchBar {
    /// The id of the search controller that is the pane's active item.
    active_project_search: Option<u64>,
}

impl View for ProjectSearchBar {
    type V = Option<u64>;

    closed spec fn view(&self) -> Option<u64> {
        self.active_project_search
    }
}

impl ProjectSearchBar {
    /// A bar that follows no search.
    pub fn new() -> (r: ProjectSearchBar)
        ensures
            r@ is None,
    {
        ProjectSearchBar { active_project_search: None }
    }

    /// The id of the search that the bar follows.
    pub fn active_project_search(&self) -> (r: Option<u64>)
        ensures
            r == self@,
    {
        self.active_project_search
    }

    /// The pane's active item changed to `item`, the id of a search
    /// controller, or `None` for any other item; returns where the bar shows.
    pub fn set_active_pane_item(&mut self, item: Option<u64>) -> (r: ToolbarItemLocation)
        ensures
            final(self)@ == item,
            r == if item is Some {
                ToolbarItemLocation::PrimaryLeft
            } else {
                ToolbarItemLocation::Hidden
            },
    {
        self.active_project_search = item;
        if item.is_some() {
            ToolbarItemLocation::PrimaryLeft
        } else {
            ToolbarItemLocation::Hidden
        }
    }

    /// The input field that focus moves to from the focused one, in the
    /// active search; `None` when the bar follows no search or no input field
    /// has focus, and the key is left to others.
    pub fn cycle_field(&self, focused: Option<InputPanel>, direction: Direction) -> (r: Option<
        InputPanel,
    >)
        ensures
            (self@ is None || focused is None) ==> r is None,
            (self@ is Some && focused is Some) ==> r is Some && Some(
                panel_index(r->0),
            ) == selected_index(direction, Some(panel_index(focused->0)), 3),
    {
        if self.active_project_search.is_none() {
            return None;
        }
        match focused {
            Some(p) => Some(cycle_field(p, direction)),
            None => None,
        }
    }

    /// The bar takes two rows.
    pub fn row_count(&self) -> (r: usize)
        ensures
            r == 2,
    {
        2
    }
}

impl Default for ProjectSearchBar {
    fn default() -> (r: ProjectSearchBar)
        ensures
            r@ is None,
    {
        ProjectSearchBar::new()
    }
}

/// For each project, the search controller that was focused last.
pub struct ActiveSearches {
    searches: HashMap<u64, u64>,
}

impl View for ActiveSearches {
    type V = Map<u64, u64>;

    closed spec fn view(&self) -> Map<u64, u64> {
        self.searches@
    }
}

/// The registry of searches, empty.
pub fn init() -> (r: ActiveSearches)
    ensures
        r@ == Map::<u64, u64>::empty(),
{
    ActiveSearches { searches: HashMap::new() }
}

/// Where a new-search request leads.
#[derive(Clone, Copy, Debug, PartialEq, Eq, Structural)]
pub enum DeployTarget {
    /// Activate the open search controller with this id.
    Existing(u64),
    /// Open a new search controller.
    New,
}

/// The open search the request goes to: the project's last focused one if
/// it is open, else the first open one, else a new one.
pub open spec fn deploy_target_of(last: Option<u64>, open: Seq<u64>) -> DeployTarget {
    if last is Some && open.contains(last->0) {
        DeployTarget::Existing(last->0)
    } else if open.len() > 0 {
        DeployTarget::Existing(open[0])
    } else {
        DeployTarget::New
    }
}

impl ActiveSearches {
    /// Records `view` as the project's last focused search.
    pub fn activate(&mut self, project: u64, view: u64)
        ensures
            final(self)@ == old(self)@.insert(project, view),
    {
        self.searches.insert(project, view);
    }

    /// Forgets a project that was closed.
    pub fn forget(&mut self, project: u64)
        ensures
            final(self)@ == old(self)@.remove(project),
    {
        self.searches.remove(&project);
    }

    /// The project's last focused search.
    pub fn get(&self, project: u64) -> (r: Option<u64>)
        ensures
            r == if self@.contains_key(project) {
                Some(self@[project])
            } else {
                None
            },
    {
        match self.searches.get(&project) {
            Some(v) => Some(*v),
            None => None,
        }
    }

    /// Where a new-search request in `project` goes, among the search
    /// controllers `open` in its workspace, in workspace order.
    pub fn deploy_target(&self, project: u64, open: &Vec<u64>) -> (r: DeployTarget)
        ensures
            r == deploy_target_of(
                if self@.contains_key(project) {
                    Some(self@[project])
                } else {
                    None
                },
                open@,
            ),
    {
        match self.get(project) {
            Some(v) => {
                let mut i: usize = 0;
                while i < open.len()
                    invariant
                        i <= open.len(),
                        self@.contains_key(project) && self@[project] == v,
                        forall|j: int| 0 <= j < i ==> open@[j] != v,
                    decreases open.len() - i,
                {
                    if open[i] == v {
                        assert(open@[i as int] == v);
                        assert(open@.contains(v));
                        return DeployTarget::Existing(v);
                    }
                    i = i + 1;
                }
            },
            None => {},
        }
        if open.len() > 0 {
            DeployTarget::Existing(open[0])
        } else {
            DeployTarget::New
        }
    }
}

/// The query a new search starts with: the suggestion taken from the active
/// editor, unless it is empty.
pub fn deploy_query(suggestion: Option<String>) -> (r: Option<String>)
    ensures
        r == match suggestion {
            Some(s) if s@.len() > 0 => Some(s),
            _ => None,
        },
{
    match suggestion {
        Some(s) => if s.as_str().is_empty() {
            None
        } else {
            Some(s)
        },
        None => None,
    }
}

} // verus!
