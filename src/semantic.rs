//! The semantic indexing coordinator: turning semantic search on and off,
//! tracking indexing progress, and allowing one semantic query at a time.
use vstd::prelude::*;

verus! {

/// Progress of indexing while semantic search is on.
pub struct SemanticSearchState {
    /// The number of files that indexing covers.
    pub file_count: usize,
    /// The number of files still to be indexed.
    pub outstanding_file_count: usize,
    /// Whether progress values are still awaited: indexing has not yet
    /// reported zero files outstanding.
    pub listening: bool,
    /// Whether a semantic query is running.
    pub search_task: bool,
}

/// Where the coordinator stands.
pub enum SemanticPhase {
    /// Semantic search is off.
    Off,
    /// Indexing of the project was asked for and has not answered yet.
    Requested,
    /// Indexing runs or is complete; `outstanding` files remain, and progress
    /// values are taken while `listening`.
    Active { file_count: nat, outstanding: nat, listening: bool, query_running: bool },
}

pub struct SemanticView {
    /// The number of times semantic search was turned on: the answers of
    /// the indexer and of queries carry it, so that late ones are told apart.
    pub generation: nat,
    pub phase: SemanticPhase,
}

/// Toggling: off when on, dropping what runs; else on under a new
/// generation, waiting for the indexer.
pub open spec fn toggled(s: SemanticView) -> SemanticView {
    if s.phase is Off {
        SemanticView { generation: s.generation + 1, phase: SemanticPhase::Requested }
    } else {
        SemanticView { generation: s.generation, phase: SemanticPhase::Off }
    }
}

/// Whether an answer of the indexer to the request of `generation` is the
/// one awaited.
pub open spec fn awaits_index(s: SemanticView, generation: nat) -> bool {
    s.phase is Requested && generation == s.generation
}

/// The indexer's answer: all `file_count` files outstanding.
pub open spec fn index_answered(s: SemanticView, generation: nat, file_count: nat) -> SemanticView {
    if awaits_index(s, generation) {
        SemanticView {
            generation: s.generation,
            phase: SemanticPhase::Active {
                file_count,
                outstanding: file_count,
                listening: true,
                query_running: false,
            },
        }
    } else {
        s
    }
}

/// The indexer's refusal: off again.
pub open spec fn index_refused(s: SemanticView, generation: nat) -> SemanticView {
    if awaits_index(s, generation) {
        SemanticView { generation: s.generation, phase: SemanticPhase::Off }
    } else {
        s
    }
}

/// Whether a progress value of `generation` is awaited.
pub open spec fn awaits_progress(s: SemanticView, generation: nat) -> bool {
    s.phase matches SemanticPhase::Active { listening, .. } && listening && generation
        == s.generation
}

/// A progress value replaces the outstanding count, bounded by the number
/// of files; zero ends the listening, and later values are ignored.
pub open spec fn progress_applied(s: SemanticView, generation: nat, count: nat) -> SemanticView {
    match s.phase {
        SemanticPhase::Active { file_count, outstanding, listening, query_running } if awaits_progress(
            s,
            generation,
        ) => SemanticView {
            generation: s.generation,
            phase: SemanticPhase::Active {
                file_count,
                outstanding: if count <= file_count {
                    count
                } else {
                    file_count
                },
                listening: count != 0,
                query_running,
            },
        },
        _ => s,
    }
}

/// Whether the answer of a query of `generation` is that of the running one.
pub open spec fn awaits_query(s: SemanticView, generation: nat) -> bool {
    s.phase matches SemanticPhase::Active { query_running, .. } && query_running && generation
        == s.generation
}

/// The running query's answer clears it.
pub open spec fn query_cleared(s: SemanticView, generation: nat) -> SemanticView {
    match s.phase {
        SemanticPhase::Active { file_count, outstanding, listening, query_running } if awaits_query(
            s,
            generation,
        ) => SemanticView {
            generation: s.generation,
            phase: SemanticPhase::Active { file_count, outstanding, listening, query_running: false },
        },
        _ => s,
    }
}

/// What the caller is to do after semantic search was toggled.
#[derive(Clone, Copy, Debug, PartialEq, Eq, Structural)]
pub enum SemanticAction {
    /// Ask the indexer to index the project; its answers carry `generation`.
    RequestIndex { generation: usize },
    /// Drop the indexing listener and any running query.
    Cancel,
}

/// What a progress value did.
#[derive(Clone, Copy, Debug, PartialEq, Eq, Structural)]
pub enum ProgressUpdate {
    /// The value belongs to no indexing that is under way; nothing changed.
    Ignored,
    /// The count was updated; more values are to come.
    Updated,
    /// The count reached zero: indexing is complete and the listener stops.
    Complete,
}

/// The semantic indexing coordinator.
pub struct SemanticSearch {
    generation: usize,
    requested: bool,
    state: Option<SemanticSearchState>,
}

impl View for SemanticSearch {
    type V = SemanticView;

    closed spec fn view(&self) -> SemanticView {
        SemanticView {
            generation: self.generation as nat,
            phase: if self.requested {
                SemanticPhase::Requested
            } else {
                match self.state {
                    None => SemanticPhase::Off,
                    Some(s) => SemanticPhase::Active {
                        file_count: s.file_count as nat,
                        outstanding: s.outstanding_file_count as nat,
                        listening: s.listening,
                        query_running: s.search_task,
                    },
                }
            },
        }
    }
}

/// No more files are outstanding than there are files.
pub open spec fn semantic_wf(v: SemanticView) -> bool {
    match v.phase {
        SemanticPhase::Active { file_count, outstanding, .. } => outstanding <= file_count,
        _ => true,
    }
}

impl SemanticSearch {
    /// A request in flight has no indexing state beside it, and no more files
    /// are outstanding than there are files.
    closed spec fn inv(&self) -> bool {
        &&& self.requested ==> self.state is None
        &&& match self.state {
            Some(s) => s.outstanding_file_count <= s.file_count,
            None => true,
        }
    }

    pub closed spec fn wf(&self) -> bool {
        self.inv()
    }

    /// Semantic search off.
    pub fn new() -> (r: SemanticSearch)
        ensures
            r.wf(),
            r@ == (SemanticView { generation: 0, phase: SemanticPhase::Off }),
    {
        SemanticSearch { generation: 0, requested: false, state: None }
    }

    pub proof fn lemma_wf(&self)
        requires
            self.wf(),
        ensures
            semantic_wf(self@),
    {
    }

    /// The number of times semantic search was turned on.
    pub fn generation(&self) -> (r: usize)
        ensures
            r as nat == self@.generation,
    {
        self.generation
    }

    /// Whether semantic search is on, asked for or active.
    pub fn is_on(&self) -> (r: bool)
        ensures
            r == !(self@.phase is Off),
    {
        self.requested || self.state.is_some()
    }

    /// Turns semantic search off when it is on, dropping what it was
    /// doing; else turns it on under a new generation and asks for indexing.
    pub fn toggle(&mut self) -> (action: SemanticAction)
        requires
            old(self).wf(),
            old(self)@.generation < usize::MAX,
        ensures
            final(self).wf(),
            final(self)@ == toggled(old(self)@),
            !(old(self)@.phase is Off) ==> action == SemanticAction::Cancel && final(self)@ == (
            SemanticView { generation: old(self)@.generation, phase: SemanticPhase::Off }),
            old(self)@.phase is Off ==> action is RequestIndex && action->generation as nat == old(
                self,
            )@.generation + 1 && final(self)@ == (SemanticView {
                generation: old(self)@.generation + 1,
                phase: SemanticPhase::Requested,
            }),
    {
        if self.requested || self.state.is_some() {
            self.requested = false;
            self.state = None;
            SemanticAction::Cancel
        } else {
            self.generation = self.generation + 1;
            self.requested = true;
            SemanticAction::RequestIndex { generation: self.generation }
        }
    }

    /// The indexer's answer to the request of `generation`: `file_count`
    /// files to index, all outstanding. An answer to any other request is
    /// ignored.
    pub fn index_ready(&mut self, generation: usize, file_count: usize) -> (accepted: bool)
        requires
            old(self).wf(),
        ensures
            final(self).wf(),
            final(self)@ == index_answered(old(self)@, generation as nat, file_count as nat),
            accepted == (old(self)@.phase is Requested && generation as nat == old(self)@.generation),
            accepted ==> final(self)@ == (SemanticView {
                generation: old(self)@.generation,
                phase: SemanticPhase::Active {
                    file_count: file_count as nat,
                    outstanding: file_count as nat,
                    listening: true,
                    query_running: false,
                },
            }),
            !accepted ==> final(self)@ == old(self)@,
    {
        if self.requested && generation == self.generation {
            self.requested = false;
            self.state = Some(
                SemanticSearchState {
                    file_count,
                    outstanding_file_count: file_count,
                    listening: true,
                    search_task: false,
                },
            );
            true
        } else {
            false
        }
    }

    /// The indexer refused the request of `generation`: semantic search is
    /// off again, with no retry.
    pub fn index_failed(&mut self, generation: usize) -> (accepted: bool)
        requires
            old(self).wf(),
        ensures
            final(self).wf(),
            final(self)@ == index_refused(old(self)@, generation as nat),
            accepted == (old(self)@.phase is Requested && generation as nat == old(self)@.generation),
            accepted ==> final(self)@ == (SemanticView {
                generation: old(self)@.generation,
                phase: SemanticPhase::Off,
            }),
            !accepted ==> final(self)@ == old(self)@,
    {
        if self.requested && generation == self.generation {
            self.requested = false;
            true
        } else {
            false
        }
    }

    /// A progress value of the indexing of `generation`: `count` files
    /// remain. It replaces the outstanding count, bounded by the number of
    /// files; a value of zero completes indexing, and values after it are
    /// ignored.
    pub fn indexing_progress(&mut self, generation: usize, count: usize) -> (r: ProgressUpdate)
        requires
            old(self).wf(),
        ensures
            final(self).wf(),
            final(self)@ == progress_applied(old(self)@, generation as nat, count as nat),
            r == if awaits_progress(old(self)@, generation as nat) {
                if count == 0 {
                    ProgressUpdate::Complete
                } else {
                    ProgressUpdate::Updated
                }
            } else {
                ProgressUpdate::Ignored
            },
    {
        if self.requested || generation != self.generation {
            return ProgressUpdate::Ignored;
        }
        match &mut self.state {
            Some(s) => {
                if !s.listening {
                    return ProgressUpdate::Ignored;
                }
                s.outstanding_file_count = if count <= s.file_count {
                    count
                } else {
                    s.file_count
                };
                s.listening = count != 0;
                if count == 0 {
                    ProgressUpdate::Complete
                } else {
                    ProgressUpdate::Updated
                }
            },
            None => ProgressUpdate::Ignored,
        }
    }

    /// Starts a semantic query when indexing is complete and no query runs;
    /// returns the generation its answer is to carry, or `None` when nothing
    /// was started.
    pub fn start_query(&mut self) -> (r: Option<usize>)
        requires
            old(self).wf(),
        ensures
            final(self).wf(),
            match old(self)@.phase {
                SemanticPhase::Active { file_count, outstanding, listening, query_running } if outstanding
                    == 0 && !query_running => {
                    &&& r is Some && r->0 as nat == old(self)@.generation
                    &&& final(self)@ == SemanticView {
                        generation: old(self)@.generation,
                        phase: SemanticPhase::Active {
                            file_count,
                            outstanding,
                            listening,
                            query_running: true,
                        },
                    }
                },
                _ => r is None && final(self)@ == old(self)@,
            },
    {
        if self.requested {
            return None;
        }
        match &mut self.state {
            Some(s) => {
                if s.outstanding_file_count == 0 && !s.search_task {
                    s.search_task = true;
                    Some(self.generation)
                } else {
                    None
                }
            },
            None => None,
        }
    }

    /// The query of `generation` has answered; says whether it was the
    /// running one, which is then cleared.
    pub fn query_finished(&mut self, generation: usize) -> (accepted: bool)
        requires
            old(self).wf(),
        ensures
            final(self).wf(),
            final(self)@ == query_cleared(old(self)@, generation as nat),
            accepted == awaits_query(old(self)@, generation as nat),
            match old(self)@.phase {
                SemanticPhase::Active { file_count, outstanding, listening, query_running } if query_running
                    && generation as nat == old(self)@.generation => {
                    &&& accepted
                    &&& final(self)@ == SemanticView {
                        generation: old(self)@.generation,
                        phase: SemanticPhase::Active {
                            file_count,
                            outstanding,
                            listening,
                            query_running: false,
                        },
                    }
                },
                _ => !accepted && final(self)@ == old(self)@,
            },
    {
        if self.requested || generation != self.generation {
            return false;
        }
        match &mut self.state {
            Some(s) => {
                if s.search_task {
                    s.search_task = false;
                    true
                } else {
                    false
                }
            },
            None => false,
        }
    }

    /// The indexing state while semantic search is active.
    pub fn state(&self) -> (r: &Option<SemanticSearchState>)
        ensures
            match self@.phase {
                SemanticPhase::Active { file_count, outstanding, listening, query_running } => r matches Some(
                    s,
                ) && s.file_count == file_count && s.outstanding_file_count == outstanding
                    && s.listening == listening && s.search_task == query_running,
                _ => r is None,
            },
    {
        if self.requested {
            &None
        } else {
            &self.state
        }
    }

    /// Indexing progress as files done and files in all.
    pub fn progress(&self) -> (r: Option<(usize, usize)>)
        requires
            self.wf(),
        ensures
            match self@.phase {
                SemanticPhase::Active { file_count, outstanding, .. } => r == Some(
                    ((file_count - outstanding) as usize, file_count as usize),
                ),
                _ => r is None,
            },
    {
        if self.requested {
            return None;
        }
        match &self.state {
            Some(s) => Some((s.file_count - s.outstanding_file_count, s.file_count)),
            None => None,
        }
    }
}

} // verus!
