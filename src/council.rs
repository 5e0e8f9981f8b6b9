use vstd::prelude::*;

use crate::graph::{referenced_set, DependencyGraph, GraphEntry};
use crate::ids::{contains_id, move_ids, AttributeValueId};

verus! {

broadcast use vstd::seq_lib::lemma_seq_contains_after_push;

/// What the coordinator answers.
#[derive(Debug)]
pub enum CouncilResponse {
    /// Permission to materialize new value records.
    OkToCreate,
    /// These nodes have all their predecessors retired and may be computed now.
    OkToProcess { node_ids: Vec<AttributeValueId> },
    /// A peer has already computed this node in this generation.
    BeenProcessed { node_id: AttributeValueId },
    /// The coordinator ends the session.
    Shutdown,
}

/// What a participant sends to the coordinator.
#[derive(Debug)]
pub enum CouncilRequest {
    WaitToCreate,
    FinishedCreatingValues,
    RegisterGraph(Vec<GraphEntry>),
    FetchResponse,
    ProcessedValue(AttributeValueId),
    Bye,
}

/// Where a session stands.
#[derive(Clone, Copy, Debug, PartialEq, Eq, Structural)]
pub enum SessionState {
    Connecting,
    WaitingToCreate,
    Creating,
    Registered,
    Admitting,
    Finished,
    ShutDown,
}

/// A protocol step taken out of order, or an answer that does not fit the step.
#[derive(Clone, Copy, Debug, PartialEq, Eq, Structural)]
pub enum CouncilError {
    /// The step is not allowed in the state the session is in.
    OutOfOrder(SessionState),
    /// The coordinator answered with a response that this phase does not expect.
    UnexpectedResponse,
}

/// How the creation phase ended.
#[derive(Clone, Copy, Debug, PartialEq, Eq, Structural)]
pub enum CreateOutcome {
    /// Values may be created now.
    Proceed,
    /// The coordinator shut the session down: another participant has the work.
    Shutdown,
}

/// The participant's side of one session, keyed by run and scope.
pub struct CouncilSession {
    run_id: u128,
    scope_id: u128,
    state: SessionState,
}

impl CouncilSession {
    pub closed spec fn spec_state(&self) -> SessionState {
        self.state
    }

    pub closed spec fn spec_run_id(&self) -> u128 {
        self.run_id
    }

    pub closed spec fn spec_scope_id(&self) -> u128 {
        self.scope_id
    }

    /// A session that is not yet waiting for anything.
    pub fn new(run_id: u128, scope_id: u128) -> (s: Self)
        ensures
            s.spec_state() == SessionState::Connecting,
            s.spec_run_id() == run_id,
            s.spec_scope_id() == scope_id,
    {
        CouncilSession { run_id, scope_id, state: SessionState::Connecting }
    }

    pub fn state(&self) -> (r: SessionState)
        ensures
            r == self.spec_state(),
    {
        self.state
    }

    pub fn run_id(&self) -> (r: u128)
        ensures
            r == self.spec_run_id(),
    {
        self.run_id
    }

    pub fn scope_id(&self) -> (r: u128)
        ensures
            r == self.spec_scope_id(),
    {
        self.scope_id
    }

    /// Asks for permission to create values; allowed only at the start of a session.
    pub fn wait_to_create_values(&mut self) -> (r: Result<CouncilRequest, CouncilError>)
        ensures
            final(self).spec_run_id() == old(self).spec_run_id(),
            final(self).spec_scope_id() == old(self).spec_scope_id(),
            old(self).spec_state() == SessionState::Connecting ==> (r matches Ok(CouncilRequest::WaitToCreate)
                && final(self).spec_state() == SessionState::WaitingToCreate),
            old(self).spec_state() != SessionState::Connecting ==> r == Err::<CouncilRequest, CouncilError>(
                CouncilError::OutOfOrder(old(self).spec_state()),
            ) && final(self).spec_state() == old(self).spec_state(),
    {
        if self.state == SessionState::Connecting {
            self.state = SessionState::WaitingToCreate;
            Ok(CouncilRequest::WaitToCreate)
        } else {
            Err(CouncilError::OutOfOrder(self.state))
        }
    }

    /// Takes the coordinator's answer to the wait: permission, or a shutdown; no answer at all
    /// counts as a shutdown.
    pub fn on_create_response(&mut self, response: &Option<CouncilResponse>) -> (r: Result<CreateOutcome, CouncilError>)
        ensures
            final(self).spec_run_id() == old(self).spec_run_id(),
            final(self).spec_scope_id() == old(self).spec_scope_id(),
            old(self).spec_state() != SessionState::WaitingToCreate ==> r == Err::<CreateOutcome, CouncilError>(
                CouncilError::OutOfOrder(old(self).spec_state()),
            ) && final(self).spec_state() == old(self).spec_state(),
            old(self).spec_state() == SessionState::WaitingToCreate ==> match response {
                Some(CouncilResponse::OkToCreate) => r == Ok::<CreateOutcome, CouncilError>(CreateOutcome::Proceed)
                    && final(self).spec_state() == SessionState::Creating,
                Some(CouncilResponse::Shutdown) | None => r == Ok::<CreateOutcome, CouncilError>(CreateOutcome::Shutdown)
                    && final(self).spec_state() == SessionState::ShutDown,
                Some(_) => r == Err::<CreateOutcome, CouncilError>(CouncilError::UnexpectedResponse)
                    && final(self).spec_state() == old(self).spec_state(),
            },
    {
        if self.state != SessionState::WaitingToCreate {
            return Err(CouncilError::OutOfOrder(self.state));
        }
        match response {
            Some(CouncilResponse::OkToCreate) => {
                self.state = SessionState::Creating;
                Ok(CreateOutcome::Proceed)
            },
            Some(CouncilResponse::Shutdown) | None => {
                self.state = SessionState::ShutDown;
                Ok(CreateOutcome::Shutdown)
            },
            Some(_) => Err(CouncilError::UnexpectedResponse),
        }
    }

    /// Tells the coordinator that the values of this run exist now.
    pub fn finished_creating_values(&self) -> (r: Result<CouncilRequest, CouncilError>)
        ensures
            self.spec_state() == SessionState::Creating ==> r matches Ok(CouncilRequest::FinishedCreatingValues),
            self.spec_state() != SessionState::Creating ==> r == Err::<CouncilRequest, CouncilError>(
                CouncilError::OutOfOrder(self.spec_state()),
            ),
    {
        if self.state == SessionState::Creating {
            Ok(CouncilRequest::FinishedCreatingValues)
        } else {
            Err(CouncilError::OutOfOrder(self.state))
        }
    }

    /// Uploads the graph; a session registers exactly one graph, after its values exist.
    pub fn register_dependency_graph(&mut self, graph: &DependencyGraph) -> (r: Result<CouncilRequest, CouncilError>)
        requires
            graph.wf(),
        ensures
            final(self).spec_run_id() == old(self).spec_run_id(),
            final(self).spec_scope_id() == old(self).spec_scope_id(),
            old(self).spec_state() == SessionState::Creating ==> final(self).spec_state() == SessionState::Registered,
            old(self).spec_state() == SessionState::Creating ==> (r matches Ok(CouncilRequest::RegisterGraph(entries))
                && entries@.len() == graph@.dom().len()
                && (forall|i: int| 0 <= i < entries@.len() ==> graph@.contains_key(#[trigger] entries@[i].node)
                    && entries@[i].dependencies@.to_set() == graph@[entries@[i].node])
                && (forall|k: AttributeValueId| #[trigger] graph@.contains_key(k) ==> exists|i: int| 0 <= i < entries@.len() && entries@[i].node == k)),
            old(self).spec_state() != SessionState::Creating ==> r == Err::<CouncilRequest, CouncilError>(
                CouncilError::OutOfOrder(old(self).spec_state()),
            ) && final(self).spec_state() == old(self).spec_state(),
    {
        if self.state != SessionState::Creating {
            return Err(CouncilError::OutOfOrder(self.state));
        }
        self.state = SessionState::Registered;
        Ok(CouncilRequest::RegisterGraph(graph.entries()))
    }

    /// Polls for the next event; allowed once the graph is registered.
    pub fn fetch_response(&mut self) -> (r: Result<CouncilRequest, CouncilError>)
        ensures
            final(self).spec_run_id() == old(self).spec_run_id(),
            final(self).spec_scope_id() == old(self).spec_scope_id(),
            (old(self).spec_state() == SessionState::Registered || old(self).spec_state() == SessionState::Admitting)
                ==> (r matches Ok(CouncilRequest::FetchResponse) && final(self).spec_state() == SessionState::Admitting),
            !(old(self).spec_state() == SessionState::Registered || old(self).spec_state() == SessionState::Admitting)
                ==> r == Err::<CouncilRequest, CouncilError>(CouncilError::OutOfOrder(old(self).spec_state()))
                && final(self).spec_state() == old(self).spec_state(),
    {
        if self.state == SessionState::Registered || self.state == SessionState::Admitting {
            self.state = SessionState::Admitting;
            Ok(CouncilRequest::FetchResponse)
        } else {
            Err(CouncilError::OutOfOrder(self.state))
        }
    }

    /// Reports that a node is done, so that its dependents can be admitted.
    pub fn processed_value(&self, node_id: AttributeValueId) -> (r: Result<CouncilRequest, CouncilError>)
        ensures
            self.spec_state() == SessionState::Admitting ==> r == Ok::<CouncilRequest, CouncilError>(
                CouncilRequest::ProcessedValue(node_id),
            ),
            self.spec_state() != SessionState::Admitting ==> r == Err::<CouncilRequest, CouncilError>(
                CouncilError::OutOfOrder(self.spec_state()),
            ),
    {
        if self.state == SessionState::Admitting {
            Ok(CouncilRequest::ProcessedValue(node_id))
        } else {
            Err(CouncilError::OutOfOrder(self.state))
        }
    }

    /// Records that the coordinator ended the session.
    pub fn shut_down(&mut self)
        ensures
            final(self).spec_run_id() == old(self).spec_run_id(),
            final(self).spec_scope_id() == old(self).spec_scope_id(),
            old(self).spec_state() == SessionState::Finished ==> final(self).spec_state() == SessionState::Finished,
            old(self).spec_state() != SessionState::Finished ==> final(self).spec_state() == SessionState::ShutDown,
    {
        if self.state != SessionState::Finished {
            self.state = SessionState::ShutDown;
        }
    }

    /// Releases the session. The release is sent once: a released session sends nothing more.
    pub fn bye(&mut self) -> (r: Option<CouncilRequest>)
        ensures
            final(self).spec_run_id() == old(self).spec_run_id(),
            final(self).spec_scope_id() == old(self).spec_scope_id(),
            final(self).spec_state() == SessionState::Finished,
            old(self).spec_state() != SessionState::Finished <==> r matches Some(CouncilRequest::Bye),
            r is None || r matches Some(CouncilRequest::Bye),
    {
        if self.state == SessionState::Finished {
            None
        } else {
            self.state = SessionState::Finished;
            Some(CouncilRequest::Bye)
        }
    }
}

/// Whether every dependency of `n` in `g` is in `done`; a node that is not a key of `g`
/// depends on nothing.
pub open spec fn ready_in(g: Map<AttributeValueId, Set<AttributeValueId>>, done: Set<AttributeValueId>, n: AttributeValueId) -> bool {
    g.contains_key(n) ==> g[n].subset_of(done)
}

/// An in-process coordinator for a single participant: it admits a node once every one of
/// its dependencies has been reported processed.
pub struct Admission {
    graph: DependencyGraph,
    pending: Vec<AttributeValueId>,
    admitted: Vec<AttributeValueId>,
    retired: Vec<AttributeValueId>,
}

impl Admission {
    pub closed spec fn graph_view(&self) -> Map<AttributeValueId, Set<AttributeValueId>> {
        self.graph@
    }

    /// Nodes not admitted yet.
    pub closed spec fn pending_set(&self) -> Set<AttributeValueId> {
        self.pending@.to_set()
    }

    /// Nodes admitted and not yet reported processed.
    pub closed spec fn admitted_set(&self) -> Set<AttributeValueId> {
        self.admitted@.to_set()
    }

    /// Nodes reported processed.
    pub closed spec fn retired_set(&self) -> Set<AttributeValueId> {
        self.retired@.to_set()
    }

    /// How many nodes wait for admission.
    pub closed spec fn pending_count(&self) -> nat {
        self.pending@.len()
    }

    pub closed spec fn wf(&self) -> bool {
        &&& self.graph.wf()
        &&& self.pending@.no_duplicates()
        &&& self.admitted@.no_duplicates()
        &&& self.retired@.no_duplicates()
        &&& self.pending_set().disjoint(self.admitted_set())
        &&& self.pending_set().disjoint(self.retired_set())
        &&& self.admitted_set().disjoint(self.retired_set())
    }

    /// The count of waiting nodes is the size of the set of waiting nodes, and no node is
    /// both waiting, admitted or retired at once.
    pub proof fn lemma_pending_count(&self)
        requires
            self.wf(),
        ensures
            self.pending_count() == self.pending_set().len(),
            self.pending_set().finite(),
            self.pending_set().disjoint(self.admitted_set()),
            self.pending_set().disjoint(self.retired_set()),
            self.admitted_set().disjoint(self.retired_set()),
    {
        self.pending@.unique_seq_to_set();
        vstd::seq_lib::seq_to_set_is_finite(self.pending@);
    }

    /// Registers `graph`: every node it refers to waits for admission.
    pub fn register(graph: DependencyGraph) -> (a: Self)
        requires
            graph.wf(),
        ensures
            a.wf(),
            a.graph_view() == graph@,
            a.pending_set() == referenced_set(graph@),
            a.admitted_set() == Set::<AttributeValueId>::empty(),
            a.retired_set() == Set::<AttributeValueId>::empty(),
    {
        let pending = graph.referenced_nodes();
        let a = Admission { graph, pending, admitted: Vec::new(), retired: Vec::new() };
        proof {
            assert(a.admitted_set() =~= Set::empty());
            assert(a.retired_set() =~= Set::empty());
        }
        a
    }

    fn is_ready(&self, n: AttributeValueId) -> (r: bool)
        requires
            self.wf(),
        ensures
            r == ready_in(self.graph@, self.retired_set(), n),
    {
        match self.graph.dependencies(n) {
            None => true,
            Some(deps) => {
                let mut i: usize = 0;
                while i < deps.len()
                    invariant
                        0 <= i <= deps@.len(),
                        self.graph@.contains_key(n),
                        deps@.to_set() == self.graph@[n],
                        forall|j: int| 0 <= j < i ==> self.retired@.contains(#[trigger] deps@[j]),
                    decreases deps@.len() - i,
                {
                    if !contains_id(&self.retired, deps[i]) {
                        proof {
                            assert(deps@.to_set().contains(deps@[i as int]));
                            assert(self.graph@[n].contains(deps@[i as int]));
                            assert(!self.retired_set().contains(deps@[i as int]));
                        }
                        return false;
                    }
                    i = i + 1;
                }
                proof {
                    assert forall|d: AttributeValueId| self.graph@[n].contains(d) implies self.retired_set().contains(d) by {
                        assert(deps@.to_set().contains(d));
                        let j = choose|j: int| 0 <= j < deps@.len() && deps@[j] == d;
                        assert(self.retired@.contains(deps@[j]));
                    }
                }
                true
            },
        }
    }

    /// The next answer: the pending nodes that are ready, when there are some; a shutdown once
    /// every node is retired; and no answer when nothing can make progress.
    pub fn next_response(&mut self) -> (r: Option<CouncilResponse>)
        requires
            old(self).wf(),
        ensures
            final(self).wf(),
            final(self).graph_view() == old(self).graph_view(),
            final(self).retired_set() == old(self).retired_set(),
            r matches Some(CouncilResponse::OkToProcess { .. }) ==> final(self).pending_count() < old(self).pending_count(),
            !(r matches Some(CouncilResponse::OkToProcess { .. })) ==> final(self).pending_count() == old(self).pending_count(),
            old(self).pending_count() == old(self).pending_set().len(),
            match r {
                Some(CouncilResponse::OkToProcess { node_ids }) => node_ids@.no_duplicates()
                    && node_ids@.len() > 0
                    && node_ids@.to_set() == Set::new(|n: AttributeValueId| old(self).pending_set().contains(n)
                        && ready_in(old(self).graph_view(), old(self).retired_set(), n))
                    && final(self).pending_set() == old(self).pending_set().difference(node_ids@.to_set())
                    && final(self).admitted_set() == old(self).admitted_set().union(node_ids@.to_set()),
                Some(CouncilResponse::Shutdown) => old(self).pending_set() == Set::<AttributeValueId>::empty()
                    && old(self).admitted_set() == Set::<AttributeValueId>::empty()
                    && final(self).pending_set() == old(self).pending_set()
                    && final(self).admitted_set() == old(self).admitted_set(),
                None => (forall|n: AttributeValueId| old(self).pending_set().contains(n)
                        ==> !ready_in(old(self).graph_view(), old(self).retired_set(), n))
                    && !(old(self).pending_set() == Set::<AttributeValueId>::empty()
                        && old(self).admitted_set() == Set::<AttributeValueId>::empty())
                    && final(self).pending_set() == old(self).pending_set()
                    && final(self).admitted_set() == old(self).admitted_set(),
                Some(_) => false,
            },
    {
        proof {
            self.pending@.unique_seq_to_set();
        }
        let ghost ready_set = Set::new(|n: AttributeValueId| self.pending_set().contains(n)
            && ready_in(self.graph@, self.retired_set(), n));
        let mut ready: Vec<AttributeValueId> = Vec::new();
        let mut i: usize = 0;
        while i < self.pending.len()
            invariant
                self.wf(),
                self == old(self),
                0 <= i <= self.pending@.len(),
                ready@.no_duplicates(),
                forall|x: AttributeValueId| ready@.contains(x) <==> (self.pending@.subrange(0, i as int).contains(x)
                    && ready_in(self.graph@, self.retired_set(), x)),
            decreases self.pending@.len() - i,
        {
            let x = self.pending[i];
            proof {
                assert(!self.pending@.subrange(0, i as int).contains(x)) by {
                    if self.pending@.subrange(0, i as int).contains(x) {
                        let j = choose|j: int| 0 <= j < i && self.pending@.subrange(0, i as int)[j] == x;
                        assert(self.pending@[j] == self.pending@[i as int]);
                    }
                }
                assert(self.pending@.subrange(0, i + 1) == self.pending@.subrange(0, i as int).push(x));
            }
            if self.is_ready(x) {
                assert(!ready@.contains(x));
                ready.push(x);
            }
            i = i + 1;
        }
        proof {
            assert(self.pending@.subrange(0, self.pending@.len() as int) == self.pending@);
            assert(ready@.to_set() =~= ready_set);
        }
        if ready.len() > 0 {
            let ghost before = self.pending@;
            let moved = move_ids(&mut self.pending, &mut self.admitted, &ready);
            proof {
                before.unique_seq_to_set();
                self.pending@.unique_seq_to_set();
                vstd::seq_lib::seq_to_set_is_finite(before);
                vstd::seq_lib::seq_to_set_is_finite(ready@);
                vstd::set_lib::lemma_set_difference_len(before.to_set(), ready@.to_set());
                assert(ready@.to_set().contains(ready@[0]));
                assert(before.to_set().intersect(ready@.to_set()).contains(ready@[0]));
                vstd::set_lib::lemma_set_empty_equivalency_len(before.to_set().intersect(ready@.to_set()));
                assert(moved@.to_set() =~= ready@.to_set());
                assert(self.pending_set().disjoint(self.retired_set()));
                assert(self.admitted_set().disjoint(self.retired_set()));
            }
            Some(CouncilResponse::OkToProcess { node_ids: ready })
        } else if self.pending.len() == 0 && self.admitted.len() == 0 {
            proof {
                assert(self.pending_set() =~= Set::empty());
                assert(self.admitted_set() =~= Set::empty());
            }
            Some(CouncilResponse::Shutdown)
        } else {
            proof {
                assert forall|n: AttributeValueId| self.pending_set().contains(n) implies !ready_in(self.graph@, self.retired_set(), n) by {
                    if ready_in(self.graph@, self.retired_set(), n) {
                        assert(ready@.contains(n));
                    }
                }
                if self.pending@.len() > 0 {
                    assert(self.pending_set().contains(self.pending@[0]));
                } else {
                    assert(self.admitted_set().contains(self.admitted@[0]));
                }
            }
            None
        }
    }

    /// Retires an admitted node; any other node leaves the coordinator as it is.
    pub fn processed_value(&mut self, node_id: AttributeValueId)
        requires
            old(self).wf(),
        ensures
            final(self).wf(),
            final(self).graph_view() == old(self).graph_view(),
            final(self).pending_set() == old(self).pending_set(),
            final(self).pending_count() == old(self).pending_count(),
            old(self).admitted_set().contains(node_id) ==> final(self).admitted_set() == old(self).admitted_set().remove(node_id)
                && final(self).retired_set() == old(self).retired_set().insert(node_id),
            !old(self).admitted_set().contains(node_id) ==> final(self).admitted_set() == old(self).admitted_set()
                && final(self).retired_set() == old(self).retired_set(),
    {
        let one = vec![node_id];
        proof {
            assert(one@.to_set() =~= set![node_id]);
        }
        let moved = move_ids(&mut self.admitted, &mut self.retired, &one);
        proof {
            assert(self.admitted_set() =~= old(self).admitted_set().remove(node_id));
            if old(self).admitted_set().contains(node_id) {
                assert(moved@.to_set() =~= set![node_id]);
                assert(self.retired_set() =~= old(self).retired_set().insert(node_id));
            } else {
                assert(moved@.to_set() =~= Set::empty());
                assert(self.retired_set() =~= old(self).retired_set());
            }
        }
    }
}

} // verus!
