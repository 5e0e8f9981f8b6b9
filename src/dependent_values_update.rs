use vstd::prelude::*;

use crate::council::{CouncilError, CouncilRequest, CouncilResponse, CouncilSession, CreateOutcome, SessionState};
use crate::func_binding::FuncBindingError;
use crate::graph::{pruned, referenced_set, DependencyGraph, GraphEntry};
use crate::ids::{parse_id, ulid_value, AttributeValueId, ComponentId};
use crate::status::{
    ids_of, AttributeValueMetadata, StatusMessage, StatusMessageState, StatusUpdater, StatusUpdaterError,
};

verus! {

broadcast use vstd::seq_lib::lemma_seq_contains_after_push;

/// Why a run ended in failure.
#[derive(Debug)]
pub enum DependentValuesUpdateError {
    /// A protocol step was taken out of order.
    Council(CouncilError),
    /// The coordinator sent a response that the admission phase does not expect.
    UnexpectedCouncilResponse,
    /// The run's ledger could not be closed.
    StatusUpdater(StatusUpdaterError),
    /// The computation of a node failed.
    ValueUpdate(AttributeValueId, FuncBindingError),
    /// The job's identifier is not a valid run id.
    InvalidRunId,
}

/// A failed run: the error, and the release of the session that is owed, if any.
#[derive(Debug)]
pub struct Abort {
    pub error: DependentValuesUpdateError,
    pub bye: Option<CouncilRequest>,
}

/// What the driver does after one response.
#[derive(Debug)]
pub enum Step {
    /// Compute these nodes, each in a task of its own, then fetch again.
    Process { node_ids: Vec<AttributeValueId>, message: StatusMessage },
    /// A peer computed the node; nothing is to be computed. Fetch again.
    Retired { running: StatusMessage, completed: StatusMessage, touched: Vec<ComponentId> },
    /// The session ended: leave the loop.
    Stop,
}

/// The job: recompute every value that depends on the changed ones.
#[derive(Debug)]
pub struct DependentValuesUpdate {
    attribute_values: Vec<AttributeValueId>,
}

impl DependentValuesUpdate {
    pub closed spec fn spec_attribute_values(&self) -> Seq<AttributeValueId> {
        self.attribute_values@
    }

    pub fn new(attribute_values: Vec<AttributeValueId>) -> (r: Self)
        ensures
            r.spec_attribute_values() == attribute_values@,
    {
        DependentValuesUpdate { attribute_values }
    }

    /// The changed values that seed the run.
    pub fn attribute_values(&self) -> (r: &Vec<AttributeValueId>)
        ensures
            r@ == self.spec_attribute_values(),
    {
        &self.attribute_values
    }

    /// The run id carried by the job's identifier.
    pub fn run_id(job_id: &str) -> (r: Result<u128, DependentValuesUpdateError>)
        ensures
            match ulid_value(job_id@) {
                Some(v) => r matches Ok(id) && id == v,
                None => r matches Err(DependentValuesUpdateError::InvalidRunId),
            },
    {
        match parse_id(job_id) {
            Some(v) => Ok(v),
            None => Err(DependentValuesUpdateError::InvalidRunId),
        }
    }

    /// Turns the expanded graph into the graph of the run: the seed values count as already
    /// updated, so they leave every dependency list and are not processed again; a node left
    /// with nothing to wait for stays, to be processed first. `None` means the run has no node
    /// to process and returns at once, before any session is opened.
    pub fn prepare_graph(&self, mut graph: DependencyGraph) -> (r: Option<DependencyGraph>)
        requires
            graph.wf(),
        ensures
            r is None <==> pruned(graph@, self.spec_attribute_values().to_set())
                == Map::<AttributeValueId, Set<AttributeValueId>>::empty(),
            r is None ==> referenced_set(pruned(graph@, self.spec_attribute_values().to_set()))
                == Set::<AttributeValueId>::empty(),
            r matches Some(g) ==> g.wf() && g@ == pruned(graph@, self.spec_attribute_values().to_set()),
    {
        graph.remove_satisfied(&self.attribute_values);
        if graph.is_empty() {
            assert(referenced_set(graph@) =~= Set::<AttributeValueId>::empty());
            None
        } else {
            Some(graph)
        }
    }
}

/// Retiring a node that the local graph does not hold leaves the graph as it is.
pub proof fn lemma_retire_absent(g: Map<AttributeValueId, Set<AttributeValueId>>, node_id: AttributeValueId)
    requires
        !g.contains_key(node_id),
    ensures
        g.remove(node_id) == g,
{
    assert(g.remove(node_id) =~= g);
}

/// One run in progress: the session, the local graph that shrinks as nodes are admitted, and
/// the ledger.
pub struct UpdateRun {
    council: CouncilSession,
    graph: DependencyGraph,
    registered: Vec<GraphEntry>,
    initial: Ghost<Map<AttributeValueId, Set<AttributeValueId>>>,
    status: StatusUpdater,
}

/// Whether `entries` lists exactly the nodes of `g`, each with its dependencies.
pub open spec fn describes(entries: Seq<GraphEntry>, g: Map<AttributeValueId, Set<AttributeValueId>>) -> bool {
    &&& entries.len() == g.dom().len()
    &&& forall|i: int| 0 <= i < entries.len() ==> g.contains_key(#[trigger] entries[i].node)
        && entries[i].dependencies@.to_set() == g[entries[i].node]
    &&& forall|k: AttributeValueId| #[trigger] g.contains_key(k) ==> exists|i: int| 0 <= i < entries.len() && entries[i].node == k
}

impl UpdateRun {
    pub closed spec fn graph_view(&self) -> Map<AttributeValueId, Set<AttributeValueId>> {
        self.graph@
    }

    pub closed spec fn council_state(&self) -> SessionState {
        self.council.spec_state()
    }

    pub closed spec fn status_view(&self) -> StatusUpdater {
        self.status
    }

    /// The graph as it was when the run opened.
    pub closed spec fn initial_view(&self) -> Map<AttributeValueId, Set<AttributeValueId>> {
        self.initial@
    }

    pub closed spec fn wf(&self) -> bool {
        self.graph.wf() && self.status.wf() && describes(self.registered@, self.initial@)
    }

    /// Opens a run over `graph` with the ledger `status`; the session is keyed by run and scope.
    pub fn new(run_id: u128, scope_id: u128, graph: DependencyGraph, status: StatusUpdater) -> (r: Self)
        requires
            graph.wf(),
            status.wf(),
        ensures
            r.wf(),
            r.graph_view() == graph@,
            r.initial_view() == graph@,
            r.council_state() == SessionState::Connecting,
            r.status_view() == status,
    {
        let registered = graph.entries();
        let ghost initial = graph@;
        UpdateRun { council: CouncilSession::new(run_id, scope_id), graph, registered, initial: Ghost(initial), status }
    }

    pub fn status(&self) -> (r: &StatusUpdater)
        ensures
            *r == self.status_view(),
    {
        &self.status
    }

    pub fn council_state_now(&self) -> (r: SessionState)
        ensures
            r == self.council_state(),
    {
        self.council.state()
    }

    /// Whether the local graph has no node left.
    pub fn is_drained(&self) -> (r: bool)
        requires
            self.wf(),
        ensures
            r == (self.graph_view() == Map::<AttributeValueId, Set<AttributeValueId>>::empty()),
    {
        self.graph.is_empty()
    }

    fn abort(&mut self, error: DependentValuesUpdateError) -> (r: Abort)
        ensures
            old(self).wf() ==> final(self).wf(),
            final(self).initial_view() == old(self).initial_view(),
            final(self).council_state() == SessionState::Finished,
            final(self).graph_view() == old(self).graph_view(),
            final(self).status_view() == old(self).status_view(),
            old(self).council_state() != SessionState::Finished <==> r.bye matches Some(CouncilRequest::Bye),
            r.error == error,
    {
        let bye = self.council.bye();
        Abort { error, bye }
    }

    /// Asks for permission to create the run's values.
    pub fn wait_to_create_values(&mut self) -> (r: Result<CouncilRequest, DependentValuesUpdateError>)
        ensures
            final(self).wf() == old(self).wf(),
            final(self).initial_view() == old(self).initial_view(),
            final(self).graph_view() == old(self).graph_view(),
            final(self).status_view() == old(self).status_view(),
            old(self).council_state() == SessionState::Connecting ==> (r matches Ok(CouncilRequest::WaitToCreate)
                && final(self).council_state() == SessionState::WaitingToCreate),
            old(self).council_state() != SessionState::Connecting ==> r is Err,
    {
        match self.council.wait_to_create_values() {
            Ok(req) => Ok(req),
            Err(e) => Err(DependentValuesUpdateError::Council(e)),
        }
    }

    /// Takes the answer to the wait. A shutdown means another participant has the work: the
    /// run ends cleanly.
    pub fn on_create_response(&mut self, response: &Option<CouncilResponse>) -> (r: Result<CreateOutcome, DependentValuesUpdateError>)
        ensures
            final(self).wf() == old(self).wf(),
            final(self).initial_view() == old(self).initial_view(),
            final(self).graph_view() == old(self).graph_view(),
            final(self).status_view() == old(self).status_view(),
            old(self).council_state() == SessionState::WaitingToCreate ==> match response {
                Some(CouncilResponse::OkToCreate) => r matches Ok(CreateOutcome::Proceed)
                    && final(self).council_state() == SessionState::Creating,
                Some(CouncilResponse::Shutdown) | None => r matches Ok(CreateOutcome::Shutdown)
                    && final(self).council_state() == SessionState::ShutDown,
                Some(_) => r matches Err(DependentValuesUpdateError::Council(CouncilError::UnexpectedResponse)),
            },
            old(self).council_state() != SessionState::WaitingToCreate ==> r is Err,
    {
        match self.council.on_create_response(response) {
            Ok(o) => Ok(o),
            Err(e) => Err(DependentValuesUpdateError::Council(e)),
        }
    }

    /// Once the values exist: tells the coordinator so and registers the run's graph, whole.
    pub fn register(&mut self) -> (r: Result<(CouncilRequest, CouncilRequest), DependentValuesUpdateError>)
        requires
            old(self).wf(),
        ensures
            final(self).wf(),
            final(self).initial_view() == old(self).initial_view(),
            final(self).graph_view() == old(self).graph_view(),
            final(self).status_view() == old(self).status_view(),
            old(self).council_state() == SessionState::Creating ==> final(self).council_state() == SessionState::Registered,
            old(self).council_state() == SessionState::Creating ==> (r matches Ok((a, b))
                && a is FinishedCreatingValues
                && (b matches CouncilRequest::RegisterGraph(entries) && describes(entries@, old(self).graph_view()))),
            old(self).council_state() != SessionState::Creating ==> r is Err,
    {
        let first = match self.council.finished_creating_values() {
            Ok(req) => req,
            Err(e) => return Err(DependentValuesUpdateError::Council(e)),
        };
        match self.council.register_dependency_graph(&self.graph) {
            Ok(req) => Ok((first, req)),
            Err(e) => Err(DependentValuesUpdateError::Council(e)),
        }
    }

    /// The nodes of the graph that the ledger has not classified yet.
    pub fn nodes_to_classify(&self) -> (r: Vec<AttributeValueId>)
        requires
            self.wf(),
        ensures
            r@.no_duplicates(),
            r@.to_set() == referenced_set(self.graph_view()).difference(self.status_view().classified()),
    {
        let nodes = self.graph.referenced_nodes();
        self.status.unclassified(&nodes)
    }

    /// Queues the classified nodes.
    pub fn queue(&mut self, metadata: &Vec<AttributeValueMetadata>) -> (r: StatusMessage)
        requires
            old(self).wf(),
        ensures
            final(self).wf(),
            final(self).initial_view() == old(self).initial_view(),
            final(self).graph_view() == old(self).graph_view(),
            final(self).council_state() == old(self).council_state(),
            final(self).status_view().queued_set() == old(self).status_view().queued_set().union(
                ids_of(metadata@).difference(old(self).status_view().classified()),
            ),
            final(self).status_view().running_set() == old(self).status_view().running_set(),
            final(self).status_view().completed_set() == old(self).status_view().completed_set(),
            r.status == StatusMessageState::Queued,
            ids_of(r.values@) == ids_of(metadata@).difference(old(self).status_view().classified()),
    {
        self.status.values_queued(metadata)
    }

    /// Polls for the next event.
    pub fn fetch(&mut self) -> (r: Result<CouncilRequest, DependentValuesUpdateError>)
        ensures
            final(self).wf() == old(self).wf(),
            final(self).initial_view() == old(self).initial_view(),
            final(self).graph_view() == old(self).graph_view(),
            final(self).status_view() == old(self).status_view(),
            (old(self).council_state() == SessionState::Registered || old(self).council_state() == SessionState::Admitting)
                ==> (r matches Ok(CouncilRequest::FetchResponse) && final(self).council_state() == SessionState::Admitting),
            !(old(self).council_state() == SessionState::Registered || old(self).council_state() == SessionState::Admitting)
                ==> r is Err,
    {
        match self.council.fetch_response() {
            Ok(req) => Ok(req),
            Err(e) => Err(DependentValuesUpdateError::Council(e)),
        }
    }

    fn remove_all(&mut self, ids: &Vec<AttributeValueId>)
        requires
            old(self).wf(),
        ensures
            final(self).wf(),
            final(self).initial_view() == old(self).initial_view(),
            final(self).graph_view() == old(self).graph_view().remove_keys(ids@.to_set()),
            final(self).status_view() == old(self).status_view(),
            final(self).council_state() == old(self).council_state(),
    {
        let mut i: usize = 0;
        while i < ids.len()
            invariant
                self.wf(),
                0 <= i <= ids@.len(),
                self.graph@ == old(self).graph@.remove_keys(ids@.subrange(0, i as int).to_set()),
                self.status == old(self).status,
                self.council == old(self).council,
                self.initial == old(self).initial,
            decreases ids@.len() - i,
        {
            self.graph.remove(ids[i]);
            proof {
                assert(ids@.subrange(0, i + 1) =~= ids@.subrange(0, i as int).push(ids@[i as int]));
                assert(ids@.subrange(0, i + 1).to_set() =~= ids@.subrange(0, i as int).to_set().insert(ids@[i as int]));
                assert(self.graph@ =~= old(self).graph@.remove_keys(ids@.subrange(0, i + 1).to_set()));
            }
            i = i + 1;
        }
        proof {
            assert(ids@.subrange(0, ids@.len() as int) =~= ids@);
        }
    }

    /// Handles one response of the coordinator during admission.
    /// - `OkToProcess`: the nodes leave the local graph; those that were queued start running
    ///   and are handed out for computation.
    /// - `BeenProcessed`: the node leaves the local graph and, if it was queued, goes through
    ///   running to completed with nothing computed; a node the run does not know changes
    ///   nothing.
    /// - `Shutdown`, or no response at all: the loop ends.
    /// - `OkToCreate`: a protocol violation; the run aborts and releases its session.
    pub fn handle_response(&mut self, response: Option<CouncilResponse>) -> (r: Result<Step, Abort>)
        requires
            old(self).wf(),
        ensures
            final(self).wf(),
            final(self).initial_view() == old(self).initial_view(),
            match response {
                Some(CouncilResponse::OkToProcess { node_ids }) => r matches Ok(Step::Process { node_ids: out, message })
                    && out@.no_duplicates()
                    && out@.to_set() == old(self).status_view().queued_set().intersect(node_ids@.to_set())
                    && ids_of(message.values@) == out@.to_set()
                    && message.status == StatusMessageState::Running
                    && final(self).graph_view() == old(self).graph_view().remove_keys(node_ids@.to_set())
                    && final(self).status_view().queued_set() == old(self).status_view().queued_set().difference(node_ids@.to_set())
                    && final(self).status_view().running_set() == old(self).status_view().running_set().union(out@.to_set())
                    && final(self).status_view().completed_set() == old(self).status_view().completed_set()
                    && final(self).status_view().classified() == old(self).status_view().classified()
                    && final(self).council_state() == old(self).council_state(),
                Some(CouncilResponse::BeenProcessed { node_id }) => r matches Ok(Step::Retired { running, completed, touched })
                    && final(self).graph_view() == old(self).graph_view().remove(node_id)
                    && final(self).status_view().queued_set() == old(self).status_view().queued_set().remove(node_id)
                    && final(self).status_view().running_set() == old(self).status_view().running_set().remove(node_id)
                    && (old(self).status_view().queued_set().contains(node_id) || old(self).status_view().running_set().contains(node_id)
                        ==> final(self).status_view().completed_set() == old(self).status_view().completed_set().insert(node_id))
                    && (!old(self).status_view().queued_set().contains(node_id) && !old(self).status_view().running_set().contains(node_id)
                        ==> final(self).status_view().completed_set() == old(self).status_view().completed_set())
                    && final(self).status_view().classified() == old(self).status_view().classified()
                    && final(self).council_state() == old(self).council_state(),
                Some(CouncilResponse::Shutdown) => r matches Ok(Step::Stop)
                    && final(self).graph_view() == old(self).graph_view()
                    && final(self).status_view() == old(self).status_view()
                    && (old(self).council_state() != SessionState::Finished ==> final(self).council_state() == SessionState::ShutDown),
                None => r matches Ok(Step::Stop)
                    && final(self).graph_view() == old(self).graph_view()
                    && final(self).status_view() == old(self).status_view()
                    && final(self).council_state() == old(self).council_state(),
                Some(CouncilResponse::OkToCreate) => r matches Err(a)
                    && a.error is UnexpectedCouncilResponse
                    && (old(self).council_state() != SessionState::Finished <==> a.bye matches Some(CouncilRequest::Bye))
                    && final(self).council_state() == SessionState::Finished
                    && final(self).graph_view() == old(self).graph_view()
                    && final(self).status_view() == old(self).status_view(),
            },
    {
        match response {
            Some(CouncilResponse::OkToProcess { node_ids }) => {
                self.remove_all(&node_ids);
                let ghost before = self.status;
                let message = self.status.values_running(&node_ids);
                let out = crate::ids::dedup_ids(&status_ids(&message.values));
                proof {
                    assert(out@.to_set() =~= ids_of(message.values@));
                }
                Ok(Step::Process { node_ids: out, message })
            },
            Some(CouncilResponse::BeenProcessed { node_id }) => {
                self.graph.remove(node_id);
                let one = vec![node_id];
                proof {
                    assert(one@.to_set() =~= set![node_id]);
                }
                let running = self.status.values_running(&one);
                let (completed, touched) = self.status.values_completed(&one);
                proof {
                    let o = old(self).status;
                    assert(self.status.queued_set() =~= o.queued_set().remove(node_id));
                    assert(self.status.running_set() =~= o.running_set().remove(node_id));
                    if o.queued_set().contains(node_id) || o.running_set().contains(node_id) {
                        assert(self.status.completed_set() =~= o.completed_set().insert(node_id));
                    } else {
                        assert(self.status.completed_set() =~= o.completed_set());
                    }
                }
                Ok(Step::Retired { running, completed, touched })
            },
            Some(CouncilResponse::Shutdown) => {
                self.council.shut_down();
                Ok(Step::Stop)
            },
            None => Ok(Step::Stop),
            Some(CouncilResponse::OkToCreate) => Err(self.abort(DependentValuesUpdateError::UnexpectedCouncilResponse)),
        }
    }

    /// Takes the outcome of one node's computation. On success the node completes, and the
    /// coordinator is told; the owners whose freshness marker is due come back too. On failure
    /// the whole run aborts and releases its session.
    pub fn task_finished(&mut self, node_id: AttributeValueId, outcome: Result<(), FuncBindingError>)
        -> (r: Result<(StatusMessage, Vec<ComponentId>, CouncilRequest), Abort>)
        requires
            old(self).wf(),
        ensures
            final(self).wf(),
            final(self).initial_view() == old(self).initial_view(),
            final(self).graph_view() == old(self).graph_view(),
            match outcome {
                Ok(_) => r matches Ok((message, _touched, request))
                    && message.status == StatusMessageState::Completed
                    && request == CouncilRequest::ProcessedValue(node_id)
                    && final(self).status_view().queued_set() == old(self).status_view().queued_set()
                    && final(self).status_view().running_set() == old(self).status_view().running_set().remove(node_id)
                    && (old(self).status_view().running_set().contains(node_id)
                        ==> final(self).status_view().completed_set() == old(self).status_view().completed_set().insert(node_id))
                    && (!old(self).status_view().running_set().contains(node_id)
                        ==> final(self).status_view().completed_set() == old(self).status_view().completed_set())
                    && final(self).status_view().classified() == old(self).status_view().classified()
                    && final(self).council_state() == old(self).council_state(),
                Err(e) => r matches Err(a)
                    && a.error == DependentValuesUpdateError::ValueUpdate(node_id, e)
                    && (old(self).council_state() != SessionState::Finished <==> a.bye matches Some(CouncilRequest::Bye))
                    && final(self).council_state() == SessionState::Finished
                    && final(self).status_view() == old(self).status_view(),
            },
    {
        match outcome {
            Ok(()) => {
                let one = vec![node_id];
                proof {
                    assert(one@.to_set() =~= set![node_id]);
                }
                let (message, touched) = self.status.values_completed(&one);
                proof {
                    let o = old(self).status;
                    assert(self.status.running_set() =~= o.running_set().remove(node_id));
                    if o.running_set().contains(node_id) {
                        assert(self.status.completed_set() =~= o.completed_set().insert(node_id));
                    } else {
                        assert(self.status.completed_set() =~= o.completed_set());
                    }
                }
                Ok((message, touched, CouncilRequest::ProcessedValue(node_id)))
            },
            Err(e) => Err(self.abort(DependentValuesUpdateError::ValueUpdate(node_id, e))),
        }
    }

    /// Ends the run once the loop is left: closes the ledger, which fails while a node is
    /// still queued or running; hands back the graph as it was registered, for deferred work;
    /// and releases the session.
    pub fn finish(self) -> (r: Result<(StatusMessage, Vec<GraphEntry>, Option<CouncilRequest>), Abort>)
        requires
            self.wf(),
        ensures
            r is Err <==> self.status_view().queued_set().union(self.status_view().running_set())
                != Set::<AttributeValueId>::empty(),
            match r {
                Ok((message, registered, bye)) => message.status == StatusMessageState::StatusFinished
                    && describes(registered@, self.initial_view())
                    && (self.council_state() != SessionState::Finished <==> bye matches Some(CouncilRequest::Bye)),
                Err(a) => (a.error matches DependentValuesUpdateError::StatusUpdater(StatusUpdaterError::UnprocessedValuesRemaining(ids))
                    && ids@.to_set() == self.status_view().queued_set().union(self.status_view().running_set()))
                    && (self.council_state() != SessionState::Finished <==> a.bye matches Some(CouncilRequest::Bye)),
            },
    {
        let UpdateRun { mut council, graph: _, registered, initial: _, status } = self;
        let bye = council.bye();
        match status.finish() {
            Ok(message) => Ok((message, registered, bye)),
            Err(e) => Err(Abort { error: DependentValuesUpdateError::StatusUpdater(e), bye }),
        }
    }

    /// Releases the session, when the driver leaves early; nothing is sent twice.
    pub fn bye(&mut self) -> (r: Option<CouncilRequest>)
        ensures
            final(self).wf() == old(self).wf(),
            final(self).initial_view() == old(self).initial_view(),
            final(self).council_state() == SessionState::Finished,
            final(self).graph_view() == old(self).graph_view(),
            final(self).status_view() == old(self).status_view(),
            old(self).council_state() != SessionState::Finished <==> r matches Some(CouncilRequest::Bye),
            r is None || r matches Some(CouncilRequest::Bye),
    {
        self.council.bye()
    }
}

fn status_ids(values: &Vec<AttributeValueMetadata>) -> (r: Vec<AttributeValueId>)
    ensures
        r@.to_set() == ids_of(values@),
{
    let mut out: Vec<AttributeValueId> = Vec::new();
    let mut i: usize = 0;
    while i < values.len()
        invariant
            0 <= i <= values@.len(),
            out@.len() == i,
            forall|j: int| 0 <= j < i ==> out@[j] == (#[trigger] values@[j]).value_id,
        decreases values@.len() - i,
    {
        out.push(values[i].value_id);
        i = i + 1;
    }
    proof {
        assert forall|id: AttributeValueId| out@.to_set().contains(id) <==> ids_of(values@).contains(id) by {
            if out@.to_set().contains(id) {
                let j = choose|j: int| 0 <= j < out@.len() && out@[j] == id;
                assert(values@[j].value_id == id);
            }
            if ids_of(values@).contains(id) {
                let j = choose|j: int| 0 <= j < values@.len() && (#[trigger] values@[j]).value_id == id;
                assert(out@[j] == id);
            }
        }
        assert(out@.to_set() =~= ids_of(values@));
    }
    out
}

} // verus!
