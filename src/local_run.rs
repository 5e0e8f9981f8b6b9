use vstd::prelude::*;

use crate::council::{ready_in, Admission, CouncilResponse, SessionState};
use crate::dependent_values_update::{Abort, Step, UpdateRun};
use crate::graph::{referenced, referenced_set, DependencyGraph};
use crate::ids::AttributeValueId;
use crate::status::{ids_of, AttributeValueMetadata, StatusUpdatePk, StatusUpdater};

verus! {

broadcast use {vstd::seq_lib::lemma_seq_concat_contains_all_elements, vstd::seq_lib::lemma_seq_contains_after_push};

/// `rank` puts every dependency strictly below the node that depends on it.
pub open spec fn ranks(g: Map<AttributeValueId, Set<AttributeValueId>>, rank: spec_fn(AttributeValueId) -> nat) -> bool {
    forall|k: AttributeValueId, d: AttributeValueId| #[trigger] g.contains_key(k) && #[trigger] g[k].contains(d) ==> rank(d) < rank(k)
}

/// The graph has no cycle: some ranking puts every dependency below its dependent.
pub open spec fn acyclic(g: Map<AttributeValueId, Set<AttributeValueId>>) -> bool {
    exists|rank: spec_fn(AttributeValueId) -> nat| ranks(g, rank)
}

/// All nodes of the batches, in the order they were handed out.
pub open spec fn flat(batches: Seq<Vec<AttributeValueId>>) -> Seq<AttributeValueId> {
    batches.map_values(|b: Vec<AttributeValueId>| b@).flatten()
}

/// In a graph without cycles, when some referenced nodes are still pending and every other
/// referenced node is retired, one of the pending nodes has all its dependencies retired.
pub proof fn lemma_some_node_ready(
    g: Map<AttributeValueId, Set<AttributeValueId>>,
    pending: Set<AttributeValueId>,
    retired: Set<AttributeValueId>,
    n: AttributeValueId,
)
    requires
        acyclic(g),
        pending.contains(n),
        forall|x: AttributeValueId| referenced(g, x) ==> pending.contains(x) || retired.contains(x),
    ensures
        exists|m: AttributeValueId| pending.contains(m) && ready_in(g, retired, m),
{
    let rank = choose|rank: spec_fn(AttributeValueId) -> nat| ranks(g, rank);
    lemma_ready_below(g, rank, pending, retired, n);
}

proof fn lemma_ready_below(
    g: Map<AttributeValueId, Set<AttributeValueId>>,
    rank: spec_fn(AttributeValueId) -> nat,
    pending: Set<AttributeValueId>,
    retired: Set<AttributeValueId>,
    n: AttributeValueId,
)
    requires
        ranks(g, rank),
        pending.contains(n),
        forall|x: AttributeValueId| referenced(g, x) ==> pending.contains(x) || retired.contains(x),
    ensures
        exists|m: AttributeValueId| pending.contains(m) && ready_in(g, retired, m),
    decreases rank(n),
{
    if !ready_in(g, retired, n) {
        let d = choose|d: AttributeValueId| g[n].contains(d) && !retired.contains(d);
        assert(referenced(g, d));
        assert(rank(d) < rank(n));
        lemma_ready_below(g, rank, pending, retired, d);
    }
}

/// Runs a job over `graph` against an in-process coordinator, with every computation
/// succeeding, and gives back the batches in which the nodes were handed out.
///
/// When the graph has no cycle the run ends in success, and every node that the graph refers
/// to was handed out, and completed, exactly once.
pub fn run_locally(
    pk: StatusUpdatePk,
    run_id: u128,
    scope_id: u128,
    graph: DependencyGraph,
    metadata: &Vec<AttributeValueMetadata>,
) -> (r: Result<Vec<Vec<AttributeValueId>>, Abort>)
    requires
        graph.wf(),
        ids_of(metadata@) == referenced_set(graph@),
    ensures
        acyclic(graph@) ==> r is Ok,
        r matches Ok(batches) ==> flat(batches@).no_duplicates() && flat(batches@).to_set() == referenced_set(graph@),
{
    let ghost g = graph@;
    let ghost t = referenced_set(g);
    let (status, _started) = StatusUpdater::initialize(pk);
    let mut admission = Admission::register(graph.copy());
    let mut run = UpdateRun::new(run_id, scope_id, graph, status);
    let _ = run.wait_to_create_values();
    let _ = run.on_create_response(&Some(CouncilResponse::OkToCreate));
    let _ = run.register();
    let _ = run.queue(metadata);
    proof {
        admission.lemma_pending_count();
        assert(run.status_view().queued_set() =~= t);
        assert(run.graph_view() =~= g.remove_keys(admission.retired_set()));
    }
    let mut batches: Vec<Vec<AttributeValueId>> = Vec::new();
    let mut stopped = false;
    proof {
        assert(flat(batches@) =~= Seq::<AttributeValueId>::empty());
        assert(flat(batches@).to_set() =~= Set::<AttributeValueId>::empty());
    }
    while !stopped && !run.is_drained()
        invariant
            run.wf(),
            admission.wf(),
            admission.graph_view() == g,
            t == referenced_set(g),
            admission.admitted_set() == Set::<AttributeValueId>::empty(),
            admission.pending_set().union(admission.retired_set()) == t,
            admission.pending_count() == admission.pending_set().len(),
            run.status_view().queued_set() == admission.pending_set(),
            run.status_view().running_set() == Set::<AttributeValueId>::empty(),
            run.status_view().completed_set() == admission.retired_set(),
            run.graph_view() == g.remove_keys(admission.retired_set()),
            forall|k: AttributeValueId| #[trigger] g.contains_key(k) && admission.retired_set().contains(k)
                ==> g[k].subset_of(admission.retired_set()),
            !stopped ==> (run.council_state() == SessionState::Registered || run.council_state() == SessionState::Admitting),
            flat(batches@).no_duplicates(),
            flat(batches@).to_set() == admission.retired_set(),
            stopped ==> admission.pending_set() == Set::<AttributeValueId>::empty() || !acyclic(g),
        decreases admission.pending_count() * 2 + if stopped { 0nat } else { 1nat },
    {
        let _ = run.fetch();
        let ghost pending_before = admission.pending_set();
        let ghost retired_before = admission.retired_set();
        let ghost count_before = admission.pending_count();
        let response = admission.next_response();
        let ghost resp = response;
        proof {
            admission.lemma_pending_count();
            if response is None && acyclic(g) {
                if forall|n: AttributeValueId| !pending_before.contains(n) {
                    assert(pending_before =~= Set::<AttributeValueId>::empty());
                }
                let n = choose|n: AttributeValueId| pending_before.contains(n);
                assert forall|x: AttributeValueId| referenced(g, x) implies pending_before.contains(x) || retired_before.contains(x) by {
                    assert(t.contains(x));
                }
                lemma_some_node_ready(g, pending_before, retired_before, n);
            }
        }
        match run.handle_response(response) {
            Ok(Step::Process { node_ids, message: _ }) => {
                let ghost ids = node_ids@.to_set();
                proof {
                    assert(ids =~= pending_before.intersect(ids));
                    assert(node_ids@.subrange(0, node_ids@.len() as int) =~= node_ids@);
                    assert(node_ids@.subrange(0, 0).to_set() =~= Set::<AttributeValueId>::empty());
                    assert(retired_before.union(Set::<AttributeValueId>::empty()) =~= retired_before);
                    match resp {
                        Some(CouncilResponse::OkToProcess { node_ids: a }) => {
                            assert(a@.to_set().subset_of(pending_before));
                            assert(ids =~= a@.to_set());
                            assert(admission.admitted_set() =~= ids);
                        },
                        _ => {},
                    }
                }
                let mut i: usize = 0;
                while i < node_ids.len()
                    invariant
                        run.wf(),
                        admission.wf(),
                        admission.graph_view() == g,
                        node_ids@.no_duplicates(),
                        0 <= i <= node_ids@.len(),
                        admission.admitted_set() == node_ids@.subrange(i as int, node_ids@.len() as int).to_set(),
                        admission.pending_set() == pending_before.difference(ids),
                        admission.pending_count() < count_before,
                        admission.pending_count() == admission.pending_set().len(),
                        admission.retired_set() == retired_before.union(node_ids@.subrange(0, i as int).to_set()),
                        ids.subset_of(pending_before),
                        pending_before.disjoint(retired_before),
                        forall|x: AttributeValueId| ids.contains(x) ==> ready_in(g, retired_before, x),
                        run.status_view().queued_set() == admission.pending_set(),
                        run.status_view().running_set() == admission.admitted_set(),
                        run.status_view().completed_set() == admission.retired_set(),
                        run.graph_view() == g.remove_keys(retired_before.union(ids)),
                        run.council_state() == SessionState::Admitting,
                    decreases node_ids@.len() - i,
                {
                    let id = node_ids[i];
                    proof {
                        let rest = node_ids@.subrange(i as int, node_ids@.len() as int);
                        let rest2 = node_ids@.subrange(i + 1, node_ids@.len() as int);
                        assert(rest[0] == id);
                        assert(rest.to_set().contains(id));
                        assert(rest2.to_set() =~= rest.to_set().remove(id)) by {
                            assert forall|x: AttributeValueId| rest.contains(x) && x != id implies rest2.contains(x) by {
                                let j = choose|j: int| 0 <= j < rest.len() && rest[j] == x;
                                assert(j != 0);
                                assert(rest2[j - 1] == x);
                            }
                            assert forall|x: AttributeValueId| rest2.contains(x) implies x != id && rest.contains(x) by {
                                let j = choose|j: int| 0 <= j < rest2.len() && rest2[j] == x;
                                assert(node_ids@[i + 1 + j] == x);
                                assert(rest[j + 1] == x);
                            }
                        }
                        assert(node_ids@.subrange(0, i + 1) =~= node_ids@.subrange(0, i as int).push(id));
                        assert(node_ids@.subrange(0, i + 1).to_set() =~= node_ids@.subrange(0, i as int).to_set().insert(id));
                    }
                    let _ = run.task_finished(id, Ok(()));
                    admission.processed_value(id);
                    proof {
                        assert(admission.retired_set() =~= retired_before.union(node_ids@.subrange(0, i + 1).to_set()));
                    }
                    i = i + 1;
                }
                proof {
                    assert(node_ids@.subrange(0, i as int) =~= node_ids@);
                    assert(node_ids@.subrange(i as int, node_ids@.len() as int).to_set() =~= Set::<AttributeValueId>::empty());
                    let new_retired = admission.retired_set();
                    assert(new_retired =~= retired_before.union(ids));
                    assert(admission.pending_set().union(new_retired) =~= t);
                    assert(run.status_view().running_set() =~= Set::<AttributeValueId>::empty());
                    assert forall|k: AttributeValueId| #[trigger] g.contains_key(k) && new_retired.contains(k)
                        implies g[k].subset_of(new_retired) by {
                        if ids.contains(k) {
                            assert(ready_in(g, retired_before, k));
                        }
                    }
                    let old_flat = flat(batches@);
                    assert(batches@.push(node_ids).map_values(|b: Vec<AttributeValueId>| b@)
                        =~= batches@.map_values(|b: Vec<AttributeValueId>| b@).push(node_ids@));
                    batches@.map_values(|b: Vec<AttributeValueId>| b@).lemma_flatten_push(node_ids@);
                    assert(flat(batches@.push(node_ids)) =~= old_flat + node_ids@);
                    assert(old_flat.to_set().disjoint(ids));
                    assert forall|a: int, b: int| 0 <= a < old_flat.len() && 0 <= b < node_ids@.len() implies old_flat[a] != node_ids@[b] by {
                        assert(old_flat.to_set().contains(old_flat[a]));
                        assert(ids.contains(node_ids@[b]));
                    }
                    vstd::seq_lib::lemma_no_dup_in_concat(old_flat, node_ids@);
                    assert((old_flat + node_ids@).to_set() =~= new_retired);
                }
                batches.push(node_ids);
            },
            Ok(Step::Retired { .. }) => {
                // The in-process coordinator never reports work done by a peer.
                proof {
                    assert(false);
                }
            },
            Ok(Step::Stop) => {
                stopped = true;
            },
            Err(a) => {
                return Err(a);
            },
        }
    }
    proof {
        admission.lemma_pending_count();
        if acyclic(g) && !stopped {
            assert forall|n: AttributeValueId| !admission.pending_set().contains(n) by {
                if admission.pending_set().contains(n) {
                    assert(t.contains(n));
                    assert(!admission.retired_set().contains(n));
                    if g.contains_key(n) {
                        assert(g.remove_keys(admission.retired_set()).contains_key(n));
                    } else {
                        let k = choose|k: AttributeValueId| #[trigger] g.contains_key(k) && g[k].contains(n);
                        if !admission.retired_set().contains(k) {
                            assert(g.remove_keys(admission.retired_set()).contains_key(k));
                        }
                    }
                }
            }
        }
        assert(run.status_view().queued_set().union(run.status_view().running_set()) =~= admission.pending_set());
        if acyclic(g) {
            assert(admission.pending_set() =~= Set::<AttributeValueId>::empty());
        }
    }
    match run.finish() {
        Ok(_) => {
            proof {
                assert(admission.pending_set() =~= Set::<AttributeValueId>::empty());
                assert(admission.retired_set() =~= t);
            }
            Ok(batches)
        },
        Err(a) => Err(a),
    }
}

} // verus!
