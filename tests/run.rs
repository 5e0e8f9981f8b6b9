use dependent_values::{
    run_locally, AttributeValueKind, AttributeValueMetadata, CouncilRequest, CouncilResponse, CreateOutcome,
    DependencyGraph, DependentValuesUpdateError, FuncBindingError, SessionState, StatusMessageState,
    StatusUpdater, Step, UpdateRun,
};

fn meta(id: u128) -> AttributeValueMetadata {
    AttributeValueMetadata { value_id: id, component_id: Some(900), value_kind: AttributeValueKind::Internal }
}

fn sorted(mut v: Vec<u128>) -> Vec<u128> {
    v.sort();
    v
}

/// A run that has registered its graph and queued every node.
fn admitted_run(graph: DependencyGraph) -> UpdateRun {
    let nodes = graph.referenced_nodes();
    let (status, _) = StatusUpdater::initialize(1);
    let mut run = UpdateRun::new(2, 3, graph, status);
    assert!(matches!(run.wait_to_create_values(), Ok(CouncilRequest::WaitToCreate)));
    assert!(matches!(run.on_create_response(&Some(CouncilResponse::OkToCreate)), Ok(CreateOutcome::Proceed)));
    let (a, b) = run.register().ok().unwrap();
    assert!(matches!(a, CouncilRequest::FinishedCreatingValues));
    assert!(matches!(b, CouncilRequest::RegisterGraph(_)));
    let metadata: Vec<AttributeValueMetadata> = nodes.iter().map(|n| meta(*n)).collect();
    assert_eq!(sorted(run.nodes_to_classify()), sorted(nodes.clone()));
    run.queue(&metadata);
    run
}

#[test]
fn one_root_two_dependents_in_two_batches() {
    let mut g = DependencyGraph::new();
    g.insert(20, &vec![10]);
    g.insert(21, &vec![10]);
    let metadata = vec![meta(10), meta(20), meta(21)];
    let batches = run_locally(1, 2, 3, g, &metadata).ok().unwrap();
    assert_eq!(batches.len(), 2);
    assert_eq!(batches[0], vec![10]);
    assert_eq!(sorted(batches[1].clone()), vec![20, 21]);
    let total: usize = batches.iter().map(|b| b.len()).sum();
    assert_eq!(total, 3);
}

#[test]
fn chain_completes_each_node_once() {
    let mut g = DependencyGraph::new();
    g.insert(2, &vec![1]);
    g.insert(3, &vec![2, 1]);
    g.insert(4, &vec![3]);
    let metadata = vec![meta(1), meta(2), meta(3), meta(4)];
    let batches = run_locally(1, 2, 3, g, &metadata).ok().unwrap();
    assert_eq!(batches, vec![vec![1], vec![2], vec![3], vec![4]]);
}

#[test]
fn cycle_stalls_and_fails_to_finish() {
    let mut g = DependencyGraph::new();
    g.insert(1, &vec![2]);
    g.insert(2, &vec![1]);
    let metadata = vec![meta(1), meta(2)];
    match run_locally(1, 2, 3, g, &metadata) {
        Err(abort) => {
            assert!(matches!(abort.bye, Some(CouncilRequest::Bye)));
            assert!(matches!(abort.error, DependentValuesUpdateError::StatusUpdater(_)));
        }
        Ok(_) => panic!("a cycle cannot complete"),
    }
}

#[test]
fn empty_graph_needs_no_run() {
    let g = DependencyGraph::new();
    assert!(g.is_empty());
    assert!(g.referenced_nodes().is_empty());
}

#[test]
fn been_processed_for_unknown_node_is_noop() {
    let mut g = DependencyGraph::new();
    g.insert(2, &vec![1]);
    let mut run = admitted_run(g);
    assert!(matches!(run.fetch(), Ok(CouncilRequest::FetchResponse)));
    match run.handle_response(Some(CouncilResponse::BeenProcessed { node_id: 77 })) {
        Ok(Step::Retired { running, completed, touched }) => {
            assert!(running.values.is_empty());
            assert!(completed.values.is_empty());
            assert!(touched.is_empty());
        }
        _ => panic!("an unknown node is not an error"),
    }
    assert!(!run.is_drained());
}

#[test]
fn been_processed_retires_without_computing() {
    let mut g = DependencyGraph::new();
    g.insert(2, &vec![1]);
    let mut run = admitted_run(g);
    run.fetch().ok().unwrap();
    match run.handle_response(Some(CouncilResponse::BeenProcessed { node_id: 2 })) {
        Ok(Step::Retired { completed, touched, .. }) => {
            assert_eq!(completed.status, StatusMessageState::Completed);
            assert_eq!(completed.values[0].value_id, 2);
            assert_eq!(touched, vec![900]);
        }
        _ => panic!("expected a retired node"),
    }
    assert!(run.is_drained());
}

#[test]
fn failed_computation_aborts_and_releases_session() {
    let mut g = DependencyGraph::new();
    g.insert(2, &vec![1]);
    let mut run = admitted_run(g);
    run.fetch().ok().unwrap();
    let ids = match run.handle_response(Some(CouncilResponse::OkToProcess { node_ids: vec![1] })) {
        Ok(Step::Process { node_ids, message }) => {
            assert_eq!(message.status, StatusMessageState::Running);
            node_ids
        }
        _ => panic!("expected work"),
    };
    assert_eq!(ids, vec![1]);
    let failure = FuncBindingError::FuncBackendResultFailure {
        kind: "UserCodeException".to_string(),
        message: "boom".to_string(),
        backend: "JsAttribute".to_string(),
    };
    match run.task_finished(1, Err(failure)) {
        Err(abort) => {
            assert!(matches!(abort.bye, Some(CouncilRequest::Bye)));
            assert!(matches!(abort.error, DependentValuesUpdateError::ValueUpdate(1, _)));
        }
        Ok(_) => panic!("the run must abort"),
    }
    assert_eq!(run.council_state_now(), SessionState::Finished);
    assert!(run.bye().is_none());
}

#[test]
fn ok_to_create_during_admission_is_fatal() {
    let mut g = DependencyGraph::new();
    g.insert(2, &vec![1]);
    let mut run = admitted_run(g);
    run.fetch().ok().unwrap();
    match run.handle_response(Some(CouncilResponse::OkToCreate)) {
        Err(abort) => {
            assert!(matches!(abort.error, DependentValuesUpdateError::UnexpectedCouncilResponse));
            assert!(matches!(abort.bye, Some(CouncilRequest::Bye)));
        }
        Ok(_) => panic!("protocol violation"),
    }
}

#[test]
fn shutdown_while_creating_ends_cleanly() {
    let mut g = DependencyGraph::new();
    g.insert(2, &vec![1]);
    let (status, _) = StatusUpdater::initialize(1);
    let mut run = UpdateRun::new(2, 3, g, status);
    run.wait_to_create_values().ok().unwrap();
    assert!(matches!(run.on_create_response(&Some(CouncilResponse::Shutdown)), Ok(CreateOutcome::Shutdown)));
    assert_eq!(run.council_state_now(), SessionState::ShutDown);
    assert!(matches!(run.register(), Err(DependentValuesUpdateError::Council(dependent_values::CouncilError::OutOfOrder(SessionState::ShutDown)))));
}

#[test]
fn full_run_by_hand_finishes_and_releases() {
    let mut g = DependencyGraph::new();
    g.insert(2, &vec![1]);
    let mut run = admitted_run(g);
    run.fetch().ok().unwrap();
    run.handle_response(Some(CouncilResponse::OkToProcess { node_ids: vec![1] })).ok().unwrap();
    let (msg, _, req) = run.task_finished(1, Ok(())).ok().unwrap();
    assert_eq!(msg.status, StatusMessageState::Completed);
    assert!(matches!(req, CouncilRequest::ProcessedValue(1)));
    run.fetch().ok().unwrap();
    run.handle_response(Some(CouncilResponse::OkToProcess { node_ids: vec![2] })).ok().unwrap();
    run.task_finished(2, Ok(())).ok().unwrap();
    assert!(run.is_drained());
    let (finished, registered, bye) = run.finish().ok().unwrap();
    assert_eq!(finished.status, StatusMessageState::StatusFinished);
    assert_eq!(registered.len(), 1);
    assert_eq!(registered[0].node, 2);
    assert!(matches!(bye, Some(CouncilRequest::Bye)));
}

#[test]
fn dependent_of_seed_only_is_processed() {
    let job = dependent_values::DependentValuesUpdate::new(vec![1]);
    let mut g = DependencyGraph::new();
    g.insert(5, &vec![1]);
    let prepared = job.prepare_graph(g).unwrap();
    let batches = run_locally(1, 2, 3, prepared, &vec![meta(5)]).ok().unwrap();
    assert_eq!(batches, vec![vec![5]]);
}
