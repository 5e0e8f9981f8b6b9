use dependent_values::{
    Admission, CouncilError, CouncilRequest, CouncilResponse, CouncilSession, CreateOutcome, DependencyGraph,
    DependentValuesUpdate, DependentValuesUpdateError, PkgNode, SessionState, Connection, EdgeKind, Vertex,
};

#[test]
fn session_follows_protocol_order() {
    let mut s = CouncilSession::new(1, 2);
    assert_eq!(s.state(), SessionState::Connecting);
    assert!(s.fetch_response().is_err());
    assert!(matches!(s.wait_to_create_values(), Ok(CouncilRequest::WaitToCreate)));
    assert_eq!(s.wait_to_create_values().err(), Some(CouncilError::OutOfOrder(SessionState::WaitingToCreate)));
    assert_eq!(s.on_create_response(&Some(CouncilResponse::OkToCreate)), Ok(CreateOutcome::Proceed));
    assert!(matches!(s.finished_creating_values(), Ok(CouncilRequest::FinishedCreatingValues)));
    let g = DependencyGraph::new();
    assert!(matches!(s.register_dependency_graph(&g), Ok(CouncilRequest::RegisterGraph(_))));
    assert!(s.register_dependency_graph(&g).is_err());
    assert!(matches!(s.fetch_response(), Ok(CouncilRequest::FetchResponse)));
    assert!(matches!(s.processed_value(9), Ok(CouncilRequest::ProcessedValue(9))));
    assert!(matches!(s.bye(), Some(CouncilRequest::Bye)));
    assert!(s.bye().is_none());
    assert_eq!(s.state(), SessionState::Finished);
}

#[test]
fn create_phase_rejects_admission_responses() {
    let mut s = CouncilSession::new(1, 2);
    s.wait_to_create_values().ok().unwrap();
    let r = s.on_create_response(&Some(CouncilResponse::BeenProcessed { node_id: 3 }));
    assert_eq!(r, Err(CouncilError::UnexpectedResponse));
    assert_eq!(s.on_create_response(&None), Ok(CreateOutcome::Shutdown));
}

#[test]
fn admission_waits_for_dependencies() {
    let mut g = DependencyGraph::new();
    g.insert(2, &vec![1]);
    g.insert(3, &vec![2]);
    let mut a = Admission::register(g);
    match a.next_response() {
        Some(CouncilResponse::OkToProcess { node_ids }) => assert_eq!(node_ids, vec![1]),
        other => panic!("unexpected {:?}", other),
    }
    assert!(a.next_response().is_none());
    a.processed_value(1);
    match a.next_response() {
        Some(CouncilResponse::OkToProcess { node_ids }) => assert_eq!(node_ids, vec![2]),
        other => panic!("unexpected {:?}", other),
    }
    a.processed_value(2);
    a.next_response();
    a.processed_value(3);
    assert!(matches!(a.next_response(), Some(CouncilResponse::Shutdown)));
}

#[test]
fn run_id_comes_from_job_id() {
    assert_eq!(DependentValuesUpdate::run_id("0000000000000000000000000B").ok(), Some(11));
    assert!(matches!(DependentValuesUpdate::run_id("nope"), Err(DependentValuesUpdateError::InvalidRunId)));
}

#[test]
fn package_nodes_name_their_kind() {
    assert_eq!(PkgNode::SchemaVariantChild("x".to_string()).node_kind_str(), "schema_variant_child");
    assert_eq!(PkgNode::Func("f".to_string()).node_kind_str(), "func");
    assert_eq!(PkgNode::Prop("p".to_string()).name(), "p");
}

#[test]
fn connection_ends() {
    let c = Connection::new(
        1,
        EdgeKind::Configures,
        Vertex { node_id: 10, socket_id: 11 },
        Vertex { node_id: 20, socket_id: 21 },
    );
    assert_eq!(c.source(), (10, 11));
    assert_eq!(c.destination(), (20, 21));
}
