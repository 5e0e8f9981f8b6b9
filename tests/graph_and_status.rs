use dependent_values::{
    classify_value, AttributeValueKind, AttributeValueMetadata, DependencyGraph, DependentValuesUpdate, StatusMessageState,
    StatusUpdater, StatusUpdaterError, ValueSource,
};

fn sorted(mut v: Vec<u128>) -> Vec<u128> {
    v.sort();
    v
}

fn meta(id: u128, owner: Option<u128>) -> AttributeValueMetadata {
    AttributeValueMetadata { value_id: id, component_id: owner, value_kind: AttributeValueKind::Internal }
}

#[test]
fn graph_insert_drops_self_dependency() {
    let mut g = DependencyGraph::new();
    g.insert(1, &vec![1, 2, 3]);
    assert!(g.contains(1));
    assert_eq!(sorted(g.dependencies(1).unwrap()), vec![2, 3]);
    assert_eq!(g.len(), 1);
}

#[test]
fn graph_remove_absent_node_is_noop() {
    let mut g = DependencyGraph::new();
    g.insert(1, &vec![2]);
    assert!(!g.remove(7));
    assert_eq!(g.len(), 1);
    assert!(g.remove(1));
    assert!(g.is_empty());
}

#[test]
fn remove_satisfied_keeps_emptied_nodes() {
    let mut g = DependencyGraph::new();
    g.insert(10, &vec![1]);
    g.insert(11, &vec![1, 10]);
    g.insert(12, &vec![2]);
    g.insert(1, &vec![3]);
    g.remove_satisfied(&vec![1]);
    assert!(g.contains(10));
    assert!(g.dependencies(10).unwrap().is_empty());
    assert!(!g.contains(1));
    assert_eq!(g.dependencies(11).unwrap(), vec![10]);
    assert_eq!(g.dependencies(12).unwrap(), vec![2]);
    assert_eq!(sorted(g.referenced_nodes()), vec![2, 10, 11, 12]);
}

#[test]
fn empty_root_set_gives_empty_graph() {
    let job = DependentValuesUpdate::new(vec![]);
    assert!(job.prepare_graph(DependencyGraph::new()).is_none());
}

#[test]
fn dependents_of_seeds_stay_tracked() {
    let job = DependentValuesUpdate::new(vec![1]);
    let mut g = DependencyGraph::new();
    g.insert(2, &vec![1]);
    g.insert(3, &vec![1]);
    let prepared = job.prepare_graph(g).unwrap();
    assert_eq!(prepared.len(), 2);
    assert!(prepared.dependencies(2).unwrap().is_empty());
    assert_eq!(sorted(prepared.referenced_nodes()), vec![2, 3]);
}

#[test]
fn graph_of_seeds_only_needs_no_run() {
    let job = DependentValuesUpdate::new(vec![1, 2]);
    let mut g = DependencyGraph::new();
    g.insert(2, &vec![1]);
    assert!(job.prepare_graph(g).is_none());
}

#[test]
fn status_moves_values_through_states() {
    let (mut s, started) = StatusUpdater::initialize(42);
    assert_eq!(started.status, StatusMessageState::StatusStarted);
    assert_eq!(started.pk, 42);
    let queued = s.values_queued(&vec![meta(1, Some(100)), meta(2, Some(100)), meta(3, None)]);
    assert_eq!(queued.status, StatusMessageState::Queued);
    assert_eq!(queued.values.len(), 3);
    let running = s.values_running(&vec![1, 2]);
    assert_eq!(running.status, StatusMessageState::Running);
    assert_eq!(running.values.len(), 2);
    let (completed, owners) = s.values_completed(&vec![1, 2, 3]);
    assert_eq!(completed.values.len(), 2);
    assert_eq!(owners, vec![100]);
    match s.finish() {
        Err(StatusUpdaterError::UnprocessedValuesRemaining(ids)) => assert_eq!(ids, vec![3]),
        _ => panic!("value 3 is still queued"),
    }
}

#[test]
fn status_classifies_each_value_once() {
    let (mut s, _) = StatusUpdater::initialize(1);
    let first = s.values_queued(&vec![meta(5, None)]);
    assert_eq!(first.values.len(), 1);
    let again = s.values_queued(&vec![meta(5, None), meta(6, None)]);
    assert_eq!(again.values.len(), 1);
    assert_eq!(again.values[0].value_id, 6);
    assert_eq!(s.unclassified(&vec![5, 6, 7, 7]), vec![7]);
}

#[test]
fn finish_lists_queued_and_running_values() {
    let (mut s, _) = StatusUpdater::initialize(1);
    s.values_queued(&vec![meta(1, None), meta(2, None), meta(3, None)]);
    s.values_running(&vec![2]);
    s.values_completed(&vec![9]);
    match s.finish() {
        Err(StatusUpdaterError::UnprocessedValuesRemaining(ids)) => assert_eq!(sorted(ids), vec![1, 2, 3]),
        _ => panic!("values remain"),
    }
}

#[test]
fn finish_succeeds_once_everything_completed() {
    let (mut s, _) = StatusUpdater::initialize(7);
    s.values_queued(&vec![meta(1, None)]);
    s.values_running(&vec![1]);
    s.values_completed(&vec![1]);
    let done = s.finish().ok().unwrap();
    assert_eq!(done.status, StatusMessageState::StatusFinished);
    assert!(done.values.is_empty());
}

#[test]
fn running_ignores_values_not_queued() {
    let (mut s, _) = StatusUpdater::initialize(1);
    s.values_queued(&vec![meta(1, None)]);
    s.values_running(&vec![1]);
    s.values_completed(&vec![1]);
    let again = s.values_running(&vec![1]);
    assert!(again.values.is_empty());
    assert!(s.finish().is_ok());
}

#[test]
fn status_sets_stay_disjoint() {
    let (mut s, _) = StatusUpdater::initialize(3);
    s.values_queued(&vec![meta(1, None), meta(2, None), meta(3, None), meta(4, None)]);
    s.values_running(&vec![1, 2, 2]);
    s.values_completed(&vec![1, 3]);
    s.values_queued(&vec![meta(1, None), meta(2, None)]);
    s.values_running(&vec![1, 4]);
    let q = sorted(s.queued_ids().clone());
    let r = sorted(s.running_ids().clone());
    let c = sorted(s.completed_ids().clone());
    assert_eq!(q, vec![3]);
    assert_eq!(r, vec![2, 4]);
    assert_eq!(c, vec![1]);
    for x in q.iter() {
        assert!(!r.contains(x) && !c.contains(x));
    }
    for x in r.iter() {
        assert!(!c.contains(x));
    }
}

#[test]
fn classification_follows_value_source() {
    let internal = classify_value(1, None, ValueSource::Unknown).ok().unwrap();
    assert_eq!(internal.value_kind, AttributeValueKind::Internal);
    let out = classify_value(2, Some(9), ValueSource::ExternalProvider { socket_id: Some(40) }).ok().unwrap();
    assert_eq!(out.value_kind, AttributeValueKind::OutputSocket(40));
    let input = classify_value(3, Some(9), ValueSource::InternalProvider { provider_prop_id: None, socket_id: Some(41) }).ok().unwrap();
    assert_eq!(input.value_kind, AttributeValueKind::InputSocket(41));
    let implicit = classify_value(4, Some(9), ValueSource::InternalProvider { provider_prop_id: Some(7), socket_id: None }).ok().unwrap();
    assert_eq!(implicit.value_kind, AttributeValueKind::Internal);
    let code = ValueSource::Prop { prop_id: 50, parent: Some(51), grandparent: Some(52), code_item_prop_id: 52 };
    assert_eq!(classify_value(5, Some(9), code).ok().unwrap().value_kind, AttributeValueKind::CodeGen);
    let plain = ValueSource::Prop { prop_id: 50, parent: Some(51), grandparent: None, code_item_prop_id: 99 };
    let attr = classify_value(6, Some(9), plain).ok().unwrap();
    assert_eq!(attr.value_kind, AttributeValueKind::Attribute(50));
    assert_eq!(attr.component_id, Some(9));
    assert!(matches!(
        classify_value(7, Some(9), ValueSource::ExternalProvider { socket_id: None }),
        Err(StatusUpdaterError::UnclassifiableValue(7))
    ));
    assert!(matches!(classify_value(8, Some(9), ValueSource::Unknown), Err(StatusUpdaterError::UnclassifiableValue(8))));
}

#[test]
fn running_message_follows_call_order() {
    let (mut s, _) = StatusUpdater::initialize(1);
    s.values_queued(&vec![meta(1, None), meta(2, None), meta(3, None)]);
    let running = s.values_running(&vec![3, 9, 1, 3]);
    let ids: Vec<u128> = running.values.iter().map(|m| m.value_id).collect();
    assert_eq!(ids, vec![3, 1]);
    let (completed, _) = s.values_completed(&vec![1, 3]);
    let ids: Vec<u128> = completed.values.iter().map(|m| m.value_id).collect();
    assert_eq!(ids, vec![1, 3]);
}
