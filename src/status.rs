use vstd::prelude::*;

use crate::ids::{
    dedup_ids, first_members, lemma_first_members, move_ids, select_in_order, AttributeValueId, ComponentId,
};

verus! {

broadcast use {vstd::seq_lib::lemma_seq_contains_after_push, vstd::seq_lib::lemma_seq_concat_contains_all_elements};

/// Identifier of the persisted record of one run's progress.
pub type StatusUpdatePk = u128;

/// Identifier of a property of a schema.
pub type PropId = u128;

/// Identifier of a socket of a component.
pub type SocketId = u128;

/// What a node of the graph structurally represents.
#[derive(Clone, Copy, Debug, PartialEq, Eq, Structural)]
pub enum AttributeValueKind {
    /// A plain attribute, with the property it belongs to.
    Attribute(PropId),
    /// A slot filled by a code generation function.
    CodeGen,
    /// A slot filled by a qualification function.
    Qualification,
    /// A value internal to a component.
    Internal,
    /// A value behind an input socket.
    InputSocket(SocketId),
    /// A value behind an output socket.
    OutputSocket(SocketId),
}

/// The classification of one node, computed once per run.
#[derive(Clone, Copy, Debug, PartialEq, Eq, Structural)]
pub struct AttributeValueMetadata {
    pub value_id: AttributeValueId,
    pub component_id: Option<ComponentId>,
    pub value_kind: AttributeValueKind,
}

/// The transition that a status message announces.
#[derive(Clone, Copy, Debug, PartialEq, Eq, Structural)]
pub enum StatusMessageState {
    StatusStarted,
    Queued,
    Running,
    Completed,
    StatusFinished,
}

/// One broadcast of the progress of a run.
#[derive(Debug)]
pub struct StatusMessage {
    pub pk: StatusUpdatePk,
    pub status: StatusMessageState,
    pub values: Vec<AttributeValueMetadata>,
}

/// Why a value could not be classified, or a run could not be closed.
#[derive(Debug)]
pub enum StatusUpdaterError {
    /// Values that were queued or running when the run was closed.
    UnprocessedValuesRemaining(Vec<AttributeValueId>),
    /// A value whose context names neither a provider nor a property, or a socket-backed
    /// value without a socket.
    UnclassifiableValue(AttributeValueId),
}

/// The least specific part of a value's context, as read from the datastore.
#[derive(Clone, Copy, Debug, PartialEq, Eq, Structural)]
pub enum ValueSource {
    /// The value feeds an output socket through an external provider.
    ExternalProvider { socket_id: Option<SocketId> },
    /// The value comes in through an internal provider; one without a property backs an
    /// input socket.
    InternalProvider { provider_prop_id: Option<PropId>, socket_id: Option<SocketId> },
    /// The value belongs to a property; `code_item_prop_id` is the property under which the
    /// component's schema variant keeps generated code.
    Prop { prop_id: PropId, parent: Option<PropId>, grandparent: Option<PropId>, code_item_prop_id: PropId },
    /// The context names none of these.
    Unknown,
}

/// The kind of a value that belongs to a component, when its source determines one.
pub open spec fn kind_from_source(source: ValueSource) -> Option<AttributeValueKind> {
    match source {
        ValueSource::ExternalProvider { socket_id } => match socket_id {
            Some(s) => Some(AttributeValueKind::OutputSocket(s)),
            None => None,
        },
        ValueSource::InternalProvider { provider_prop_id, socket_id } => match provider_prop_id {
            Some(_) => Some(AttributeValueKind::Internal),
            None => match socket_id {
                Some(s) => Some(AttributeValueKind::InputSocket(s)),
                None => None,
            },
        },
        ValueSource::Prop { prop_id, parent, grandparent, code_item_prop_id } => if prop_id == code_item_prop_id
            || parent == Some(code_item_prop_id) || grandparent == Some(code_item_prop_id) {
            Some(AttributeValueKind::CodeGen)
        } else {
            Some(AttributeValueKind::Attribute(prop_id))
        },
        ValueSource::Unknown => None,
    }
}

/// Classifies a value: one without an owning component is internal; otherwise its source
/// decides, and a property at or below the code-generation item makes it generated code.
pub fn classify_value(value_id: AttributeValueId, component_id: Option<ComponentId>, source: ValueSource)
    -> (r: Result<AttributeValueMetadata, StatusUpdaterError>)
    ensures
        component_id is None ==> (r matches Ok(m) && m == (AttributeValueMetadata {
            value_id, component_id, value_kind: AttributeValueKind::Internal })),
        component_id is Some ==> match kind_from_source(source) {
            Some(k) => r matches Ok(m) && m == (AttributeValueMetadata { value_id, component_id, value_kind: k }),
            None => r matches Err(StatusUpdaterError::UnclassifiableValue(id)) && id == value_id,
        },
{
    if component_id.is_none() {
        return Ok(AttributeValueMetadata { value_id, component_id, value_kind: AttributeValueKind::Internal });
    }
    let kind = match source {
        ValueSource::ExternalProvider { socket_id } => match socket_id {
            Some(s) => Some(AttributeValueKind::OutputSocket(s)),
            None => None,
        },
        ValueSource::InternalProvider { provider_prop_id, socket_id } => match provider_prop_id {
            Some(_) => Some(AttributeValueKind::Internal),
            None => match socket_id {
                Some(s) => Some(AttributeValueKind::InputSocket(s)),
                None => None,
            },
        },
        ValueSource::Prop { prop_id, parent, grandparent, code_item_prop_id } => {
            let in_code = prop_id == code_item_prop_id || parent == Some(code_item_prop_id)
                || grandparent == Some(code_item_prop_id);
            if in_code {
                Some(AttributeValueKind::CodeGen)
            } else {
                Some(AttributeValueKind::Attribute(prop_id))
            }
        },
        ValueSource::Unknown => None,
    };
    match kind {
        Some(k) => Ok(AttributeValueMetadata { value_id, component_id, value_kind: k }),
        None => Err(StatusUpdaterError::UnclassifiableValue(value_id)),
    }
}

/// The node ids that the metadata in `s` describe.
pub open spec fn ids_of(s: Seq<AttributeValueMetadata>) -> Set<AttributeValueId> {
    Set::new(|id: AttributeValueId| exists|i: int| 0 <= i < s.len() && (#[trigger] s[i]).value_id == id)
}

/// The owners of the values that the metadata in `s` describe.
pub open spec fn owners_of(s: Seq<AttributeValueMetadata>) -> Set<ComponentId> {
    Set::new(
        |c: ComponentId| exists|i: int| 0 <= i < s.len() && (#[trigger] s[i]).component_id == Some(c),
    )
}

/// The queued, running and completed nodes of one run, with the classification of each.
pub struct StatusUpdater {
    pk: StatusUpdatePk,
    metadata: Vec<AttributeValueMetadata>,
    queued: Vec<AttributeValueId>,
    running: Vec<AttributeValueId>,
    completed: Vec<AttributeValueId>,
}

impl StatusUpdater {
    /// Nodes waiting to run.
    pub closed spec fn queued_set(&self) -> Set<AttributeValueId> {
        self.queued@.to_set()
    }

    /// Nodes whose computation is under way.
    pub closed spec fn running_set(&self) -> Set<AttributeValueId> {
        self.running@.to_set()
    }

    /// Nodes whose computation is done.
    pub closed spec fn completed_set(&self) -> Set<AttributeValueId> {
        self.completed@.to_set()
    }

    /// Nodes classified in this run.
    pub closed spec fn classified(&self) -> Set<AttributeValueId> {
        ids_of(self.metadata@)
    }

    /// The classification recorded for each classified node.
    pub closed spec fn metadata_view(&self) -> Seq<AttributeValueMetadata> {
        self.metadata@
    }

    pub closed spec fn spec_pk(&self) -> StatusUpdatePk {
        self.pk
    }

    pub closed spec fn wf(&self) -> bool {
        &&& self.queued@.no_duplicates()
        &&& self.running@.no_duplicates()
        &&& self.completed@.no_duplicates()
        &&& self.queued_set().disjoint(self.running_set())
        &&& self.running_set().disjoint(self.completed_set())
        &&& self.queued_set().disjoint(self.completed_set())
        &&& self.classified() == self.queued_set().union(self.running_set()).union(self.completed_set())
        &&& forall|i: int, j: int|
            0 <= i < j < self.metadata@.len() ==> (#[trigger] self.metadata@[i]).value_id
                != (#[trigger] self.metadata@[j]).value_id
    }

    /// Starts the ledger of a run, with nothing queued, running or completed.
    pub fn initialize(pk: StatusUpdatePk) -> (r: (StatusUpdater, StatusMessage))
        ensures
            r.0.wf(),
            r.0.spec_pk() == pk,
            r.0.queued_set() == Set::<AttributeValueId>::empty(),
            r.0.running_set() == Set::<AttributeValueId>::empty(),
            r.0.completed_set() == Set::<AttributeValueId>::empty(),
            r.0.classified() == Set::<AttributeValueId>::empty(),
            r.1.pk == pk,
            r.1.status == StatusMessageState::StatusStarted,
            r.1.values@.len() == 0,
    {
        let s = StatusUpdater {
            pk,
            metadata: Vec::new(),
            queued: Vec::new(),
            running: Vec::new(),
            completed: Vec::new(),
        };
        proof {
            assert(s.queued_set() =~= Set::empty());
            assert(s.running_set() =~= Set::empty());
            assert(s.completed_set() =~= Set::empty());
            assert(s.classified() =~= Set::empty());
            assert(s.classified() =~= s.queued_set().union(s.running_set()).union(s.completed_set()));
        }
        (s, StatusMessage { pk, status: StatusMessageState::StatusStarted, values: Vec::new() })
    }

    pub fn pk(&self) -> (r: StatusUpdatePk)
        ensures
            r == self.spec_pk(),
    {
        self.pk
    }

    /// The queued nodes, each once.
    pub fn queued_ids(&self) -> (r: &Vec<AttributeValueId>)
        requires
            self.wf(),
        ensures
            r@.no_duplicates(),
            r@.to_set() == self.queued_set(),
    {
        &self.queued
    }

    /// The running nodes, each once.
    pub fn running_ids(&self) -> (r: &Vec<AttributeValueId>)
        requires
            self.wf(),
        ensures
            r@.no_duplicates(),
            r@.to_set() == self.running_set(),
    {
        &self.running
    }

    /// The completed nodes, each once.
    pub fn completed_ids(&self) -> (r: &Vec<AttributeValueId>)
        requires
            self.wf(),
        ensures
            r@.no_duplicates(),
            r@.to_set() == self.completed_set(),
    {
        &self.completed
    }

    fn is_classified(&self, id: AttributeValueId) -> (r: bool)
        ensures
            r == self.classified().contains(id),
    {
        let mut i: usize = 0;
        while i < self.metadata.len()
            invariant
                0 <= i <= self.metadata@.len(),
                forall|j: int| 0 <= j < i ==> (#[trigger] self.metadata@[j]).value_id != id,
            decreases self.metadata@.len() - i,
        {
            if self.metadata[i].value_id == id {
                assert(self.metadata@[i as int].value_id == id);
                return true;
            }
            i = i + 1;
        }
        false
    }

    /// The members of `ids` that this run has not classified yet, each once.
    pub fn unclassified(&self, ids: &Vec<AttributeValueId>) -> (r: Vec<AttributeValueId>)
        ensures
            r@.no_duplicates(),
            r@.to_set() == ids@.to_set().difference(self.classified()),
    {
        let mut out: Vec<AttributeValueId> = Vec::new();
        let mut i: usize = 0;
        while i < ids.len()
            invariant
                0 <= i <= ids@.len(),
                forall|x: AttributeValueId| out@.contains(x) <==> (ids@.subrange(0, i as int).contains(x) && !self.classified().contains(x)),
            decreases ids@.len() - i,
        {
            let x = ids[i];
            if !self.is_classified(x) {
                out.push(x);
            }
            proof {
                assert(ids@.subrange(0, i + 1) == ids@.subrange(0, i as int).push(x));
            }
            i = i + 1;
        }
        proof {
            assert(ids@.subrange(0, ids@.len() as int) == ids@);
        }
        let r = dedup_ids(&out);
        proof {
            assert(r@.to_set() =~= ids@.to_set().difference(self.classified()));
        }
        r
    }

    /// The recorded classification of each of `ids`, in the same order.
    fn metadata_for(&self, ids: &Vec<AttributeValueId>) -> (r: Vec<AttributeValueMetadata>)
        requires
            forall|x: AttributeValueId| ids@.contains(x) ==> self.classified().contains(x),
        ensures
            r@.len() == ids@.len(),
            forall|i: int| 0 <= i < r@.len() ==> (#[trigger] r@[i]).value_id == ids@[i] && self.metadata@.contains(r@[i]),
    {
        let mut out: Vec<AttributeValueMetadata> = Vec::new();
        let mut i: usize = 0;
        while i < ids.len()
            invariant
                0 <= i <= ids@.len(),
                out@.len() == i,
                forall|x: AttributeValueId| ids@.contains(x) ==> self.classified().contains(x),
                forall|j: int| 0 <= j < i ==> (#[trigger] out@[j]).value_id == ids@[j] && self.metadata@.contains(out@[j]),
            decreases ids@.len() - i,
        {
            let id = ids[i];
            assert(ids@.contains(id));
            let mut t: usize = 0;
            let mut found: Option<AttributeValueMetadata> = None;
            while t < self.metadata.len() && found.is_none()
                invariant
                    0 <= t <= self.metadata@.len(),
                    self.classified().contains(id),
                    match found {
                        Some(m) => self.metadata@.contains(m) && m.value_id == id,
                        None => forall|j: int| 0 <= j < t ==> (#[trigger] self.metadata@[j]).value_id != id,
                    },
                decreases self.metadata@.len() - t,
            {
                if self.metadata[t].value_id == id {
                    found = Some(self.metadata[t]);
                    assert(self.metadata@.contains(self.metadata@[t as int]));
                }
                t = t + 1;
            }
            match found {
                Some(m) => {
                    out.push(m);
                },
                None => {
                    proof {
                        let j = choose|j: int| 0 <= j < self.metadata@.len() && (#[trigger] self.metadata@[j]).value_id == id;
                        assert(self.metadata@[j].value_id != id);
                    }
                },
            }
            i = i + 1;
        }
        out
    }

    /// Queues every described node that this run has not classified yet, recording its
    /// classification; nodes classified before stay where they are.
    pub fn values_queued(&mut self, metadata: &Vec<AttributeValueMetadata>) -> (msg: StatusMessage)
        requires
            old(self).wf(),
        ensures
            final(self).wf(),
            final(self).spec_pk() == old(self).spec_pk(),
            final(self).queued_set() == old(self).queued_set().union(
                ids_of(metadata@).difference(old(self).classified()),
            ),
            final(self).running_set() == old(self).running_set(),
            final(self).completed_set() == old(self).completed_set(),
            final(self).classified() == old(self).classified().union(ids_of(metadata@)),
            final(self).metadata_view().subrange(0, old(self).metadata_view().len() as int) == old(self).metadata_view(),
            forall|i: int| old(self).metadata_view().len() <= i < final(self).metadata_view().len()
                ==> metadata@.contains(#[trigger] final(self).metadata_view()[i]),
            msg.pk == old(self).spec_pk(),
            msg.status == StatusMessageState::Queued,
            ids_of(msg.values@) == ids_of(metadata@).difference(old(self).classified()),
            forall|i: int| 0 <= i < msg.values@.len() ==> metadata@.contains(#[trigger] msg.values@[i]),
    {
        let ghost added = ids_of(metadata@).difference(old(self).classified());
        let mut values: Vec<AttributeValueMetadata> = Vec::new();
        let mut i: usize = 0;
        while i < metadata.len()
            invariant
                self.wf(),
                self.pk == old(self).pk,
                0 <= i <= metadata@.len(),
                self.running == old(self).running,
                self.completed == old(self).completed,
                self.queued_set() == old(self).queued_set().union(ids_of(values@)),
                self.classified() == old(self).classified().union(ids_of(values@)),
                old(self).metadata@.len() <= self.metadata@.len(),
                self.metadata@.subrange(0, old(self).metadata@.len() as int) == old(self).metadata@,
                forall|j: int| old(self).metadata@.len() <= j < self.metadata@.len() ==> metadata@.contains(#[trigger] self.metadata@[j]),
                ids_of(values@) == ids_of(metadata@.subrange(0, i as int)).difference(old(self).classified()),
                forall|j: int| 0 <= j < values@.len() ==> metadata@.contains(#[trigger] values@[j]),
            decreases metadata@.len() - i,
        {
            let m = metadata[i];
            let ghost prefix = metadata@.subrange(0, i as int);
            proof {
                assert(metadata@.subrange(0, i + 1) == prefix.push(m));
                assert(ids_of(prefix.push(m)) =~= ids_of(prefix).insert(m.value_id)) by {
                    assert forall|id: AttributeValueId| ids_of(prefix.push(m)).contains(id) implies ids_of(prefix).insert(m.value_id).contains(id) by {
                        let j = choose|j: int| 0 <= j < prefix.push(m).len() && (#[trigger] prefix.push(m)[j]).value_id == id;
                        if j < prefix.len() {
                            assert(prefix[j].value_id == id);
                        }
                    }
                    assert forall|id: AttributeValueId| ids_of(prefix).insert(m.value_id).contains(id) implies ids_of(prefix.push(m)).contains(id) by {
                        if id == m.value_id {
                            assert(prefix.push(m)[prefix.len() as int].value_id == id);
                        } else {
                            let j = choose|j: int| 0 <= j < prefix.len() && (#[trigger] prefix[j]).value_id == id;
                            assert(prefix.push(m)[j].value_id == id);
                        }
                    }
                }
                assert(metadata@.contains(m)) by {
                    assert(metadata@[i as int] == m);
                }
            }
            if !self.is_classified(m.value_id) {
                let ghost old_meta = self.metadata@;
                let ghost old_q = self.queued_set();
                let ghost old_values = values@;
                proof {
                    assert(!self.queued_set().contains(m.value_id));
                    assert(!ids_of(values@).contains(m.value_id));
                }
                self.metadata.push(m);
                self.queued.push(m.value_id);
                values.push(m);
                proof {
                    assert forall|id: AttributeValueId| ids_of(self.metadata@).contains(id) <==> ids_of(old_meta).insert(m.value_id).contains(id) by {
                        if ids_of(self.metadata@).contains(id) {
                            let j = choose|j: int| 0 <= j < self.metadata@.len() && (#[trigger] self.metadata@[j]).value_id == id;
                            if j < old_meta.len() {
                                assert(old_meta[j].value_id == id);
                            }
                        }
                        if ids_of(old_meta).contains(id) {
                            let j = choose|j: int| 0 <= j < old_meta.len() && (#[trigger] old_meta[j]).value_id == id;
                            assert(self.metadata@[j].value_id == id);
                        }
                        if id == m.value_id {
                            assert(self.metadata@[old_meta.len() as int].value_id == id);
                        }
                    }
                    assert(ids_of(self.metadata@) =~= ids_of(old_meta).insert(m.value_id));
                    assert forall|id: AttributeValueId| ids_of(values@).contains(id) <==> ids_of(old_values).insert(m.value_id).contains(id) by {
                        if ids_of(values@).contains(id) {
                            let j = choose|j: int| 0 <= j < values@.len() && (#[trigger] values@[j]).value_id == id;
                            if j < old_values.len() {
                                assert(old_values[j].value_id == id);
                            }
                        }
                        if ids_of(old_values).contains(id) {
                            let j = choose|j: int| 0 <= j < old_values.len() && (#[trigger] old_values[j]).value_id == id;
                            assert(values@[j].value_id == id);
                        }
                        if id == m.value_id {
                            assert(values@[old_values.len() as int].value_id == id);
                        }
                    }
                    assert(ids_of(values@) =~= ids_of(old_values).insert(m.value_id));
                    assert(self.queued_set() =~= old_q.insert(m.value_id));
                    assert(self.queued_set() =~= old(self).queued_set().union(ids_of(values@)));
                    assert(self.classified() =~= old(self).classified().union(ids_of(values@)));
                    assert(ids_of(values@) =~= ids_of(metadata@.subrange(0, i + 1)).difference(old(self).classified()));
                    assert(self.classified() =~= self.queued_set().union(self.running_set()).union(self.completed_set()));
                    assert forall|a: int, b: int| 0 <= a < b < self.metadata@.len() implies (#[trigger] self.metadata@[a]).value_id
                        != (#[trigger] self.metadata@[b]).value_id by {
                        if b == old_meta.len() {
                            assert(ids_of(old_meta).contains(self.metadata@[a].value_id));
                        }
                    }
                }
            } else {
                proof {
                    assert(ids_of(values@) =~= ids_of(metadata@.subrange(0, i + 1)).difference(old(self).classified()));
                }
            }
            i = i + 1;
        }
        proof {
            assert(metadata@.subrange(0, metadata@.len() as int) == metadata@);
        }
        StatusMessage { pk: self.pk, status: StatusMessageState::Queued, values }
    }

    /// Moves the members of `ids` that are queued over to running; the message describes them
    /// one entry each, in the order of `ids`.
    pub fn values_running(&mut self, ids: &Vec<AttributeValueId>) -> (msg: StatusMessage)
        requires
            old(self).wf(),
        ensures
            final(self).wf(),
            final(self).spec_pk() == old(self).spec_pk(),
            final(self).classified() == old(self).classified(),
            final(self).metadata_view() == old(self).metadata_view(),
            final(self).queued_set() == old(self).queued_set().difference(ids@.to_set()),
            final(self).running_set() == old(self).running_set().union(
                old(self).queued_set().intersect(ids@.to_set()),
            ),
            final(self).completed_set() == old(self).completed_set(),
            msg.pk == old(self).spec_pk(),
            msg.status == StatusMessageState::Running,
            ids_of(msg.values@) == old(self).queued_set().intersect(ids@.to_set()),
            msg.values@.len() == first_members(ids@, old(self).queued_set().intersect(ids@.to_set())).len(),
            forall|i: int| 0 <= i < msg.values@.len() ==> (#[trigger] msg.values@[i]).value_id
                == first_members(ids@, old(self).queued_set().intersect(ids@.to_set()))[i],
            forall|i: int| 0 <= i < msg.values@.len() ==> old(self).metadata_view().contains(#[trigger] msg.values@[i]),
    {
        let moved = move_ids(&mut self.queued, &mut self.running, ids);
        proof {
            assert(self.classified() =~= self.queued_set().union(self.running_set()).union(self.completed_set()));
        }
        let ordered = select_in_order(ids, &moved);
        proof {
            lemma_first_members(ids@, moved@.to_set());
            assert(ordered@.to_set() =~= moved@.to_set());
        }
        let values = self.metadata_for(&ordered);
        proof {
            assert(ids_of(values@) =~= moved@.to_set()) by {
                assert forall|id: AttributeValueId| ids_of(values@).contains(id) implies moved@.to_set().contains(id) by {
                    let j = choose|j: int| 0 <= j < values@.len() && (#[trigger] values@[j]).value_id == id;
                    assert(ordered@[j] == id);
                    assert(ordered@.to_set().contains(id));
                }
                assert forall|id: AttributeValueId| moved@.to_set().contains(id) implies ids_of(values@).contains(id) by {
                    assert(ordered@.to_set().contains(id));
                    let j = choose|j: int| 0 <= j < ordered@.len() && ordered@[j] == id;
                    assert(values@[j].value_id == id);
                }
            }
        }
        StatusMessage { pk: self.pk, status: StatusMessageState::Running, values }
    }

    /// Moves the members of `ids` that are running over to completed, described one entry each
    /// in the order of `ids`; also gives the owners of the moved values, each once, whose
    /// freshness marker is due.
    pub fn values_completed(&mut self, ids: &Vec<AttributeValueId>) -> (r: (StatusMessage, Vec<ComponentId>))
        requires
            old(self).wf(),
        ensures
            final(self).wf(),
            final(self).spec_pk() == old(self).spec_pk(),
            final(self).classified() == old(self).classified(),
            final(self).metadata_view() == old(self).metadata_view(),
            final(self).queued_set() == old(self).queued_set(),
            final(self).running_set() == old(self).running_set().difference(ids@.to_set()),
            final(self).completed_set() == old(self).completed_set().union(
                old(self).running_set().intersect(ids@.to_set()),
            ),
            r.0.pk == old(self).spec_pk(),
            r.0.status == StatusMessageState::Completed,
            ids_of(r.0.values@) == old(self).running_set().intersect(ids@.to_set()),
            r.0.values@.len() == first_members(ids@, old(self).running_set().intersect(ids@.to_set())).len(),
            forall|i: int| 0 <= i < r.0.values@.len() ==> (#[trigger] r.0.values@[i]).value_id
                == first_members(ids@, old(self).running_set().intersect(ids@.to_set()))[i],
            forall|i: int| 0 <= i < r.0.values@.len() ==> old(self).metadata_view().contains(#[trigger] r.0.values@[i]),
            r.1@.no_duplicates(),
            r.1@.to_set() == owners_of(r.0.values@),
    {
        let moved = move_ids(&mut self.running, &mut self.completed, ids);
        proof {
            assert(self.classified() =~= self.queued_set().union(self.running_set()).union(self.completed_set()));
        }
        let ordered = select_in_order(ids, &moved);
        proof {
            lemma_first_members(ids@, moved@.to_set());
            assert(ordered@.to_set() =~= moved@.to_set());
        }
        let values = self.metadata_for(&ordered);
        proof {
            assert(ids_of(values@) =~= moved@.to_set()) by {
                assert forall|id: AttributeValueId| ids_of(values@).contains(id) implies moved@.to_set().contains(id) by {
                    let j = choose|j: int| 0 <= j < values@.len() && (#[trigger] values@[j]).value_id == id;
                    assert(ordered@[j] == id);
                    assert(ordered@.to_set().contains(id));
                }
                assert forall|id: AttributeValueId| moved@.to_set().contains(id) implies ids_of(values@).contains(id) by {
                    assert(ordered@.to_set().contains(id));
                    let j = choose|j: int| 0 <= j < ordered@.len() && ordered@[j] == id;
                    assert(values@[j].value_id == id);
                }
            }
        }
        let mut owners: Vec<ComponentId> = Vec::new();
        let mut i: usize = 0;
        while i < values.len()
            invariant
                0 <= i <= values@.len(),
                forall|c: ComponentId| owners@.contains(c) <==> owners_of(values@.subrange(0, i as int)).contains(c),
            decreases values@.len() - i,
        {
            let ghost prefix = values@.subrange(0, i as int);
            proof {
                assert(values@.subrange(0, i + 1) == prefix.push(values@[i as int]));
            }
            match values[i].component_id {
                Some(c) => {
                    owners.push(c);
                },
                None => {},
            }
            proof {
                let m = values@[i as int];
                let next = prefix.push(m);
                assert forall|c: ComponentId| owners_of(next).contains(c) <==> (owners_of(prefix).contains(c) || m.component_id == Some(c)) by {
                    if owners_of(next).contains(c) {
                        let j = choose|j: int| 0 <= j < next.len() && (#[trigger] next[j]).component_id == Some(c);
                        if j < prefix.len() {
                            assert(prefix[j].component_id == Some(c));
                        }
                    }
                    if owners_of(prefix).contains(c) {
                        let j = choose|j: int| 0 <= j < prefix.len() && (#[trigger] prefix[j]).component_id == Some(c);
                        assert(next[j].component_id == Some(c));
                    }
                    if m.component_id == Some(c) {
                        assert(next[prefix.len() as int].component_id == Some(c));
                    }
                }
            }
            i = i + 1;
        }
        proof {
            assert(values@.subrange(0, values@.len() as int) == values@);
        }
        let distinct = dedup_ids(&owners);
        proof {
            assert(distinct@.to_set() =~= owners_of(values@));
        }
        (StatusMessage { pk: self.pk, status: StatusMessageState::Completed, values }, distinct)
    }

    /// Closes the run. It fails exactly when some node is still queued or running, and then
    /// lists exactly those nodes, each once.
    pub fn finish(self) -> (r: Result<StatusMessage, StatusUpdaterError>)
        requires
            self.wf(),
        ensures
            r is Err <==> self.queued_set().union(self.running_set()) != Set::<AttributeValueId>::empty(),
            r is Ok ==> self.classified() == self.completed_set(),
            match r {
                Ok(msg) => msg.pk == self.spec_pk() && msg.status == StatusMessageState::StatusFinished
                    && msg.values@.len() == 0,
                Err(StatusUpdaterError::UnprocessedValuesRemaining(ids)) => ids@.no_duplicates()
                    && ids@.to_set() == self.queued_set().union(self.running_set())
                    && ids@.to_set() == self.classified().difference(self.completed_set()),
                Err(_) => false,
            },
    {
        proof {
            assert(self.queued_set().union(self.running_set()) =~= self.classified().difference(self.completed_set()));
        }
        if self.queued.len() == 0 && self.running.len() == 0 {
            proof {
                assert(self.queued_set().union(self.running_set()) =~= Set::empty());
                assert(self.classified() =~= self.completed_set());
            }
            Ok(StatusMessage { pk: self.pk, status: StatusMessageState::StatusFinished, values: Vec::new() })
        } else {
            let mut all: Vec<AttributeValueId> = Vec::new();
            let mut i: usize = 0;
            while i < self.queued.len()
                invariant
                    0 <= i <= self.queued@.len(),
                    all@ == self.queued@.subrange(0, i as int),
                decreases self.queued@.len() - i,
            {
                all.push(self.queued[i]);
                i = i + 1;
            }
            let mut t: usize = 0;
            while t < self.running.len()
                invariant
                    0 <= t <= self.running@.len(),
                    i == self.queued@.len(),
                    all@ == self.queued@.subrange(0, i as int) + self.running@.subrange(0, t as int),
                decreases self.running@.len() - t,
            {
                all.push(self.running[t]);
                proof {
                    assert(all@ =~= self.queued@.subrange(0, i as int) + self.running@.subrange(0, t + 1));
                }
                t = t + 1;
            }
            proof {
                assert(self.queued@.subrange(0, i as int) =~= self.queued@);
                assert(self.running@.subrange(0, t as int) =~= self.running@);
                assert(all@.to_set() =~= self.queued_set().union(self.running_set()));
                let w = if self.queued@.len() > 0 { self.queued@[0] } else { self.running@[0] };
                assert(self.queued_set().union(self.running_set()).contains(w));
                assert(!Set::<AttributeValueId>::empty().contains(w));
            }
            let ids = dedup_ids(&all);
            Err(StatusUpdaterError::UnprocessedValuesRemaining(ids))
        }
    }

    /// No node is in two of the queued, running and completed sets at once, and the classified
    /// nodes are exactly those in one of them.
    pub proof fn lemma_disjoint(&self)
        requires
            self.wf(),
        ensures
            self.classified() == self.queued_set().union(self.running_set()).union(self.completed_set()),
            self.queued_set().disjoint(self.running_set()),
            self.running_set().disjoint(self.completed_set()),
            self.queued_set().disjoint(self.completed_set()),
    {
    }
}

} // verus!
