use vstd::prelude::*;

use crate::ids::{contains_id, dedup_ids, AttributeValueId};

verus! {

broadcast use {vstd::seq_lib::lemma_seq_contains_after_push, vstd::seq_lib::lemma_seq_concat_contains_all_elements};

/// The graph with the already-satisfied nodes `done` taken out: they leave every dependency
/// list and are no longer keys. A node whose list becomes empty stays, with nothing left to
/// wait for, so that it is still processed.
pub open spec fn pruned(
    g: Map<AttributeValueId, Set<AttributeValueId>>,
    done: Set<AttributeValueId>,
) -> Map<AttributeValueId, Set<AttributeValueId>> {
    Map::new(
        |k: AttributeValueId| g.contains_key(k) && !done.contains(k),
        |k: AttributeValueId| g[k].difference(done),
    )
}

/// Whether `n` stands in the graph, as a node or as a dependency of one.
pub open spec fn referenced(g: Map<AttributeValueId, Set<AttributeValueId>>, n: AttributeValueId) -> bool {
    g.contains_key(n) || exists|k: AttributeValueId| #[trigger] g.contains_key(k) && g[k].contains(n)
}

/// Every node that the graph refers to.
pub open spec fn referenced_set(g: Map<AttributeValueId, Set<AttributeValueId>>) -> Set<AttributeValueId> {
    Set::new(|n: AttributeValueId| referenced(g, n))
}

/// One node with the nodes it still depends on.
#[derive(Debug)]
pub struct GraphEntry {
    pub node: AttributeValueId,
    pub dependencies: Vec<AttributeValueId>,
}

/// Maps each node to the nodes it still depends on.
///
/// The nodes are kept in the order in which they were first inserted; a node never depends
/// on itself.
pub struct DependencyGraph {
    nodes: Vec<AttributeValueId>,
    deps: Vec<Vec<AttributeValueId>>,
    model: Ghost<Map<AttributeValueId, Set<AttributeValueId>>>,
}

impl View for DependencyGraph {
    type V = Map<AttributeValueId, Set<AttributeValueId>>;

    closed spec fn view(&self) -> Self::V {
        self.model@
    }
}

/// `ids` without `skip` and without any member of `drop`.
fn without(ids: &Vec<AttributeValueId>, skip: Option<AttributeValueId>, drop: &Vec<AttributeValueId>) -> (r: Vec<AttributeValueId>)
    ensures
        forall|x: AttributeValueId|
            r@.contains(x) <==> (ids@.contains(x) && skip != Some(x) && !drop@.contains(x)),
{
    let mut out: Vec<AttributeValueId> = Vec::new();
    let mut i: usize = 0;
    while i < ids.len()
        invariant
            0 <= i <= ids@.len(),
            forall|x: AttributeValueId|
                out@.contains(x) <==> (ids@.subrange(0, i as int).contains(x) && skip != Some(x)
                    && !drop@.contains(x)),
        decreases ids@.len() - i,
    {
        let x = ids[i];
        let keep = match skip {
            Some(s) => s != x,
            None => true,
        };
        if keep && !contains_id(drop, x) {
            out.push(x);
        }
        proof {
            assert(ids@.subrange(0, i + 1) == ids@.subrange(0, i as int).push(x));
        }
        i = i + 1;
    }
    proof {
        assert(ids@.subrange(0, ids@.len() as int) == ids@);
    }
    out
}

fn extend_ids(all: &mut Vec<AttributeValueId>, ids: &Vec<AttributeValueId>)
    ensures
        final(all)@ == old(all)@ + ids@,
{
    let mut i: usize = 0;
    while i < ids.len()
        invariant
            0 <= i <= ids@.len(),
            all@ == old(all)@ + ids@.subrange(0, i as int),
        decreases ids@.len() - i,
    {
        all.push(ids[i]);
        proof {
            assert(all@ =~= old(all)@ + ids@.subrange(0, i + 1));
        }
        i = i + 1;
    }
    proof {
        assert(ids@.subrange(0, ids@.len() as int) =~= ids@);
    }
}

fn copy_ids(ids: &Vec<AttributeValueId>) -> (r: Vec<AttributeValueId>)
    ensures
        r@ == ids@,
{
    let mut out: Vec<AttributeValueId> = Vec::new();
    let mut i: usize = 0;
    while i < ids.len()
        invariant
            0 <= i <= ids@.len(),
            out@ == ids@.subrange(0, i as int),
        decreases ids@.len() - i,
    {
        out.push(ids[i]);
        i = i + 1;
    }
    proof {
        assert(ids@.subrange(0, ids@.len() as int) == ids@);
    }
    out
}

impl DependencyGraph {
    /// Internal consistency of the representation with the model.
    pub closed spec fn wf(&self) -> bool {
        &&& self.nodes@.len() == self.deps@.len()
        &&& self.nodes@.no_duplicates()
        &&& forall|k: AttributeValueId| self.model@.contains_key(k) <==> self.nodes@.contains(k)
        &&& forall|i: int|
            0 <= i < self.nodes@.len() ==> self.model@[#[trigger] self.nodes@[i]]
                == self.deps@[i]@.to_set()
        &&& forall|k: AttributeValueId| #[trigger]
            self.model@.contains_key(k) ==> !self.model@[k].contains(k)
    }

    /// No node depends on itself.
    pub proof fn lemma_no_self_loop(&self, k: AttributeValueId)
        requires
            self.wf(),
            self@.contains_key(k),
        ensures
            !self@[k].contains(k),
    {
    }

    pub fn new() -> (g: Self)
        ensures
            g.wf(),
            g@ == Map::<AttributeValueId, Set<AttributeValueId>>::empty(),
    {
        DependencyGraph { nodes: Vec::new(), deps: Vec::new(), model: Ghost(Map::empty()) }
    }

    fn index_of(&self, node: AttributeValueId) -> (r: Option<usize>)
        requires
            self.wf(),
        ensures
            match r {
                Some(i) => i < self.nodes@.len() && self.nodes@[i as int] == node,
                None => !self.nodes@.contains(node),
            },
    {
        let mut i: usize = 0;
        while i < self.nodes.len()
            invariant
                0 <= i <= self.nodes@.len(),
                forall|j: int| 0 <= j < i ==> self.nodes@[j] != node,
            decreases self.nodes@.len() - i,
        {
            if self.nodes[i] == node {
                return Some(i);
            }
            i = i + 1;
        }
        None
    }

    /// Whether `node` is a key of the graph.
    pub fn contains(&self, node: AttributeValueId) -> (r: bool)
        requires
            self.wf(),
        ensures
            r == self@.contains_key(node),
    {
        self.index_of(node).is_some()
    }

    /// A second graph with the same nodes and dependencies.
    pub fn copy(&self) -> (r: Self)
        requires
            self.wf(),
        ensures
            r.wf(),
            r@ == self@,
    {
        let mut deps: Vec<Vec<AttributeValueId>> = Vec::new();
        let mut i: usize = 0;
        while i < self.deps.len()
            invariant
                0 <= i <= self.deps@.len(),
                deps@.len() == i,
                forall|j: int| 0 <= j < i ==> (#[trigger] deps@[j])@ == self.deps@[j]@,
            decreases self.deps@.len() - i,
        {
            deps.push(copy_ids(&self.deps[i]));
            i = i + 1;
        }
        DependencyGraph { nodes: copy_ids(&self.nodes), deps, model: Ghost(self.model@) }
    }

    /// The dependencies of `node`, when it is a key of the graph.
    pub fn dependencies(&self, node: AttributeValueId) -> (r: Option<Vec<AttributeValueId>>)
        requires
            self.wf(),
        ensures
            r is Some <==> self@.contains_key(node),
            r matches Some(v) ==> v@.to_set() == self@[node],
    {
        match self.index_of(node) {
            Some(i) => Some(copy_ids(&self.deps[i])),
            None => None,
        }
    }

    /// Number of nodes that are keys of the graph.
    pub fn len(&self) -> (r: usize)
        requires
            self.wf(),
        ensures
            r == self@.dom().len(),
    {
        proof {
            assert(self@.dom() =~= self.nodes@.to_set());
            self.nodes@.unique_seq_to_set();
        }
        self.nodes.len()
    }

    pub fn is_empty(&self) -> (r: bool)
        requires
            self.wf(),
        ensures
            r == (self@ == Map::<AttributeValueId, Set<AttributeValueId>>::empty()),
    {
        if self.nodes.len() == 0 {
            assert(self@ =~= Map::<AttributeValueId, Set<AttributeValueId>>::empty());
            true
        } else {
            assert(self@.contains_key(self.nodes@[0]));
            false
        }
    }

    /// Sets the dependencies of `node`; a node is never recorded as depending on itself.
    pub fn insert(&mut self, node: AttributeValueId, dependencies: &Vec<AttributeValueId>)
        requires
            old(self).wf(),
        ensures
            final(self).wf(),
            final(self)@ == old(self)@.insert(node, dependencies@.to_set().remove(node)),
    {
        let empty: Vec<AttributeValueId> = Vec::new();
        let list = without(dependencies, Some(node), &empty);
        let ghost set = dependencies@.to_set().remove(node);
        assert(list@.to_set() =~= set);
        match self.index_of(node) {
            Some(i) => {
                self.deps.set(i, list);
            },
            None => {
                self.nodes.push(node);
                self.deps.push(list);
            },
        }
        self.model = Ghost(self.model@.insert(node, set));
        assert forall|i: int| 0 <= i < self.nodes@.len() implies self.model@[#[trigger] self.nodes@[i]]
            == self.deps@[i]@.to_set() by {
            if self.nodes@[i] != node {
                assert(old(self).nodes@[i] == self.nodes@[i]);
            }
        }
        assert(self.nodes@.no_duplicates());
    }

    /// Takes `node` out of the graph; a node that is not in it leaves the graph as it is.
    pub fn remove(&mut self, node: AttributeValueId) -> (r: bool)
        requires
            old(self).wf(),
        ensures
            final(self).wf(),
            final(self)@ == old(self)@.remove(node),
            r == old(self)@.contains_key(node),
    {
        match self.index_of(node) {
            Some(i) => {
                self.nodes.remove(i);
                self.deps.remove(i);
                self.model = Ghost(self.model@.remove(node));
                assert forall|k: AttributeValueId| self.model@.contains_key(k) <==> self.nodes@.contains(k) by {
                    if self.nodes@.contains(k) {
                        let j = choose|j: int| 0 <= j < self.nodes@.len() && self.nodes@[j] == k;
                        if j < i {
                            assert(old(self).nodes@[j] == k);
                        } else {
                            assert(old(self).nodes@[j + 1] == k);
                        }
                    }
                    if old(self).nodes@.contains(k) && k != node {
                        let j = choose|j: int| 0 <= j < old(self).nodes@.len() && old(self).nodes@[j] == k;
                        if j < i {
                            assert(self.nodes@[j] == k);
                        } else {
                            assert(self.nodes@[j - 1] == k);
                        }
                    }
                }
                assert forall|j: int| 0 <= j < self.nodes@.len() implies self.model@[#[trigger] self.nodes@[j]]
                    == self.deps@[j]@.to_set() by {
                    if j < i {
                        assert(old(self).nodes@[j] == self.nodes@[j]);
                    } else {
                        assert(old(self).nodes@[j + 1] == self.nodes@[j]);
                    }
                }
                true
            },
            None => {
                assert(self.model@.remove(node) =~= self.model@);
                false
            },
        }
    }

    /// Takes every member of `satisfied` out of each dependency list and out of the keys; a
    /// node whose list becomes empty stays, waiting for nothing.
    pub fn remove_satisfied(&mut self, satisfied: &Vec<AttributeValueId>)
        requires
            old(self).wf(),
        ensures
            final(self).wf(),
            final(self)@ == pruned(old(self)@, satisfied@.to_set()),
    {
        let ghost done = satisfied@.to_set();
        let ghost target = pruned(self@, done);
        let mut nodes: Vec<AttributeValueId> = Vec::new();
        let mut deps: Vec<Vec<AttributeValueId>> = Vec::new();
        let ghost mut model: Map<AttributeValueId, Set<AttributeValueId>> = Map::empty();
        let mut i: usize = 0;
        while i < self.nodes.len()
            invariant
                self.wf(),
                0 <= i <= self.nodes@.len(),
                target == pruned(self@, done),
                done == satisfied@.to_set(),
                nodes@.len() == deps@.len(),
                nodes@.no_duplicates(),
                forall|k: AttributeValueId| nodes@.contains(k) ==> self.nodes@.subrange(0, i as int).contains(k),
                forall|k: AttributeValueId| model.contains_key(k) <==> nodes@.contains(k),
                forall|k: AttributeValueId| #[trigger] model.contains_key(k) ==> target.contains_key(k) && model[k] == target[k],
                forall|j: int| 0 <= j < i ==> (#[trigger] target.contains_key(self.nodes@[j]) ==> model.contains_key(self.nodes@[j])),
                forall|j: int| 0 <= j < nodes@.len() ==> model[#[trigger] nodes@[j]] == deps@[j]@.to_set(),
            decreases self.nodes@.len() - i,
        {
            let k = self.nodes[i];
            let list = without(&self.deps[i], None, satisfied);
            proof {
                assert(self@[self.nodes@[i as int]] == self.deps@[i as int]@.to_set());
                assert forall|x: AttributeValueId| list@.to_set().contains(x) <==> self@[k].difference(done).contains(x) by {
                    assert(self.deps@[i as int]@.to_set().contains(x) <==> self.deps@[i as int]@.contains(x));
                    assert(done.contains(x) <==> satisfied@.contains(x));
                }
                assert(list@.to_set() =~= self@[k].difference(done));
            }
            if !contains_id(satisfied, k) {
                proof {
                    assert(target.contains_key(k));
                    assert(!nodes@.contains(k)) by {
                        if nodes@.contains(k) {
                            let j = choose|j: int| 0 <= j < i && self.nodes@[j] == k;
                            assert(self.nodes@[j] == self.nodes@[i as int]);
                        }
                    }
                }
                nodes.push(k);
                deps.push(list);
                proof {
                    model = model.insert(k, target[k]);
                    assert forall|j: int| 0 <= j < nodes@.len() implies model[#[trigger] nodes@[j]] == deps@[j]@.to_set() by {
                        if j < nodes@.len() - 1 {
                            assert(nodes@[j] != k);
                        }
                    }
                }
            } else {
                proof {
                    assert(!target.contains_key(k));
                }
            }
            proof {
                assert(self.nodes@.subrange(0, i + 1) == self.nodes@.subrange(0, i as int).push(k));
            }
            i = i + 1;
        }
        proof {
            assert(self.nodes@.subrange(0, self.nodes@.len() as int) == self.nodes@);
            assert forall|k: AttributeValueId| #[trigger] target.contains_key(k) implies model.contains_key(k) by {
                assert(self.nodes@.contains(k));
                let j = choose|j: int| 0 <= j < self.nodes@.len() && self.nodes@[j] == k;
                assert(target.contains_key(self.nodes@[j]));
            }
            assert(model =~= target);
        }
        self.nodes = nodes;
        self.deps = deps;
        self.model = Ghost(model);
    }

    /// Every node that the graph refers to, as a node or as a dependency, each once.
    pub fn referenced_nodes(&self) -> (r: Vec<AttributeValueId>)
        requires
            self.wf(),
        ensures
            r@.no_duplicates(),
            r@.to_set() == referenced_set(self@),
    {
        let mut all: Vec<AttributeValueId> = Vec::new();
        let mut i: usize = 0;
        while i < self.nodes.len()
            invariant
                self.wf(),
                0 <= i <= self.nodes@.len(),
                forall|x: AttributeValueId| all@.contains(x) <==> exists|j: int| 0 <= j < i && (
                    #[trigger] self.nodes@[j] == x || self.deps@[j]@.contains(x)),
            decreases self.nodes@.len() - i,
        {
            let ghost before = all@;
            all.push(self.nodes[i]);
            extend_ids(&mut all, &self.deps[i]);
            proof {
                assert forall|x: AttributeValueId| all@.contains(x) <==> exists|j: int| 0 <= j < i + 1 && (
                    #[trigger] self.nodes@[j] == x || self.deps@[j]@.contains(x)) by {
                    if all@.contains(x) && !before.contains(x) {
                        assert(before.push(self.nodes@[i as int]).contains(x) || self.deps@[i as int]@.contains(x));
                        assert(self.nodes@[i as int] == x || self.deps@[i as int]@.contains(x));
                    }
                    if exists|j: int| 0 <= j < i + 1 && (#[trigger] self.nodes@[j] == x || self.deps@[j]@.contains(x)) {
                        if !before.contains(x) {
                            assert(self.nodes@[i as int] == x || self.deps@[i as int]@.contains(x));
                            assert(before.push(self.nodes@[i as int]).contains(self.nodes@[i as int]));
                        }
                    }
                }
            }
            i = i + 1;
        }
        let r = dedup_ids(&all);
        proof {
            assert forall|x: AttributeValueId| #[trigger] r@.to_set().contains(x) <==> referenced(self@, x) by {
                if all@.contains(x) {
                    assert(exists|j: int| 0 <= j < self.nodes@.len() && (#[trigger] self.nodes@[j] == x || self.deps@[j]@.contains(x)));
                    let j = choose|j: int| 0 <= j < self.nodes@.len() && (#[trigger] self.nodes@[j] == x || self.deps@[j]@.contains(x));
                    assert(self@[self.nodes@[j]] == self.deps@[j]@.to_set());
                    if self.nodes@[j] != x {
                        assert(self@.contains_key(self.nodes@[j]) && self@[self.nodes@[j]].contains(x));
                    }
                }
                if referenced(self@, x) {
                    if self@.contains_key(x) {
                        let j = choose|j: int| 0 <= j < self.nodes@.len() && self.nodes@[j] == x;
                        assert(self.nodes@[j] == x);
                    } else {
                        let k = choose|k: AttributeValueId| #[trigger] self@.contains_key(k) && self@[k].contains(x);
                        let j = choose|j: int| 0 <= j < self.nodes@.len() && self.nodes@[j] == k;
                        assert(self@[self.nodes@[j]] == self.deps@[j]@.to_set());
                        assert(self.deps@[j]@.contains(x));
                    }
                }
            }
            assert(r@.to_set() =~= referenced_set(self@));
        }
        r
    }

    /// The nodes with their dependency lists, in the order in which the nodes were inserted.
    pub fn entries(&self) -> (r: Vec<GraphEntry>)
        requires
            self.wf(),
        ensures
            r@.len() == self@.dom().len(),
            forall|i: int| 0 <= i < r@.len() ==> self@.contains_key(#[trigger] r@[i].node)
                && r@[i].dependencies@.to_set() == self@[r@[i].node],
            forall|k: AttributeValueId| #[trigger] self@.contains_key(k) ==> exists|i: int| 0 <= i < r@.len() && r@[i].node == k,
    {
        let mut out: Vec<GraphEntry> = Vec::new();
        let mut i: usize = 0;
        while i < self.nodes.len()
            invariant
                self.wf(),
                0 <= i <= self.nodes@.len(),
                out@.len() == i,
                forall|j: int| 0 <= j < i ==> (#[trigger] out@[j]).node == self.nodes@[j]
                    && out@[j].dependencies@ == self.deps@[j]@,
            decreases self.nodes@.len() - i,
        {
            out.push(GraphEntry { node: self.nodes[i], dependencies: copy_ids(&self.deps[i]) });
            i = i + 1;
        }
        proof {
            assert(self@.dom() =~= self.nodes@.to_set());
            self.nodes@.unique_seq_to_set();
            assert forall|i: int| 0 <= i < out@.len() implies self@.contains_key(#[trigger] out@[i].node)
                && out@[i].dependencies@.to_set() == self@[out@[i].node] by {
                assert(out@[i].node == self.nodes@[i]);
                assert(self.nodes@.contains(self.nodes@[i]));
            }
            assert forall|k: AttributeValueId| #[trigger] self@.contains_key(k) implies exists|i: int| 0 <= i < out@.len() && out@[i].node == k by {
                let j = choose|j: int| 0 <= j < self.nodes@.len() && self.nodes@[j] == k;
                assert(out@[j].node == k);
            }
        }
        out
    }
}

} // verus!
