use vstd::prelude::*;
use vstd::hash_map::StringHashMap;
use crate::connections::nodes_info::NodeInfo;

verus! {

/// The nodes known to this node, by id, remembered in the order they were
/// first added.
pub struct NodesRegistry {
    nodes: StringHashMap<NodeInfo>,
    keys: Vec<String>,
}

impl View for NodesRegistry {
    type V = Map<Seq<char>, NodeInfo>;

    closed spec fn view(&self) -> Map<Seq<char>, NodeInfo> {
        self.nodes@
    }
}

impl NodesRegistry {
    /// The ids of the known nodes, in the order they were first added.
    pub closed spec fn order(&self) -> Seq<Seq<char>> {
        self.keys@.map_values(|k: String| k@)
    }

    /// Every node is listed once, under its own id.
    pub closed spec fn wf(&self) -> bool {
        &&& forall|i: int, j: int| 0 <= i < j < self.keys@.len() ==> #[trigger] self.keys@[i]@ != #[trigger] self.keys@[j]@
        &&& forall|k: Seq<char>| #[trigger] self.nodes@.contains_key(k) <==> self.order().contains(k)
        &&& forall|k: Seq<char>| #[trigger] self.nodes@.contains_key(k) ==> self.nodes@[k].id@ == k
    }

    /// The known nodes are this node alone.
    pub fn new(current: NodeInfo) -> (registry: NodesRegistry)
        ensures
            registry.wf(),
            registry@ == Map::<Seq<char>, NodeInfo>::empty().insert(current.id@, current),
            registry.order() == seq![current.id@],
    {
        let mut nodes: StringHashMap<NodeInfo> = StringHashMap::new();
        let mut keys: Vec<String> = Vec::new();
        keys.push(current.id.clone());
        let ghost cur = current;
        nodes.insert(current.id.clone(), current);
        let registry = NodesRegistry { nodes, keys };
        proof {
            assert(registry.order() =~= seq![cur.id@]);
            assert forall|k: Seq<char>| #[trigger] registry.nodes@.contains_key(k) <==> registry.order().contains(k) by {
                if k == cur.id@ {
                    assert(registry.order()[0] == k);
                }
            }
        }
        registry
    }

    /// The position of `node_id` in the order, if it is known.
    fn find(&self, node_id: &String) -> (idx: Option<usize>)
        requires
            self.wf(),
        ensures
            match idx {
                Some(i) => i < self.keys@.len() && self.keys@[i as int]@ == node_id@,
                None => !self@.contains_key(node_id@),
            },
    {
        let mut i: usize = 0;
        while i < self.keys.len()
            invariant
                i <= self.keys@.len(),
                forall|j: int| 0 <= j < i ==> #[trigger] self.keys@[j]@ != node_id@,
            decreases self.keys@.len() - i,
        {
            if self.keys[i] == *node_id {
                return Some(i);
            }
            i += 1;
        }
        proof {
            if self.order().contains(node_id@) {
                let j = choose|j: int| 0 <= j < self.order().len() && self.order()[j] == node_id@;
                assert(self.keys@[j]@ == node_id@);
            }
        }
        None
    }

    /// The node known under `node_id`, if any.
    pub fn get(&self, node_id: &str) -> (node: Option<&NodeInfo>)
        ensures
            match node {
                Some(n) => self@.contains_key(node_id@) && *n == self@[node_id@],
                None => !self@.contains_key(node_id@),
            },
    {
        self.nodes.get(node_id)
    }

    /// How many nodes are known.
    pub fn len(&self) -> (n: usize)
        requires
            self.wf(),
        ensures
            n == self.order().len(),
    {
        self.keys.len()
    }

    /// Records `node`, replacing what was known under its id; a new node goes
    /// last in the order.
    pub fn add_node(&mut self, node: NodeInfo)
        requires
            old(self).wf(),
        ensures
            final(self).wf(),
            final(self)@ == old(self)@.insert(node.id@, node),
            final(self).order() == if old(self)@.contains_key(node.id@) {
                old(self).order()
            } else {
                old(self).order().push(node.id@)
            },
    {
        let ghost n = node;
        let known = self.find(&node.id);
        if known.is_none() {
            self.keys.push(node.id.clone());
        }
        self.nodes.insert(node.id.clone(), node);
        proof {
            if known.is_none() {
                assert(self.order() =~= old(self).order().push(n.id@));
                assert forall|i: int, j: int| 0 <= i < j < self.keys@.len() implies #[trigger] self.keys@[i]@ != #[trigger] self.keys@[j]@ by {
                    if j == self.keys@.len() - 1 {
                        assert(old(self).order()[i] == self.keys@[i]@);
                        assert(!old(self).order().contains(n.id@));
                    }
                }
                assert forall|k: Seq<char>| #[trigger] self.nodes@.contains_key(k) <==> self.order().contains(k) by {
                    if k == n.id@ {
                        assert(self.order()[self.order().len() - 1] == k);
                    } else if self.order().contains(k) {
                        let j = choose|j: int| 0 <= j < self.order().len() && self.order()[j] == k;
                        assert(old(self).order()[j] == k);
                    } else if old(self).order().contains(k) {
                        let j = choose|j: int| 0 <= j < old(self).order().len() && old(self).order()[j] == k;
                        assert(self.order()[j] == k);
                    }
                }
            } else {
                let i = known.unwrap();
                assert(old(self).order()[i as int] == n.id@);
                assert(old(self).order().contains(n.id@));
                assert(old(self)@.contains_key(n.id@));
                assert(self.order() =~= old(self).order());
                assert forall|k: Seq<char>| #[trigger] self.nodes@.contains_key(k) <==> self.order().contains(k) by {
                    if k != n.id@ {
                        assert(self.nodes@.contains_key(k) == old(self).nodes@.contains_key(k));
                    }
                }
            }
        }
    }

    /// Forgets the node `node_id`; the others keep their order.
    pub fn remove_node(&mut self, node_id: &String)
        requires
            old(self).wf(),
        ensures
            final(self).wf(),
            final(self)@ == old(self)@.remove(node_id@),
            !old(self)@.contains_key(node_id@) ==> final(self).order() == old(self).order(),
            old(self)@.contains_key(node_id@) ==> exists|i: int|
                0 <= i < old(self).order().len() && old(self).order()[i] == node_id@
                    && final(self).order() == old(self).order().remove(i),
    {
        match self.find(node_id) {
            None => {
                self.nodes.remove(node_id.as_str());
                proof {
                    assert(self.nodes@ =~= old(self).nodes@.remove(node_id@));
                }
            },
            Some(i) => {
                let _ = self.keys.remove(i);
                self.nodes.remove(node_id.as_str());
                proof {
                    let o = old(self).order();
                    assert(self.order() =~= o.remove(i as int));
                    assert(o[i as int] == node_id@);
                    assert forall|a: int, b: int| 0 <= a < b < self.keys@.len() implies #[trigger] self.keys@[a]@ != #[trigger] self.keys@[b]@ by {
                        let a2 = if a < i { a } else { a + 1 };
                        let b2 = if b < i { b } else { b + 1 };
                        assert(self.keys@[a]@ == o[a2]);
                        assert(self.keys@[b]@ == o[b2]);
                        assert(old(self).keys@[a2]@ != old(self).keys@[b2]@);
                    }
                    assert forall|k: Seq<char>| #[trigger] self.nodes@.contains_key(k) <==> self.order().contains(k) by {
                        if self.order().contains(k) {
                            let j = choose|j: int| 0 <= j < self.order().len() && self.order()[j] == k;
                            let j2 = if j < i { j } else { j + 1 };
                            assert(o[j2] == k);
                            assert(old(self).keys@[j2]@ != old(self).keys@[i as int]@);
                        }
                        if self.nodes@.contains_key(k) {
                            assert(old(self).order().contains(k));
                            let j = choose|j: int| 0 <= j < o.len() && o[j] == k;
                            assert(j != i);
                            let j3 = if j < i { j } else { j - 1 };
                            assert(self.order()[j3] == k);
                        }
                    }
                }
            },
        }
    }

    /// The ids of the known nodes, in order.
    pub fn keys(&self) -> (keys: Vec<String>)
        requires
            self.wf(),
        ensures
            keys@.map_values(|k: String| k@) == self.order(),
    {
        let mut keys: Vec<String> = Vec::new();
        let mut i: usize = 0;
        while i < self.keys.len()
            invariant
                i <= self.keys@.len(),
                keys@ == self.keys@.take(i as int),
            decreases self.keys@.len() - i,
        {
            keys.push(self.keys[i].clone());
            i += 1;
            assert(keys@ =~= self.keys@.take(i as int));
        }
        assert(self.keys@.take(self.keys@.len() as int) =~= self.keys@);
        keys
    }
}

/// After a node is recorded it is known under its id; after it is forgotten
/// it is not.
pub proof fn law_add_then_remove(m: Map<Seq<char>, NodeInfo>, node: NodeInfo)
    ensures
        m.insert(node.id@, node)[node.id@] == node,
        !m.insert(node.id@, node).remove(node.id@).contains_key(node.id@),
{
}

} // verus!
