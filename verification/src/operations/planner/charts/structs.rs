use vstd::prelude::*;
use crate::operations::executer::types::OperationTypes;

verus! {

/// A value an operation works on: a single number, a vector or a matrix given
/// by rows. The number type is left to the caller.
pub enum Numeric<T> {
    Scaler(T),
    Vector(Vec<T>),
    Matrix(Vec<Vec<T>>),
}

/// What a step carries besides its operands.
pub struct ExtraInfo<T> {
    /// Where the step's result goes in the final matrix or list.
    pub res_pos: Option<Vec<usize>>,
    /// The shape of the final output.
    pub res_type: Option<Numeric<T>>,
    /// A number the gathering needs, such as how many elements a partial
    /// average covers.
    pub helper_number: Option<Numeric<T>>,
    /// A name the operation needs, such as the direction of an ordering.
    pub helper_string: Option<String>,
}

/// One unit of work of an operation, executed on one node.
pub struct Steps<T> {
    pub node_id: String,
    pub operation_id: String,
    pub step_id: String,
    pub x: Option<Numeric<T>>,
    pub y: Option<Numeric<T>>,
    pub op_type: OperationTypes,
    pub result: Option<Numeric<T>>,
    pub next_step: Option<String>,
    pub prev_step: Option<String>,
    /// When set, the previous step's result stands in for `x`.
    pub use_prev_res: bool,
    pub extra_info: Option<ExtraInfo<T>>,
}

/// Names one step of one operation.
pub struct OperationInfo {
    pub operation_id: String,
    pub step_id: String,
}

impl View for OperationInfo {
    type V = (Seq<char>, Seq<char>);

    open spec fn view(&self) -> (Seq<char>, Seq<char>) {
        (self.operation_id@, self.step_id@)
    }
}

impl OperationInfo {
    /// A copy of the step name.
    pub fn duplicate(&self) -> (copy: OperationInfo)
        ensures
            copy == *self,
    {
        OperationInfo { operation_id: self.operation_id.clone(), step_id: self.step_id.clone() }
    }
}

/// A copy of a list of step names.
pub fn duplicate_infos(v: &Vec<OperationInfo>) -> (copy: Vec<OperationInfo>)
    ensures
        copy@ == v@,
{
    let mut copy: Vec<OperationInfo> = Vec::new();
    let mut i: usize = 0;
    while i < v.len()
        invariant
            i <= v@.len(),
            copy@ == v@.take(i as int),
        decreases v@.len() - i,
    {
        copy.push(v[i].duplicate());
        i += 1;
        assert(copy@ =~= v@.take(i as int));
    }
    assert(v@.take(v@.len() as int) =~= v@);
    copy
}

/// The views of a list of step names.
pub open spec fn infos_view(v: Seq<OperationInfo>) -> Seq<(Seq<char>, Seq<char>)> {
    v.map_values(|i: OperationInfo| i@)
}

/// A step handed to a node: the node's id, then the operation and step ids.
pub type DutyView = (Seq<char>, (Seq<char>, Seq<char>));

/// The step names handed to node `k`, in the order of `a`.
pub open spec fn values_for(a: Seq<DutyView>, k: Seq<char>) -> Seq<(Seq<char>, Seq<char>)>
    decreases a.len(),
{
    if a.len() == 0 {
        Seq::empty()
    } else {
        let prefix = values_for(a.drop_last(), k);
        if a.last().0 == k {
            prefix.push(a.last().1)
        } else {
            prefix
        }
    }
}

/// The duties of each node that `a` hands a step to.
pub open spec fn groups(a: Seq<DutyView>) -> Map<Seq<char>, Seq<(Seq<char>, Seq<char>)>> {
    Map::new(
        |k: Seq<char>| exists|i: int| 0 <= i < a.len() && #[trigger] a[i].0 == k,
        |k: Seq<char>| values_for(a, k),
    )
}

/// A node that `a` hands nothing gets no duties from it.
pub proof fn lemma_values_for_absent(a: Seq<DutyView>, k: Seq<char>)
    requires
        forall|i: int| 0 <= i < a.len() ==> #[trigger] a[i].0 != k,
    ensures
        values_for(a, k) == Seq::<(Seq<char>, Seq<char>)>::empty(),
    decreases a.len(),
{
    if a.len() > 0 {
        assert forall|i: int| 0 <= i < a.drop_last().len() implies #[trigger] a.drop_last()[i].0 != k by {
            assert(a.drop_last()[i] == a[i]);
        }
        lemma_values_for_absent(a.drop_last(), k);
    }
}

/// Handing one more step to a node appends it to that node's duties.
pub proof fn lemma_groups_push(a: Seq<DutyView>, p: DutyView)
    ensures
        groups(a.push(p)) == groups(a).insert(p.0, values_for(a, p.0).push(p.1)),
{
    let b = a.push(p);
    assert(b.drop_last() =~= a);
    assert forall|k: Seq<char>| #[trigger] groups(b).contains_key(k) == groups(a).insert(p.0, values_for(a, p.0).push(p.1)).contains_key(k) by {
        if exists|i: int| 0 <= i < a.len() && #[trigger] a[i].0 == k {
            let i = choose|i: int| 0 <= i < a.len() && #[trigger] a[i].0 == k;
            assert(b[i].0 == k);
        }
        if k == p.0 {
            assert(b[a.len() as int].0 == k);
        }
        if exists|i: int| 0 <= i < b.len() && #[trigger] b[i].0 == k {
            let i = choose|i: int| 0 <= i < b.len() && #[trigger] b[i].0 == k;
            if i < a.len() {
                assert(a[i].0 == k);
            }
        }
    }
    assert(groups(b) =~= groups(a).insert(p.0, values_for(a, p.0).push(p.1)));
}

/// The duties `a` followed by `b` hand node `k` the steps `a` hands it, then
/// those `b` hands it.
pub proof fn lemma_values_for_concat(a: Seq<DutyView>, b: Seq<DutyView>, k: Seq<char>)
    ensures
        values_for(a + b, k) == values_for(a, k) + values_for(b, k),
    decreases b.len(),
{
    if b.len() == 0 {
        assert(a + b =~= a);
        assert(values_for(a, k) + values_for(b, k) =~= values_for(a, k));
    } else {
        assert((a + b).drop_last() =~= a + b.drop_last());
        assert((a + b).last() == b.last());
        lemma_values_for_concat(a, b.drop_last(), k);
        if b.last().0 == k {
            assert(values_for(a, k) + values_for(b.drop_last(), k).push(b.last().1) =~= (values_for(a, k)
                + values_for(b.drop_last(), k)).push(b.last().1));
        }
    }
}

/// `values_for(a, k)` is empty exactly when `a` hands `k` nothing.
pub proof fn lemma_values_for_nonempty(a: Seq<DutyView>, k: Seq<char>)
    ensures
        values_for(a, k).len() > 0 <==> exists|i: int| 0 <= i < a.len() && #[trigger] a[i].0 == k,
    decreases a.len(),
{
    if a.len() > 0 {
        lemma_values_for_nonempty(a.drop_last(), k);
        if exists|i: int| 0 <= i < a.drop_last().len() && #[trigger] a.drop_last()[i].0 == k {
            let i = choose|i: int| 0 <= i < a.drop_last().len() && #[trigger] a.drop_last()[i].0 == k;
            assert(a[i].0 == k);
        }
        if exists|i: int| 0 <= i < a.len() && #[trigger] a[i].0 == k {
            let i = choose|i: int| 0 <= i < a.len() && #[trigger] a[i].0 == k;
            if i < a.len() - 1 {
                assert(a.drop_last()[i].0 == k);
            }
        }
    }
}

/// The steps assigned to one node, in the order they were assigned.
pub struct NodeDuties {
    pub node_id: String,
    pub duties: Vec<OperationInfo>,
}

/// The duties of one node's list, in order.
pub open spec fn node_block(d: NodeDuties) -> Seq<DutyView> {
    d.duties@.map_values(|i: OperationInfo| (d.node_id@, i@))
}

/// Every duty of every node, node after node.
pub open spec fn flatten_duties(entries: Seq<NodeDuties>) -> Seq<DutyView>
    decreases entries.len(),
{
    if entries.len() == 0 {
        Seq::empty()
    } else {
        flatten_duties(entries.drop_last()) + node_block(entries.last())
    }
}

/// A node's list of duties hands that node its duties and no other node any.
pub proof fn lemma_values_for_block(d: NodeDuties, k: Seq<char>)
    ensures
        values_for(node_block(d), k) == if k == d.node_id@ {
            infos_view(d.duties@)
        } else {
            Seq::<(Seq<char>, Seq<char>)>::empty()
        },
{
    lemma_values_for_block_seq(d.node_id@, d.duties@, k);
}

/// The duties `infos` all handed to `node` give `node` those duties.
pub proof fn lemma_values_for_block_seq(node: Seq<char>, infos: Seq<OperationInfo>, k: Seq<char>)
    ensures
        values_for(infos.map_values(|i: OperationInfo| (node, i@)), k) == if k == node {
            infos_view(infos)
        } else {
            Seq::<(Seq<char>, Seq<char>)>::empty()
        },
    decreases infos.len(),
{
    let b = infos.map_values(|i: OperationInfo| (node, i@));
    if infos.len() > 0 {
        assert(b.drop_last() =~= infos.drop_last().map_values(|i: OperationInfo| (node, i@)));
        lemma_values_for_block_seq(node, infos.drop_last(), k);
        assert(infos_view(infos) =~= infos_view(infos.drop_last()).push(infos.last()@));
    } else {
        assert(b =~= Seq::<DutyView>::empty());
        assert(infos_view(infos) =~= Seq::<(Seq<char>, Seq<char>)>::empty());
    }
}

/// The duties of every node taking part in an operation: a map from node id
/// to the steps that node runs, kept in the order the nodes first appeared.
pub struct NodesOpsMsg {
    pub nodes_duties: Vec<NodeDuties>,
}

impl NodesOpsMsg {
    /// No node appears twice.
    pub open spec fn wf(&self) -> bool {
        forall|i: int, j: int|
            0 <= i < j < self.nodes_duties@.len() ==> #[trigger] self.nodes_duties@[i].node_id@
                != #[trigger] self.nodes_duties@[j].node_id@
    }

    /// The node ids, in the order the nodes first received a duty.
    pub open spec fn node_order(&self) -> Seq<Seq<char>> {
        self.nodes_duties@.map_values(|d: NodeDuties| d.node_id@)
    }

    /// Whether `node` has an entry.
    pub open spec fn has_node(&self, node: Seq<char>) -> bool {
        exists|i: int| 0 <= i < self.nodes_duties@.len() && #[trigger] self.nodes_duties@[i].node_id@ == node
    }

    /// The duties of `node`; empty for a node that has none.
    pub open spec fn duties_of(&self, node: Seq<char>) -> Seq<(Seq<char>, Seq<char>)> {
        if self.has_node(node) {
            let i = choose|i: int| 0 <= i < self.nodes_duties@.len() && #[trigger] self.nodes_duties@[i].node_id@ == node;
            infos_view(self.nodes_duties@[i].duties@)
        } else {
            Seq::empty()
        }
    }

    /// The node at position `i` is listed, with the duties of its entry.
    pub proof fn lemma_duties_at(&self, i: int)
        requires
            self.wf(),
            0 <= i < self.nodes_duties@.len(),
        ensures
            self.has_node(self.nodes_duties@[i].node_id@),
            self.duties_of(self.nodes_duties@[i].node_id@) == infos_view(self.nodes_duties@[i].duties@),
    {
        let node = self.nodes_duties@[i].node_id@;
        assert(self.has_node(node));
        let j = choose|j: int| 0 <= j < self.nodes_duties@.len() && #[trigger] self.nodes_duties@[j].node_id@ == node;
        if j != i {
            if j < i {
                assert(self.nodes_duties@[j].node_id@ != self.nodes_duties@[i].node_id@);
            } else {
                assert(self.nodes_duties@[i].node_id@ != self.nodes_duties@[j].node_id@);
            }
        }
    }

    /// When the duties are those that `a` hands out, the duties of each node
    /// are the steps `a` hands that node.
    pub proof fn lemma_duties_of_groups(&self, a: Seq<DutyView>, k: Seq<char>)
        requires
            self.wf(),
            self@ == groups(a),
        ensures
            self.duties_of(k) == values_for(a, k),
    {
        if self.has_node(k) {
            assert(self@.contains_key(k));
            assert(self@[k] == self.duties_of(k));
            assert(groups(a).contains_key(k));
            assert(groups(a)[k] == values_for(a, k));
        } else {
            assert(!self@.contains_key(k));
            assert(!groups(a).contains_key(k));
            lemma_values_for_absent(a, k);
        }
    }

    /// Appends the duty `(node_id, info)` to a message that holds the duties
    /// handed out by `a`, which then holds those of `a` followed by it.
    pub proof fn lemma_add_duty_groups(
        old_msg: NodesOpsMsg,
        new_msg: NodesOpsMsg,
        a: Seq<DutyView>,
        p: DutyView,
    )
        requires
            old_msg.wf(),
            old_msg@ == groups(a),
            new_msg@ == old_msg@.insert(p.0, old_msg.duties_of(p.0).push(p.1)),
        ensures
            new_msg@ == groups(a.push(p)),
    {
        old_msg.lemma_duties_of_groups(a, p.0);
        lemma_groups_push(a, p);
    }

    /// Every node listed has at least one duty.
    pub open spec fn no_empty_lists(&self) -> bool {
        forall|i: int| 0 <= i < self.nodes_duties@.len() ==> #[trigger] self.nodes_duties@[i].duties@.len() > 0
    }

    /// The duties of the first `i` nodes, laid out node after node, hand
    /// each of those nodes its own list and every other node nothing.
    pub proof fn lemma_flatten_prefix(&self, i: int, k: Seq<char>)
        requires
            self.wf(),
            0 <= i <= self.nodes_duties@.len(),
        ensures
            forall|j: int|
                0 <= j < i && #[trigger] self.nodes_duties@[j].node_id@ == k ==> values_for(
                    flatten_duties(self.nodes_duties@.take(i)),
                    k,
                ) == infos_view(self.nodes_duties@[j].duties@),
            (forall|j: int| 0 <= j < i ==> #[trigger] self.nodes_duties@[j].node_id@ != k) ==> values_for(
                flatten_duties(self.nodes_duties@.take(i)),
                k,
            ) == Seq::<(Seq<char>, Seq<char>)>::empty(),
        decreases i,
    {
        let e = self.nodes_duties@;
        if i == 0 {
            assert(e.take(0) =~= Seq::<NodeDuties>::empty());
        } else {
            self.lemma_flatten_prefix(i - 1, k);
            assert(e.take(i).drop_last() =~= e.take(i - 1));
            assert(e.take(i).last() == e[i - 1]);
            let f = flatten_duties(e.take(i - 1));
            lemma_values_for_concat(f, node_block(e[i - 1]), k);
            lemma_values_for_block(e[i - 1], k);
            if e[i - 1].node_id@ == k {
                assert forall|j: int| 0 <= j < i - 1 implies #[trigger] e[j].node_id@ != k by {
                    assert(e[j].node_id@ != e[i - 1].node_id@);
                }
                assert(Seq::<(Seq<char>, Seq<char>)>::empty() + infos_view(e[i - 1].duties@) =~= infos_view(
                    e[i - 1].duties@,
                ));
                assert forall|j: int| 0 <= j < i && #[trigger] e[j].node_id@ == k implies values_for(
                    flatten_duties(e.take(i)),
                    k,
                ) == infos_view(e[j].duties@) by {
                    if j < i - 1 {
                        assert(e[j].node_id@ != e[i - 1].node_id@);
                    }
                }
            } else {
                assert(values_for(f, k) + Seq::<(Seq<char>, Seq<char>)>::empty() =~= values_for(f, k));
            }
        }
    }

    /// Laying the duties out node after node and grouping them by node again
    /// gives back the same duties, provided no node has an empty list.
    pub proof fn lemma_flatten_groups(&self)
        requires
            self.wf(),
            self.no_empty_lists(),
        ensures
            groups(flatten_duties(self.nodes_duties@)) == self@,
    {
        let e = self.nodes_duties@;
        let f = flatten_duties(e);
        assert(e.take(e.len() as int) =~= e);
        assert forall|k: Seq<char>| #[trigger] groups(f).contains_key(k) == self@.contains_key(k) by {
            self.lemma_flatten_prefix(e.len() as int, k);
            lemma_values_for_nonempty(f, k);
            if self.has_node(k) {
                let j = choose|j: int| 0 <= j < e.len() && #[trigger] e[j].node_id@ == k;
                assert(e[j].duties@.len() > 0);
                assert(infos_view(e[j].duties@).len() > 0);
            }
        }
        assert forall|k: Seq<char>| #[trigger] self@.contains_key(k) implies groups(f)[k] == self@[k] by {
            self.lemma_flatten_prefix(e.len() as int, k);
            let j = choose|j: int| 0 <= j < e.len() && #[trigger] e[j].node_id@ == k;
            self.lemma_duties_at(j);
            assert(values_for(f, k) == infos_view(e[j].duties@));
            assert(groups(f).contains_key(k));
            assert(groups(f)[k] == values_for(f, k));
            assert(self@[k] == self.duties_of(k));
        }
        assert(groups(f) =~= self@);
    }

    /// A message with no duties.
    pub fn new() -> (msg: NodesOpsMsg)
        ensures
            msg.wf(),
            msg.no_empty_lists(),
            msg@ == Map::<Seq<char>, Seq<(Seq<char>, Seq<char>)>>::empty(),
            msg.node_order() == Seq::<Seq<char>>::empty(),
    {
        let msg = NodesOpsMsg { nodes_duties: Vec::new() };
        assert(msg@ =~= Map::<Seq<char>, Seq<(Seq<char>, Seq<char>)>>::empty());
        assert(msg.node_order() =~= Seq::<Seq<char>>::empty());
        msg
    }

    /// The position of `node_id` among the nodes, if it has duties.
    pub fn find_node(&self, node_id: &String) -> (idx: Option<usize>)
        requires
            self.wf(),
        ensures
            match idx {
                Some(i) => i < self.nodes_duties@.len() && self.nodes_duties@[i as int].node_id@ == node_id@,
                None => !self.has_node(node_id@),
            },
    {
        let mut i: usize = 0;
        while i < self.nodes_duties.len()
            invariant
                i <= self.nodes_duties@.len(),
                forall|j: int| 0 <= j < i ==> #[trigger] self.nodes_duties@[j].node_id@ != node_id@,
            decreases self.nodes_duties@.len() - i,
        {
            if self.nodes_duties[i].node_id == *node_id {
                return Some(i);
            }
            i += 1;
        }
        None
    }

    /// The duties assigned to `node_id`, if it has any.
    pub fn get(&self, node_id: &String) -> (duties: Option<&Vec<OperationInfo>>)
        requires
            self.wf(),
        ensures
            match duties {
                Some(v) => self@.contains_key(node_id@) && infos_view(v@) == self@[node_id@],
                None => !self@.contains_key(node_id@),
            },
    {
        match self.find_node(node_id) {
            Some(i) => {
                proof { self.lemma_duties_at(i as int); }
                Some(&self.nodes_duties[i].duties)
            },
            None => None,
        }
    }

    /// Appends a duty to the list of `node_id`, giving the node a list of its
    /// own if it had none.
    pub fn add_duty(&mut self, node_id: String, info: OperationInfo)
        requires
            old(self).wf(),
        ensures
            final(self).wf(),
            old(self).no_empty_lists() ==> final(self).no_empty_lists(),
            final(self)@ == old(self)@.insert(node_id@, old(self).duties_of(node_id@).push(info@)),
            final(self).node_order() == if old(self).has_node(node_id@) {
                old(self).node_order()
            } else {
                old(self).node_order().push(node_id@)
            },
    {
        let ghost info_v = info@;
        let ghost old_self = *self;
        match self.find_node(&node_id) {
            Some(i) => {
                proof { old_self.lemma_duties_at(i as int); }
                self.nodes_duties[i].duties.push(info);
                proof {
                    assert forall|k: int| 0 <= k < self.nodes_duties@.len() && k != i implies
                        #[trigger] self.nodes_duties@[k] == old_self.nodes_duties@[k] by {}
                    assert(self.wf());
                    self.lemma_duties_at(i as int);
                    assert(infos_view(self.nodes_duties@[i as int].duties@) =~= infos_view(old_self.nodes_duties@[i as int].duties@).push(info_v));
                    assert forall|k: Seq<char>| #[trigger] self.has_node(k) == old_self.has_node(k) by {
                        if old_self.has_node(k) {
                            let j = choose|j: int| 0 <= j < old_self.nodes_duties@.len() && #[trigger] old_self.nodes_duties@[j].node_id@ == k;
                            assert(self.nodes_duties@[j].node_id@ == k);
                        }
                        if self.has_node(k) {
                            let j = choose|j: int| 0 <= j < self.nodes_duties@.len() && #[trigger] self.nodes_duties@[j].node_id@ == k;
                            assert(old_self.nodes_duties@[j].node_id@ == k);
                        }
                    }
                    assert forall|k: Seq<char>| k != node_id@ && #[trigger] self.has_node(k) implies
                        self.duties_of(k) == old_self.duties_of(k) by {
                        let j = choose|j: int| 0 <= j < self.nodes_duties@.len() && #[trigger] self.nodes_duties@[j].node_id@ == k;
                        self.lemma_duties_at(j);
                        old_self.lemma_duties_at(j);
                    }
                    assert(self@ =~= old_self@.insert(node_id@, old_self.duties_of(node_id@).push(info_v)));
                    assert(self.node_order() =~= old_self.node_order());
                }
            },
            None => {
                let mut duties: Vec<OperationInfo> = Vec::new();
                duties.push(info);
                let ghost n = self.nodes_duties@.len();
                self.nodes_duties.push(NodeDuties { node_id, duties });
                proof {
                    assert forall|k: int| 0 <= k < n implies
                        #[trigger] self.nodes_duties@[k] == old_self.nodes_duties@[k] by {}
                    assert forall|a: int, b: int| 0 <= a < b < self.nodes_duties@.len() implies
                        #[trigger] self.nodes_duties@[a].node_id@ != #[trigger] self.nodes_duties@[b].node_id@ by {
                        if b == n {
                            assert(old_self.nodes_duties@[a].node_id@ != node_id@);
                        }
                    }
                    assert(self.wf());
                    self.lemma_duties_at(n as int);
                    assert(infos_view(self.nodes_duties@[n as int].duties@) =~= seq![info_v]);
                    assert(old_self.duties_of(node_id@) =~= Seq::<(Seq<char>, Seq<char>)>::empty());
                    assert forall|k: Seq<char>| k != node_id@ implies #[trigger] self.has_node(k) == old_self.has_node(k) by {
                        if old_self.has_node(k) {
                            let j = choose|j: int| 0 <= j < old_self.nodes_duties@.len() && #[trigger] old_self.nodes_duties@[j].node_id@ == k;
                            assert(self.nodes_duties@[j].node_id@ == k);
                        }
                        if self.has_node(k) {
                            let j = choose|j: int| 0 <= j < self.nodes_duties@.len() && #[trigger] self.nodes_duties@[j].node_id@ == k;
                            assert(j != n);
                            assert(old_self.nodes_duties@[j].node_id@ == k);
                        }
                    }
                    assert forall|k: Seq<char>| k != node_id@ && #[trigger] self.has_node(k) implies
                        self.duties_of(k) == old_self.duties_of(k) by {
                        let j = choose|j: int| 0 <= j < self.nodes_duties@.len() && #[trigger] self.nodes_duties@[j].node_id@ == k;
                        self.lemma_duties_at(j);
                        old_self.lemma_duties_at(j);
                    }
                    assert(self@ =~= old_self@.insert(node_id@, old_self.duties_of(node_id@).push(info_v)));
                    assert(self.node_order() =~= old_self.node_order().push(node_id@));
                }
            },
        }
    }
}

impl View for NodesOpsMsg {
    type V = Map<Seq<char>, Seq<(Seq<char>, Seq<char>)>>;

    open spec fn view(&self) -> Self::V {
        Map::new(|k: Seq<char>| self.has_node(k), |k: Seq<char>| self.duties_of(k))
    }
}

} // verus!
