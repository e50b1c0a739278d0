use vstd::prelude::*;
use vstd::hash_map::StringHashMap;
use crate::db::entities::nodes_duties::Model as NodeDutyModel;
use crate::operations::planner::charts::structs::{
    DutyView, NodesOpsMsg, Numeric, OperationInfo, groups,
};

verus! {

/// How many steps of each operation are still running on this node.
pub struct RunningOperations {
    counts: StringHashMap<u64>,
}

impl View for RunningOperations {
    type V = Map<Seq<char>, u64>;

    closed spec fn view(&self) -> Map<Seq<char>, u64> {
        self.counts@
    }
}

/// The number of running steps of `op` (zero for an operation never seen).
pub open spec fn spec_count(m: Map<Seq<char>, u64>, op: Seq<char>) -> u64 {
    if m.contains_key(op) {
        m[op]
    } else {
        0
    }
}

/// One more step of `op` running.
pub open spec fn spec_increase(m: Map<Seq<char>, u64>, op: Seq<char>) -> Map<Seq<char>, u64> {
    m.insert(op, (spec_count(m, op) + 1) as u64)
}

/// One step of `op` fewer running; nothing changes when none runs.
pub open spec fn spec_decrease(m: Map<Seq<char>, u64>, op: Seq<char>) -> Map<Seq<char>, u64> {
    if spec_count(m, op) > 0 {
        m.insert(op, (spec_count(m, op) - 1) as u64)
    } else {
        m
    }
}

/// Whether `op` has been started here and none of its steps runs any more.
pub open spec fn spec_finished(m: Map<Seq<char>, u64>, op: Seq<char>) -> bool {
    m.contains_key(op) && m[op] == 0
}

impl RunningOperations {
    /// No operation running.
    pub fn new() -> (running: RunningOperations)
        ensures
            running@ == Map::<Seq<char>, u64>::empty(),
    {
        RunningOperations { counts: StringHashMap::new() }
    }
}

/// Records that one more step of `operation_id` started running here.
pub fn increase_running_operation(running: &mut RunningOperations, operation_id: String)
    requires
        spec_count(old(running)@, operation_id@) < u64::MAX,
    ensures
        final(running)@ == spec_increase(old(running)@, operation_id@),
{
    let num_operations = match running.counts.get(operation_id.as_str()) {
        Some(n) => *n,
        None => 0,
    };
    running.counts.insert(operation_id, num_operations + 1);
}

/// Records that one step of `operation_id` stopped running here; an
/// operation with no running step is left as it is.
pub fn decrease_running_operation(running: &mut RunningOperations, operation_id: String)
    ensures
        final(running)@ == spec_decrease(old(running)@, operation_id@),
{
    let num_operations = match running.counts.get(operation_id.as_str()) {
        Some(n) => *n,
        None => 0,
    };
    if num_operations > 0 {
        running.counts.insert(operation_id, num_operations - 1);
    }
}

/// Whether `operation_id` started here and none of its steps runs any more.
pub fn is_internal_ops_finished(running: &RunningOperations, operation_id: String) -> (finished: bool)
    ensures
        finished == spec_finished(running@, operation_id@),
{
    match running.counts.get(operation_id.as_str()) {
        Some(n) => *n == 0,
        None => false,
    }
}

/// How many steps of `operation_id` run here.
pub fn get_num_running_operations(running: &RunningOperations, operation_id: String) -> (num: u64)
    ensures
        num == spec_count(running@, operation_id@),
{
    match running.counts.get(operation_id.as_str()) {
        Some(n) => *n,
        None => 0,
    }
}

/// A step that starts and then stops leaves the count of its operation as it
/// was.
pub proof fn law_increase_then_decrease(m: Map<Seq<char>, u64>, op: Seq<char>)
    requires
        spec_count(m, op) < u64::MAX,
    ensures
        spec_count(spec_decrease(spec_increase(m, op), op), op) == spec_count(m, op),
{
}

/// Once every step that started has stopped, the operation counts as
/// finished: starting and stopping one step of an operation with none
/// running marks it finished.
pub proof fn law_balanced_is_finished(m: Map<Seq<char>, u64>, op: Seq<char>)
    requires
        spec_count(m, op) == 0,
    ensures
        spec_finished(spec_decrease(spec_increase(m, op), op), op),
{
}

/// An operation with a running step is not finished, and one never started
/// here is not finished either.
pub proof fn law_running_is_not_finished(m: Map<Seq<char>, u64>, op: Seq<char>)
    ensures
        spec_count(m, op) > 0 ==> !spec_finished(m, op),
        !m.contains_key(op) ==> !spec_finished(m, op),
{
}

/// Stopping more steps than started never goes below zero.
pub proof fn law_decrease_stops_at_zero(m: Map<Seq<char>, u64>, op: Seq<char>)
    requires
        spec_count(m, op) == 0,
    ensures
        spec_decrease(m, op) == m,
{
}

/// Counting the steps of one operation leaves the others untouched.
pub proof fn law_other_operations_untouched(m: Map<Seq<char>, u64>, op: Seq<char>, other: Seq<char>)
    requires
        op != other,
    ensures
        spec_count(spec_increase(m, op), other) == spec_count(m, other),
        spec_count(spec_decrease(m, op), other) == spec_count(m, other),
        spec_finished(spec_increase(m, op), other) == spec_finished(m, other),
        spec_finished(spec_decrease(m, op), other) == spec_finished(m, other),
{
}

/// The counts after `k` steps of `op` started, one after the other.
pub open spec fn increased_times(m: Map<Seq<char>, u64>, op: Seq<char>, k: nat) -> Map<Seq<char>, u64>
    decreases k,
{
    if k == 0 {
        m
    } else {
        spec_increase(increased_times(m, op, (k - 1) as nat), op)
    }
}

/// The counts after `j` steps of `op` stopped, one after the other.
pub open spec fn decreased_times(m: Map<Seq<char>, u64>, op: Seq<char>, j: nat) -> Map<Seq<char>, u64>
    decreases j,
{
    if j == 0 {
        m
    } else {
        spec_decrease(decreased_times(m, op, (j - 1) as nat), op)
    }
}

proof fn lemma_increased_times(m: Map<Seq<char>, u64>, op: Seq<char>, k: nat)
    requires
        spec_count(m, op) + k <= u64::MAX,
    ensures
        spec_count(increased_times(m, op, k), op) == spec_count(m, op) + k,
        k >= 1 ==> increased_times(m, op, k).contains_key(op),
    decreases k,
{
    if k > 0 {
        lemma_increased_times(m, op, (k - 1) as nat);
    }
}

proof fn lemma_decreased_times(m: Map<Seq<char>, u64>, op: Seq<char>, j: nat)
    requires
        m.contains_key(op),
        j <= spec_count(m, op),
    ensures
        decreased_times(m, op, j).contains_key(op),
        spec_count(decreased_times(m, op, j), op) == spec_count(m, op) - j,
    decreases j,
{
    if j > 0 {
        lemma_decreased_times(m, op, (j - 1) as nat);
    }
}

/// Starting `k` steps of an operation not seen before and then stopping `j`
/// of them, `j <= k`, leaves `k - j` running; the operation counts as
/// finished exactly when every step that started has stopped, and at least
/// one did start.
pub proof fn law_counts_after_starts_and_stops(m: Map<Seq<char>, u64>, op: Seq<char>, k: nat, j: nat)
    requires
        !m.contains_key(op),
        j <= k <= u64::MAX,
    ensures
        spec_count(decreased_times(increased_times(m, op, k), op, j), op) == k - j,
        spec_finished(decreased_times(increased_times(m, op, k), op, j), op) == (k >= 1 && j == k),
{
    lemma_increased_times(m, op, k);
    if k >= 1 {
        lemma_decreased_times(increased_times(m, op, k), op, j);
    } else {
        assert(decreased_times(increased_times(m, op, k), op, j) == m);
    }
}

/// The record of an operation: its result once there is one, and when it
/// was started (seconds since the Unix epoch).
pub struct OperationFile<T> {
    pub operation_id: String,
    pub result: Option<Numeric<T>>,
    pub execution_date: i64,
}

/// The duties that the recorded rows `rows` hand out for operation `op`, in
/// the order of the rows.
pub open spec fn operation_duties(rows: Seq<NodeDutyModel>, op: Seq<char>) -> Seq<DutyView>
    decreases rows.len(),
{
    if rows.len() == 0 {
        Seq::empty()
    } else {
        let prefix = operation_duties(rows.drop_last(), op);
        if rows.last().op_id@ == op {
            prefix.push(duty_of_model(rows.last()))
        } else {
            prefix
        }
    }
}

/// Decides whether an operation was planned before, from the records kept
/// about it.
pub struct PlanChecker {}

/// The duty a recorded row makes: its node, then the operation and step ids.
pub open spec fn duty_of_model(d: NodeDutyModel) -> DutyView {
    (d.node_id@, (d.op_id@, d.step_id@))
}

impl PlanChecker {
    /// An operation counts as planned before when its record exists and
    /// holds a result.
    pub fn is_planned_before<T>(operation_file: &Option<OperationFile<T>>) -> (planned: bool)
        ensures
            planned == (operation_file matches Some(op) && op.result is Some),
    {
        match operation_file {
            Some(op) => op.result.is_some(),
            None => false,
        }
    }

    /// Rebuilds the duties of an operation from the recorded duty rows: each
    /// node's steps, in the order of the rows.
    pub fn get_planned_duties_db(duties: &Vec<NodeDutyModel>) -> (msg: NodesOpsMsg)
        ensures
            msg.wf(),
            msg@ == groups(duties@.map_values(|d: NodeDutyModel| duty_of_model(d))),
    {
        let mut node_msgs = NodesOpsMsg::new();
        let ghost a = duties@.map_values(|d: NodeDutyModel| duty_of_model(d));
        assert(node_msgs@ =~= groups(a.take(0)));
        let mut i: usize = 0;
        while i < duties.len()
            invariant
                i <= duties@.len(),
                a == duties@.map_values(|d: NodeDutyModel| duty_of_model(d)),
                node_msgs.wf(),
                node_msgs@ == groups(a.take(i as int)),
            decreases duties@.len() - i,
        {
            let duty = &duties[i];
            let ops_info = OperationInfo { operation_id: duty.op_id.clone(), step_id: duty.step_id.clone() };
            let ghost old_msgs = node_msgs;
            node_msgs.add_duty(duty.node_id.clone(), ops_info);
            proof {
                assert(a.take(i + 1) =~= a.take(i as int).push(a[i as int]));
                NodesOpsMsg::lemma_add_duty_groups(old_msgs, node_msgs, a.take(i as int), a[i as int]);
            }
            i += 1;
        }
        assert(a.take(duties@.len() as int) =~= a);
        node_msgs
    }
}

/// The duties replayed for an operation are every recorded row of that
/// operation, in the order of the rows, whether or not the row was marked
/// finished: the rows of the operation, each taken as its duty.
pub proof fn law_replayed_duties_are_the_operation_rows(rows: Seq<NodeDutyModel>, op: Seq<char>)
    ensures
        operation_duties(rows, op) == rows.filter(|d: NodeDutyModel| d.op_id@ == op).map_values(
            |d: NodeDutyModel| duty_of_model(d),
        ),
    decreases rows.len(),
{
    reveal_with_fuel(Seq::filter, 2);
    if rows.len() > 0 {
        law_replayed_duties_are_the_operation_rows(rows.drop_last(), op);
        let pred = |d: NodeDutyModel| d.op_id@ == op;
        let f = rows.drop_last().filter(pred);
        if rows.last().op_id@ == op {
            assert(rows.filter(pred) == f.push(rows.last()));
            assert(f.push(rows.last()).map_values(|d: NodeDutyModel| duty_of_model(d)) =~= f.map_values(
                |d: NodeDutyModel| duty_of_model(d),
            ).push(duty_of_model(rows.last())));
        } else {
            assert(rows.filter(pred) == f);
        }
    } else {
        assert(rows.filter(|d: NodeDutyModel| d.op_id@ == op) =~= Seq::<NodeDutyModel>::empty());
    }
}

/// Marking rows finished changes nothing in what is replayed: two row lists
/// that differ only in which rows are finished replay the same duties.
pub proof fn law_replay_ignores_finished(rows: Seq<NodeDutyModel>, marked: Seq<NodeDutyModel>, op: Seq<char>)
    requires
        marked.len() == rows.len(),
        forall|i: int| 0 <= i < rows.len() ==> duty_of_model(#[trigger] marked[i]) == duty_of_model(rows[i]),
    ensures
        operation_duties(marked, op) == operation_duties(rows, op),
    decreases rows.len(),
{
    if rows.len() > 0 {
        assert(duty_of_model(marked.last()) == duty_of_model(rows.last()));
        law_replay_ignores_finished(rows.drop_last(), marked.drop_last(), op);
    }
}

} // verus!
