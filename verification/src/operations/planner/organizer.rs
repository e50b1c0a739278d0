use vstd::prelude::*;
use crate::operations::executer::types::OperationTypes;
use crate::operations::planner::charts::structs::{
    DutyView, ExtraInfo, NodesOpsMsg, Numeric, OperationInfo, Steps, groups,
};
use crate::operations::utils::util::{
    copy_column, copy_slice, get_node_id, lemma_round_robin, new_uuid_string, rows_fit_first,
    column_of, rows_view, transpose, transposed, uuid_v4_text,
};
use crate::connections::configs::topics::{TopicsEnums, topic_name};
use crate::db::entities::nodes_duties::Model;
use crate::operations::checker::{OperationFile, PlanChecker, duty_of_model, operation_duties};
use crate::router::messages::{Message, RequestsTypes};
use crate::router::post_offices::nodes_info::post_office::request_other_nodes_info;

verus! {

/// Splits an operation into steps and hands the steps out to the known nodes.
pub struct Planner {
    /// The ids of the nodes that can take steps, in the order they are used.
    pub nodes_keys: Vec<String>,
    pub operation_id: String,
}

/// The steps of an operation and the duties they make for each node.
pub struct Plan<T> {
    pub steps: Vec<Steps<T>>,
    pub nodes_ops: NodesOpsMsg,
    /// Set when at most one node is known: then the planning node runs every
    /// step itself instead of sending the steps out.
    pub execute_locally: bool,
}

/// What planning an operation gives: the duties recorded when it was planned
/// before, or a new plan.
pub enum PlanOutcome<T> {
    Replayed(NodesOpsMsg),
    Planned(Plan<T>),
}

/// Whether `record`, the stored record of an operation, says that the
/// operation was planned before: it exists and holds a result.
pub open spec fn planned_before<T>(record: Option<OperationFile<T>>) -> bool {
    record matches Some(op) && op.result is Some
}

/// The duty a step makes: its node, then its operation and step ids.
pub open spec fn duty_of<T>(s: Steps<T>) -> DutyView {
    (s.node_id@, (s.operation_id@, s.step_id@))
}

/// The duties of a list of steps, in order.
pub open spec fn duties_of_steps<T>(steps: Seq<Steps<T>>) -> Seq<DutyView> {
    steps.map_values(|s: Steps<T>| duty_of(s))
}

/// Where slice `i` of `n` entries ends when the entries are cut in pieces of
/// `s`: the last slice takes whatever is left.
pub open spec fn slice_end(i: int, s: int, n: int) -> int {
    if i * s + s < n {
        i * s + s
    } else {
        n
    }
}

/// The number of columns of the first row of `x`, or `0` for no rows.
pub open spec fn first_row_len<T>(x: Seq<Vec<T>>) -> int {
    if x.len() > 0 {
        x[0]@.len() as int
    } else {
        0
    }
}

/// The right-hand matrix as the multiplication reads it: transposed first when
/// the width of `x` differs from the number of rows of `y`.
pub open spec fn oriented<T>(x: Seq<Vec<T>>, y: Seq<Vec<T>>) -> Seq<Seq<T>> {
    if first_row_len(x) != y.len() {
        transposed(rows_view(y))
    } else {
        rows_view(y)
    }
}

/// The number of columns of `m`: the length of its first row, `0` when it
/// has no rows.
pub open spec fn product_width<T>(m: Seq<Seq<T>>) -> int {
    if m.len() > 0 {
        m[0].len() as int
    } else {
        0
    }
}

/// Entry `c` of every row of `m`.
pub open spec fn column<T>(m: Seq<Seq<T>>, c: int) -> Seq<T> {
    Seq::new(m.len(), |r: int| m[r][c])
}

/// The first `j` slices of `x` cut in pieces of `s`.
pub open spec fn average_slices<T>(x: Seq<T>, s: int, j: int) -> Seq<Seq<T>> {
    Seq::new(j as nat, |i: int| x.subrange(i * s, slice_end(i, s, x.len() as int)))
}

/// The first `j` slices laid end to end are the list up to where slice `j`
/// starts (all of it once every slice is taken).
proof fn lemma_slices_prefix<T>(x: Seq<T>, s: int, m: int, j: int)
    requires
        s >= 1,
        0 <= j <= m,
        m * s >= x.len(),
        forall|i: int| 0 <= i < m ==> #[trigger] (i * s) < x.len(),
    ensures
        average_slices(x, s, j).flatten() == x.subrange(0, if j == m { x.len() as int } else { j * s }),
    decreases j,
{
    let n = x.len() as int;
    if j == 0 {
        assert(average_slices(x, s, 0) =~= Seq::<Seq<T>>::empty());
        assert(x.subrange(0, if 0 == m { n } else { 0 * s }) =~= Seq::<T>::empty()) by {
            if 0 == m {
                assert(n <= 0) by (nonlinear_arith)
                    requires m * s >= n, m == 0;
            }
        }
    } else {
        lemma_slices_prefix(x, s, m, j - 1);
        assert(average_slices(x, s, j) =~= average_slices(x, s, j - 1).push(
            x.subrange((j - 1) * s, slice_end(j - 1, s, n)),
        ));
        average_slices(x, s, j - 1).lemma_flatten_push(x.subrange((j - 1) * s, slice_end(j - 1, s, n)));
        assert((j - 1) * s + s == j * s) by (nonlinear_arith);
        assert((j - 1) * s < n);
        if j < m {
            assert(j * s < n);
            assert(slice_end(j - 1, s, n) == j * s);
        } else {
            assert(slice_end(j - 1, s, n) == n);
        }
        assert(x.subrange(0, (j - 1) * s) + x.subrange((j - 1) * s, slice_end(j - 1, s, n)) =~= x.subrange(
            0,
            slice_end(j - 1, s, n),
        ));
    }
}

/// The slices an average plan cuts are laid end to end: together, in order,
/// they are exactly the list.
pub proof fn law_average_slices_cover<T>(x: Seq<T>, s: int, m: int)
    requires
        s >= 1,
        m >= 0,
        m * s >= x.len(),
        forall|i: int| 0 <= i < m ==> #[trigger] (i * s) < x.len(),
    ensures
        average_slices(x, s, m).flatten() == x,
{
    lemma_slices_prefix(x, s, m, m);
    assert(x.subrange(0, x.len() as int) =~= x);
}

/// The list a step works on: its first operand when that is a vector.
pub open spec fn step_data<T>(st: Steps<T>) -> Seq<T> {
    match st.x {
        Some(Numeric::Vector(v)) => v@,
        _ => Seq::empty(),
    }
}

/// How many entries each slice of an average plan of `n` entries over `k`
/// nodes takes: `n / k`, and one when that is zero.
pub open spec fn average_slice_size(n: int, k: int) -> int {
    if n / k >= 1 {
        n / k
    } else {
        1
    }
}

/// The steps of an average plan of a list over `k` nodes cover the list:
/// their lists, laid end to end in order, are exactly the list. The
/// requirements are what `Planner::plan_average` ensures of its steps.
pub proof fn law_average_plan_covers<T>(x: Seq<T>, k: int, steps: Seq<Steps<T>>)
    requires
        k >= 1,
        steps.len() * average_slice_size(x.len() as int, k) >= x.len(),
        forall|i: int|
            0 <= i < steps.len() ==> {
                let st = #[trigger] steps[i];
                &&& i * average_slice_size(x.len() as int, k) < x.len()
                &&& st.x matches Some(Numeric::Vector(v)) && v@ == x.subrange(
                    i * average_slice_size(x.len() as int, k),
                    slice_end(i, average_slice_size(x.len() as int, k), x.len() as int),
                )
            },
    ensures
        Seq::new(steps.len(), |i: int| step_data(steps[i])).flatten() == x,
{
    let n = x.len() as int;
    let s = average_slice_size(n, k);
    assert forall|i: int| 0 <= i < steps.len() implies #[trigger] (i * s) < n by {
        assert(steps[i].x is Some);
    }
    law_average_slices_cover(x, s, steps.len() as int);
    assert(Seq::new(steps.len(), |i: int| step_data(steps[i])) =~= average_slices(x, s, steps.len() as int)) by {
        assert forall|i: int| 0 <= i < steps.len() implies #[trigger] step_data(steps[i]) == x.subrange(
            i * s,
            slice_end(i, s, n),
        ) by {
            assert(steps[i].x is Some);
        }
    }
}

impl Planner {
    /// A planner for `operation_id` over the nodes named in `nodes_keys`, and
    /// the message to publish that asks the other nodes for their
    /// information, so that later plans know of them.
    pub fn new(operation_id: String, nodes_keys: Vec<String>) -> (made: (Planner, Message))
        ensures
            made.0.operation_id == operation_id,
            made.0.nodes_keys == nodes_keys,
            made.1.topic_name@ == topic_name(TopicsEnums::NodesInfo),
            made.1.request == RequestsTypes::RequestNodeInfo,
            made.1.message is None,
    {
        let request = request_other_nodes_info();
        (Planner { nodes_keys, operation_id }, request)
    }

    /// The duties of this planner's operation when it was planned before,
    /// read back from the records kept about it: `record` is the operation's
    /// stored record and `rows` the stored duty rows, of which only those of
    /// this operation are taken. `None` when the operation was not planned
    /// before, so that a new plan is to be made.
    pub fn planned_before_duties<T>(&self, record: &Option<OperationFile<T>>, rows: &Vec<Model>) -> (duties: Option<
        NodesOpsMsg,
    >)
        ensures
            match duties {
                None => !(record matches Some(op) && op.result is Some),
                Some(msg) => {
                    &&& record matches Some(op) && op.result is Some
                    &&& msg.wf()
                    &&& msg@ == groups(operation_duties(rows@, self.operation_id@))
                },
            },
    {
        if !PlanChecker::is_planned_before(record) {
            return None;
        }
        let mut own: Vec<Model> = Vec::new();
        let mut i: usize = 0;
        assert(rows@.take(0) =~= Seq::<Model>::empty());
        assert(own@.map_values(|d: Model| duty_of_model(d)) =~= Seq::<DutyView>::empty());
        while i < rows.len()
            invariant
                i <= rows@.len(),
                own@.map_values(|d: Model| duty_of_model(d)) == operation_duties(
                    rows@.take(i as int),
                    self.operation_id@,
                ),
            decreases rows@.len() - i,
        {
            let r = &rows[i];
            let ghost before = own@;
            if r.op_id == self.operation_id {
                own.push(
                    Model {
                        node_id: r.node_id.clone(),
                        op_id: r.op_id.clone(),
                        step_id: r.step_id.clone(),
                        is_finished: r.is_finished,
                    },
                );
                assert(own@.map_values(|d: Model| duty_of_model(d)) =~= before.map_values(
                    |d: Model| duty_of_model(d),
                ).push(duty_of_model(rows@[i as int])));
            }
            assert(rows@.take(i + 1).drop_last() =~= rows@.take(i as int));
            i += 1;
        }
        assert(rows@.take(rows@.len() as int) =~= rows@);
        Some(PlanChecker::get_planned_duties_db(&own))
    }

    /// What a multiplication step for position `(row, col)` holds: row `row`
    /// of `x` against column `col` of the oriented `y`, and that position for
    /// its result.
    pub open spec fn matrix_cell<T>(
        &self,
        st: Steps<T>,
        row: int,
        col: int,
        x: Seq<Vec<T>>,
        yy: Seq<Seq<T>>,
    ) -> bool {
        &&& st.operation_id == self.operation_id
        &&& uuid_v4_text(st.step_id@)
        &&& st.x matches Some(Numeric::Vector(v)) && v@ == x[row]@
        &&& st.y matches Some(Numeric::Vector(v)) && v@ == column(yy, col)
        &&& st.op_type == OperationTypes::DOT
        &&& st.result is None
        &&& !st.use_prev_res
        &&& st.extra_info matches Some(e) && {
            &&& e.res_pos matches Some(p) && p@ == seq![row as usize, col as usize]
            &&& e.res_type matches Some(Numeric::Matrix(m)) && m@.len() == 1 && m@[0]@.len() == 0
            &&& e.helper_number is None
            &&& e.helper_string is None
        }
    }

    /// What step `i` of a multiplication plan holds, with `w` steps per row of
    /// `x`: node `i % k` in round-robin order, and the position `(row, col)`
    /// with `row * w + col == i` that its result goes to.
    #[verifier::opaque]
    pub open spec fn matrix_step<T>(
        &self,
        st: Steps<T>,
        i: int,
        x: Seq<Vec<T>>,
        yy: Seq<Seq<T>>,
        w: int,
    ) -> bool {
        &&& st.node_id == self.nodes_keys@[i % (self.nodes_keys@.len() as int)]
        &&& st.extra_info matches Some(e) && e.res_pos matches Some(p) && p@.len() == 2 && {
            let row = p@[0] as int;
            let col = p@[1] as int;
            &&& row * w + col == i
            &&& 0 <= col < w
            &&& self.matrix_cell(st, row, col, x, yy)
        }
    }

    /// A step built for `(irow, icol)` on the node picked for position `i`
    /// is step `i` of the plan.
    pub proof fn lemma_matrix_step_new<T>(
        &self,
        st: Steps<T>,
        i: int,
        irow: usize,
        icol: usize,
        x: Seq<Vec<T>>,
        yy: Seq<Seq<T>>,
        w: int,
    )
        requires
            self.matrix_cell(st, irow as int, icol as int, x, yy),
            st.node_id == self.nodes_keys@[i % (self.nodes_keys@.len() as int)],
            icol < w,
            i == irow * w + icol,
        ensures
            self.matrix_step(st, i, x, yy, w),
    {
        reveal(Planner::matrix_step);
    }

    /// Changing which step comes next leaves what a step holds unchanged.
    pub proof fn lemma_matrix_step_relink<T>(
        &self,
        st: Steps<T>,
        next: Option<String>,
        i: int,
        x: Seq<Vec<T>>,
        yy: Seq<Seq<T>>,
        w: int,
    )
        requires
            self.matrix_step(st, i, x, yy, w),
        ensures
            self.matrix_step(Steps { next_step: next, ..st }, i, x, yy, w),
    {
        reveal(Planner::matrix_step);
    }

    /// Step `i` of a multiplication plan computes entry `(i / w, i % w)`.
    proof fn lemma_step_entry<T>(&self, steps: Seq<Steps<T>>, x: Seq<Vec<T>>, yy: Seq<Seq<T>>, w: int, i: int)
        requires
            w >= 0,
            steps.len() == x.len() * w,
            0 <= i < steps.len(),
            self.matrix_step(steps[i], i, x, yy, w),
        ensures
            i / w < x.len(),
            self.matrix_cell(steps[i], i / w, i % w, x, yy),
    {
        reveal(Planner::matrix_step);
        assert(w > 0) by (nonlinear_arith)
            requires
                0 <= i < steps.len(),
                steps.len() == x.len() * w,
                w >= 0,
        {
            if w == 0 {
                assert(x.len() * w == 0);
            }
        }
        let p = steps[i].extra_info->0.res_pos->0@;
        let q = p[0] as int;
        let r = p[1] as int;
        vstd::arithmetic::div_mod::lemma_fundamental_div_mod_converse(i, w, q, r);
        assert(q < x.len()) by (nonlinear_arith)
            requires
                0 <= i < x.len() * w,
                w > 0,
                q * w + r == i,
                0 <= r,
        {
            if q >= x.len() {
                assert(q * w >= x.len() * w);
            }
        }
    }

    /// The steps of `steps` that compute entry `(row, col)` of the product.
    pub open spec fn entry_steps<T>(
        &self,
        steps: Seq<Steps<T>>,
        row: int,
        col: int,
        x: Seq<Vec<T>>,
        yy: Seq<Seq<T>>,
    ) -> Set<int> {
        Set::new(|i: int| 0 <= i < steps.len() && self.matrix_cell(steps[i], row, col, x, yy))
    }

    /// A multiplication plan computes every entry it reads exactly once: step
    /// `i` computes entry `(i / w, i % w)`, and for every row of `x` and every
    /// column below `w` the one step computing that entry is the step at
    /// `row * w + col`. The requirements are what
    /// `Planner::plan_matrix_naive_multiply` ensures of its steps, with `w` the
    /// number of columns it reads per row.
    pub proof fn law_matrix_plan_covers_each_entry<T>(
        &self,
        steps: Seq<Steps<T>>,
        x: Seq<Vec<T>>,
        yy: Seq<Seq<T>>,
        w: int,
    )
        requires
            0 <= w <= usize::MAX,
            x.len() <= usize::MAX,
            steps.len() == x.len() * w,
            forall|i: int| 0 <= i < steps.len() ==> self.matrix_step(#[trigger] steps[i], i, x, yy, w),
        ensures
            forall|i: int| 0 <= i < steps.len() ==> self.matrix_cell(#[trigger] steps[i], i / w, i % w, x, yy),
            forall|row: int, col: int|
                0 <= row < x.len() && 0 <= col < w ==> #[trigger] self.entry_steps(steps, row, col, x, yy)
                    == set![row * w + col],
    {
        reveal(Planner::matrix_step);
        assert forall|i: int| 0 <= i < steps.len() implies self.matrix_cell(#[trigger] steps[i], i / w, i % w, x, yy) by {
            self.lemma_step_entry(steps, x, yy, w, i);
        }
        assert forall|row: int, col: int| 0 <= row < x.len() && 0 <= col < w implies #[trigger] self.entry_steps(
            steps,
            row,
            col,
            x,
            yy,
        ) == set![row * w + col] by {
            let e = self.entry_steps(steps, row, col, x, yy);
            let k = row * w + col;
            assert(0 <= k < steps.len()) by (nonlinear_arith)
                requires
                    0 <= row < x.len(),
                    0 <= col < w,
                    steps.len() == x.len() * w,
                    k == row * w + col,
            {
                assert(row * w <= (x.len() - 1) * w);
            }
            assert forall|i: int| e.contains(i) <==> i == k by {
                if e.contains(i) {
                    assert(self.matrix_step(steps[i], i, x, yy, w));
                    let p = steps[i].extra_info->0.res_pos->0@;
                    assert(p[0] as int == row && p[1] as int == col);
                }
                if i == k {
                    assert(self.matrix_step(steps[k], k, x, yy, w));
                    let p = steps[k].extra_info->0.res_pos->0@;
                    vstd::arithmetic::div_mod::lemma_fundamental_div_mod_converse(k, w, p[0] as int, p[1] as int);
                    vstd::arithmetic::div_mod::lemma_fundamental_div_mod_converse(k, w, row, col);
                }
            }
            assert(e =~= set![k]);
        }
    }

    /// When the width of `x` is the number of rows of `y`, the product is the
    /// ordinary one: `y` is read as given, the product has `x.len()` rows and
    /// as many columns as the first row of `y`, and the one step computing
    /// entry `(row, col)` pairs row `row` of `x` with column `col` of `y`.
    /// The requirement is what `Planner::plan_matrix_naive_multiply` ensures
    /// of its plan.
    pub proof fn law_product_reads_y_as_given<T>(&self, x: Seq<Vec<T>>, y: Seq<Vec<T>>, plan: Plan<T>)
        requires
            first_row_len(x) == y.len(),
            self.matrix_plan_made(x, y, plan),
        ensures
            oriented(x, y) == rows_view(y),
            product_width(oriented(x, y)) == first_row_len(y),
            plan.steps@.len() == x.len() * first_row_len(y),
            forall|row: int, col: int|
                0 <= row < x.len() && 0 <= col < first_row_len(y) ==> #[trigger] self.entry_steps(
                    plan.steps@,
                    row,
                    col,
                    x,
                    rows_view(y),
                ) == set![row * first_row_len(y) + col],
            forall|row: int, col: int, i: int|
                0 <= i < plan.steps@.len() && #[trigger] self.matrix_cell(plan.steps@[i], row, col, x, rows_view(y))
                    ==> (plan.steps@[i].x matches Some(Numeric::Vector(v)) && v@ == x[row]@) && (
                plan.steps@[i].y matches Some(Numeric::Vector(v)) && v@ == Seq::new(
                    y.len(),
                    |r: int| y[r]@[col],
                )),
    {
        assert(oriented(x, y) == rows_view(y));
        if y.len() > 0 {
            assert(rows_view(y)[0] == y[0]@);
        }
        assert forall|row: int, col: int, i: int|
            0 <= i < plan.steps@.len() && #[trigger] self.matrix_cell(plan.steps@[i], row, col, x, rows_view(y))
                implies plan.steps@[i].y matches Some(Numeric::Vector(v)) && v@ == Seq::new(
            y.len(),
            |r: int| y[r]@[col],
        ) by {
            assert(column(rows_view(y), col) =~= Seq::new(y.len(), |r: int| y[r]@[col]));
        }
    }

    /// Each step names the one before it.
    pub open spec fn chained_back<T>(steps: Seq<Steps<T>>) -> bool {
        forall|i: int|
            0 <= i < steps.len() ==> #[trigger] steps[i].prev_step == if i == 0 {
                None
            } else {
                Some(steps[i - 1].step_id)
            }
    }

    /// Each step names the one after it.
    pub open spec fn chained_forward<T>(steps: Seq<Steps<T>>) -> bool {
        forall|i: int|
            0 <= i < steps.len() ==> #[trigger] steps[i].next_step == if i + 1 == steps.len() {
                None
            } else {
                Some(steps[i + 1].step_id)
            }
    }

    /// The `DOT` step for row `irow` of `x` and column `icol` of `y`.
    fn build_dot_step<T: Copy>(
        &self,
        x: &Vec<Vec<T>>,
        y: &Vec<Vec<T>>,
        irow: usize,
        icol: usize,
        node_id: String,
        step_id: String,
        prev_step: Option<String>,
    ) -> (st: Steps<T>)
        requires
            irow < x@.len(),
            forall|r: int| 0 <= r < y@.len() ==> icol < (#[trigger] y@[r])@.len(),
            uuid_v4_text(step_id@),
        ensures
            self.matrix_cell(st, irow as int, icol as int, x@, rows_view(y@)),
            st.node_id == node_id,
            st.step_id == step_id,
            st.prev_step == prev_step,
            st.next_step is None,
    {
        let col = copy_column(y, icol);
        let row = copy_slice(&x[irow], 0, x[irow].len());
        let mut res_pos: Vec<usize> = Vec::new();
        res_pos.push(irow);
        res_pos.push(icol);
        let mut res_shape: Vec<Vec<T>> = Vec::new();
        res_shape.push(Vec::new());
        let st = Steps {
            node_id,
            operation_id: self.operation_id.clone(),
            step_id,
            x: Some(Numeric::Vector(row)),
            y: Some(Numeric::Vector(col)),
            op_type: OperationTypes::DOT,
            result: None,
            next_step: None,
            prev_step,
            use_prev_res: false,
            extra_info: Some(ExtraInfo {
                res_pos: Some(res_pos),
                res_type: Some(Numeric::Matrix(res_shape)),
                helper_number: None,
                helper_string: None,
            }),
        };
        proof {
            assert(column(rows_view(y@), icol as int) =~= Seq::new(y@.len(), |r: int| y@[r]@[icol as int]));
            assert(x@[irow as int]@ =~= x@[irow as int]@.subrange(0, x@[irow as int]@.len() as int));
            assert(res_pos@ =~= seq![irow, icol]);
        }
        st
    }

    /// The inputs `plan_matrix_naive_multiply` accepts for `x` and `y`.
    pub open spec fn matrix_plan_accepted<T>(&self, x: Seq<Vec<T>>, y: Seq<Vec<T>>) -> bool {
        &&& first_row_len(x) != y.len() ==> rows_fit_first(rows_view(y))
        &&& x.len() > 0 ==> forall|r: int|
            0 <= r < oriented(x, y).len() ==> (#[trigger] oriented(x, y)[r]).len() >= product_width(oriented(x, y))
        &&& x.len() > 0 && product_width(oriented(x, y)) > 0 ==> self.nodes_keys@.len() >= 1
    }

    /// What `plan_matrix_naive_multiply` makes of `x` and `y` (see there).
    pub open spec fn matrix_plan_made<T>(&self, x: Seq<Vec<T>>, y: Seq<Vec<T>>, plan: Plan<T>) -> bool {
        let yy = oriented(x, y);
        let w = product_width(yy);
        &&& first_row_len(x) == y.len() ==> yy == rows_view(y)
        &&& plan.execute_locally == (self.nodes_keys@.len() <= 1)
        &&& plan.steps@.len() == x.len() * w
        &&& forall|i: int| 0 <= i < plan.steps@.len() ==> self.matrix_step(#[trigger] plan.steps@[i], i, x, yy, w)
        &&& forall|row: int, col: int|
            0 <= row < x.len() && 0 <= col < w ==> #[trigger] self.entry_steps(plan.steps@, row, col, x, yy)
                == set![row * w + col]
        &&& Self::chained_back(plan.steps@)
        &&& Self::chained_forward(plan.steps@)
        &&& plan.nodes_ops.wf()
        &&& plan.nodes_ops.no_empty_lists()
        &&& plan.nodes_ops@ == groups(duties_of_steps(plan.steps@))
    }

    /// What `plan_average` makes of `x` (see there).
    pub open spec fn average_plan_made<T>(&self, x: Seq<T>, plan: Plan<T>) -> bool {
        let n = x.len() as int;
        let k = self.nodes_keys@.len() as int;
        let s = average_slice_size(n, k);
        &&& plan.execute_locally == (k <= 1)
        &&& plan.steps@.len() * s >= n
        &&& forall|i: int|
            0 <= i < plan.steps@.len() ==> {
                let st = #[trigger] plan.steps@[i];
                &&& i * s < n
                &&& st.node_id == self.nodes_keys@[i % k]
                &&& st.operation_id == self.operation_id
                &&& uuid_v4_text(st.step_id@)
                &&& st.x matches Some(Numeric::Vector(v)) && v@ == x.subrange(i * s, slice_end(i, s, n))
                &&& st.y is None
                &&& st.op_type == OperationTypes::SUM
                &&& st.result is None
                &&& !st.use_prev_res
                &&& st.prev_step is None
                &&& st.next_step is None
                &&& st.extra_info is None
            }
        &&& plan.nodes_ops.wf()
        &&& plan.nodes_ops.no_empty_lists()
        &&& plan.nodes_ops@ == groups(duties_of_steps(plan.steps@))
    }

    /// Plans the product of `x` and `y` for this planner's operation, as
    /// `plan_matrix_naive_multiply` does, unless the operation was planned
    /// before: then the duties recorded for it in `rows` are handed back and
    /// nothing is planned. `record` is the operation's stored record.
    pub fn plan_matrix_or_replay<T: Copy>(
        &self,
        x: Vec<Vec<T>>,
        y: Vec<Vec<T>>,
        record: &Option<OperationFile<T>>,
        rows: &Vec<Model>,
    ) -> (outcome: PlanOutcome<T>)
        requires
            !planned_before(*record) ==> self.matrix_plan_accepted(x@, y@),
        ensures
            match outcome {
                PlanOutcome::Replayed(msg) => {
                    &&& planned_before(*record)
                    &&& msg.wf()
                    &&& msg@ == groups(operation_duties(rows@, self.operation_id@))
                },
                PlanOutcome::Planned(plan) => !planned_before(*record) && self.matrix_plan_made(x@, y@, plan),
            },
    {
        match self.planned_before_duties(record, rows) {
            Some(msg) => PlanOutcome::Replayed(msg),
            None => {
                let plan = self.plan_matrix_naive_multiply(x, y);
                PlanOutcome::Planned(plan)
            },
        }
    }

    /// Plans the average of `x` for this planner's operation, as
    /// `plan_average` does, unless the operation was planned before: then the
    /// duties recorded for it in `rows` are handed back and nothing is
    /// planned. `record` is the operation's stored record.
    pub fn plan_average_or_replay<T: Copy>(
        &self,
        x: &Vec<T>,
        record: &Option<OperationFile<T>>,
        rows: &Vec<Model>,
    ) -> (outcome: PlanOutcome<T>)
        requires
            !planned_before(*record) ==> self.nodes_keys@.len() >= 1,
        ensures
            match outcome {
                PlanOutcome::Replayed(msg) => {
                    &&& planned_before(*record)
                    &&& msg.wf()
                    &&& msg@ == groups(operation_duties(rows@, self.operation_id@))
                },
                PlanOutcome::Planned(plan) => !planned_before(*record) && self.average_plan_made(x@, plan),
            },
    {
        match self.planned_before_duties(record, rows) {
            Some(msg) => PlanOutcome::Replayed(msg),
            None => {
                let plan = self.plan_average(x);
                PlanOutcome::Planned(plan)
            },
        }
    }

    /// The shape of the product that `plan_matrix_naive_multiply` plans for
    /// `x` and `y`: the rows of `x` by the columns of `y` as the plan reads
    /// it (transposed first when the width of `x` differs from its number of
    /// rows).
    pub fn product_shape<T>(x: &Vec<Vec<T>>, y: &Vec<Vec<T>>) -> (shape: (usize, usize))
        ensures
            shape.0 == x@.len(),
            shape.1 == product_width(oriented(x@, y@)),
            first_row_len(x@) == y@.len() ==> shape.1 == first_row_len(y@),
    {
        let x_col_len = if x.len() > 0 { x[0].len() } else { 0 };
        if x_col_len == y.len() {
            let cols = if y.len() > 0 { y[0].len() } else { 0 };
            return (x.len(), cols);
        }
        let ghost rows = rows_view(y@);
        if y.len() == 0 || y[0].len() == 0 {
            return (x.len(), 0);
        }
        let mut count: usize = 0;
        let mut i: usize = 0;
        assert(rows.take(0) =~= Seq::<Seq<T>>::empty());
        while i < y.len()
            invariant
                rows == rows_view(y@),
                i <= y@.len(),
                count <= i,
                count == column_of(rows.take(i as int), 0).len(),
            decreases y@.len() - i,
        {
            assert(rows.take(i + 1).drop_last() =~= rows.take(i as int));
            assert(rows.take(i + 1).last() == y@[i as int]@);
            if y[i].len() > 0 {
                count += 1;
            }
            i += 1;
        }
        assert(rows.take(y@.len() as int) =~= rows);
        (x.len(), count)
    }

    /// Plans the product of `x` and `y` one dot product per step.
    ///
    /// `y` is first transposed when the width of `x` differs from the number
    /// of rows of `y`. Then every row of `x` is paired with every column of
    /// that matrix, in order, each pair becoming a `DOT` step that records
    /// where its result goes; the steps are chained to one another and the
    /// nodes take them in round-robin order. Every entry of the product gets
    /// exactly one step.
    ///
    /// Not accepted, as they would fail: rows of `y` longer than its first
    /// row when it must be transposed, rows shorter than the first one in the
    /// matrix read when `x` has rows, and no nodes when there are steps.
    pub fn plan_matrix_naive_multiply<T: Copy>(&self, x: Vec<Vec<T>>, y: Vec<Vec<T>>) -> (plan: Plan<T>)
        requires
            first_row_len(x@) != y@.len() ==> rows_fit_first(rows_view(y@)),
            x@.len() > 0 ==> forall|r: int|
                0 <= r < oriented(x@, y@).len() ==> (#[trigger] oriented(x@, y@)[r]).len() >= product_width(
                    oriented(x@, y@),
                ),
            x@.len() > 0 && product_width(oriented(x@, y@)) > 0 ==> self.nodes_keys@.len() >= 1,
        ensures
            ({
                let yy = oriented(x@, y@);
                let w = product_width(yy);
                &&& first_row_len(x@) == y@.len() ==> yy == rows_view(y@)
                &&& plan.execute_locally == (self.nodes_keys@.len() <= 1)
                &&& plan.steps@.len() == x@.len() * w
                &&& forall|i: int|
                    0 <= i < plan.steps@.len() ==> self.matrix_step(#[trigger] plan.steps@[i], i, x@, yy, w)
                &&& forall|row: int, col: int|
                    0 <= row < x@.len() && 0 <= col < w ==> #[trigger] self.entry_steps(plan.steps@, row, col, x@, yy)
                        == set![row * w + col]
                &&& Self::chained_back(plan.steps@)
                &&& Self::chained_forward(plan.steps@)
                &&& plan.nodes_ops.wf()
                &&& plan.nodes_ops.no_empty_lists()
                &&& plan.nodes_ops@ == groups(duties_of_steps(plan.steps@))
            }),
    {
        let ghost yy = oriented(x@, y@);
        let y_row_len = y.len();
        let x_col_len = if x.len() > 0 { x[0].len() } else { 0 };
        let y = if x_col_len != y_row_len { transpose(y) } else { y };
        assert(rows_view(y@) == yy);
        let nodes_num = self.nodes_keys.len();
        let width = if y.len() > 0 { y[0].len() } else { 0 };
        let ghost w = width as int;
        assert(w == product_width(yy));
        let mut steps: Vec<Steps<T>> = Vec::new();
        let mut nodes_ops = NodesOpsMsg::new();
        assert(duties_of_steps(steps@) =~= Seq::<DutyView>::empty());
        assert(nodes_ops@ =~= groups(Seq::<DutyView>::empty()));
        if x.len() > 0 {
            let mut node_idx: usize = 0;
            let mut irow: usize = 0;
            while irow < x.len()
                invariant
                    irow <= x@.len(),
                    w == width,
                    nodes_num == self.nodes_keys@.len(),
                    w > 0 ==> nodes_num >= 1,
                    rows_view(y@) == yy,
                    forall|r: int| 0 <= r < yy.len() ==> (#[trigger] yy[r]).len() >= w,
                    steps@.len() == irow * w,
                    w > 0 ==> node_idx == if steps@.len() == 0 { 0 } else { (steps@.len() - 1) % (nodes_num as int) + 1 },
                    forall|i: int|
                        0 <= i < steps@.len() ==> self.matrix_step(#[trigger] steps@[i], i, x@, yy, w),
                    Self::chained_back(steps@),
                    forall|i: int| 0 <= i < steps@.len() ==> (#[trigger] steps@[i]).next_step is None,
                    nodes_ops.wf(),
                    nodes_ops.no_empty_lists(),
                    nodes_ops@ == groups(duties_of_steps(steps@)),
                decreases x@.len() - irow,
            {
                let mut icol: usize = 0;
                while icol < width
                    invariant
                        irow < x@.len(),
                        icol <= w,
                        w == width,
                        nodes_num == self.nodes_keys@.len(),
                        w > 0 ==> nodes_num >= 1,
                        rows_view(y@) == yy,
                        forall|r: int| 0 <= r < yy.len() ==> (#[trigger] yy[r]).len() >= w,
                        steps@.len() == irow * w + icol,
                        w > 0 ==> node_idx == if steps@.len() == 0 { 0 } else { (steps@.len() - 1) % (nodes_num as int) + 1 },
                        forall|i: int|
                            0 <= i < steps@.len() ==> self.matrix_step(#[trigger] steps@[i], i, x@, yy, w),
                        Self::chained_back(steps@),
                        forall|i: int| 0 <= i < steps@.len() ==> (#[trigger] steps@[i]).next_step is None,
                        nodes_ops.wf(),
                        nodes_ops.no_empty_lists(),
                        nodes_ops@ == groups(duties_of_steps(steps@)),
                    decreases w - icol,
                {
                    let ghost i = steps@.len() as int;
                    proof {
                        lemma_round_robin(i, nodes_num as int);
                        assert forall|r: int| 0 <= r < y@.len() implies icol < (#[trigger] y@[r])@.len() by {
                            assert(yy[r] == y@[r]@);
                        }
                    }
                    let node_id = get_node_id(&mut node_idx, nodes_num, &self.nodes_keys);
                    let step_id = new_uuid_string();
                    let n_steps = steps.len();
                    let prev_step = if n_steps > 0 {
                        Some(steps[n_steps - 1].step_id.clone())
                    } else {
                        None
                    };
                    let op_msg = OperationInfo {
                        operation_id: self.operation_id.clone(),
                        step_id: step_id.clone(),
                    };
                    let step = self.build_dot_step(&x, &y, irow, icol, node_id.clone(), step_id, prev_step);
                    let ghost old_steps = steps@;
                    let ghost old_ops = nodes_ops;
                    nodes_ops.add_duty(node_id, op_msg);
                    steps.push(step);
                    proof {
                        assert(duties_of_steps(steps@) =~= duties_of_steps(old_steps).push(duty_of(step)));
                        NodesOpsMsg::lemma_add_duty_groups(old_ops, nodes_ops, duties_of_steps(old_steps), duty_of(step));
                        self.lemma_matrix_step_new(step, i, irow, icol, x@, yy, w);
                        assert forall|j: int| 0 <= j < steps@.len() implies
                            self.matrix_step(#[trigger] steps@[j], j, x@, yy, w) by {
                            if j < i {
                                assert(steps@[j] == old_steps[j]);
                            }
                        }
                        assert forall|j: int| 0 <= j < steps@.len() implies
                            #[trigger] steps@[j].prev_step == if j == 0 {
                                None
                            } else {
                                Some(steps@[j - 1].step_id)
                            } by {
                            if j < i {
                                assert(steps@[j] == old_steps[j]);
                            }
                        }
                    }
                    icol += 1;
                }
                proof {
                    assert((irow + 1) * w == irow * w + w) by (nonlinear_arith);
                }
                irow += 1;
            }
        }
        let ghost built = steps@;
        let n = steps.len();
        let mut j: usize = 0;
        while j + 1 < n
            invariant
                n == steps@.len(),
                j <= n,
                n > 0 ==> j < n,
                forall|i: int|
                    0 <= i < steps@.len() ==> self.matrix_step(#[trigger] steps@[i], i, x@, yy, w),
                Self::chained_back(steps@),
                forall|i: int| 0 <= i < j ==> #[trigger] steps@[i].next_step == Some(steps@[i + 1].step_id),
                forall|i: int| j <= i < n ==> (#[trigger] steps@[i]).next_step is None,
                duties_of_steps(steps@) == duties_of_steps(built),
                nodes_ops.wf(),
                nodes_ops.no_empty_lists(),
                nodes_ops@ == groups(duties_of_steps(built)),
                x@.len() == 0 ==> n == 0,
                x@.len() > 0 ==> n == x@.len() * w,
                nodes_num == self.nodes_keys@.len(),
            decreases n - j,
        {
            let next_id = steps[j + 1].step_id.clone();
            let ghost before = steps@;
            steps[j].next_step = Some(next_id);
            proof {
                assert forall|i: int| 0 <= i < n && i != j implies #[trigger] steps@[i] == before[i] by {}
                assert(duties_of_steps(steps@) =~= duties_of_steps(before));
                self.lemma_matrix_step_relink(before[j as int], Some(before[j + 1].step_id), j as int, x@, yy, w);
                assert(steps@[j as int] == Steps { next_step: Some(before[j + 1].step_id), ..before[j as int] });
                assert forall|i: int| 0 <= i < steps@.len() implies
                    self.matrix_step(#[trigger] steps@[i], i, x@, yy, w) by {
                    if i != j {
                        assert(steps@[i] == before[i]);
                    }
                }
                assert forall|i: int| 0 <= i < steps@.len() implies
                    #[trigger] steps@[i].prev_step == if i == 0 {
                        None
                    } else {
                        Some(steps@[i - 1].step_id)
                    } by {
                    assert(steps@[i].prev_step == before[i].prev_step);
                    if i > 0 {
                        assert(steps@[i - 1].step_id == before[i - 1].step_id);
                    }
                }
                assert forall|i: int| 0 <= i < j + 1 implies
                    #[trigger] steps@[i].next_step == Some(steps@[i + 1].step_id) by {
                    assert(steps@[i + 1].step_id == before[i + 1].step_id);
                }
            }
            j += 1;
        }
        proof {
            if x@.len() == 0 {
                assert(steps@.len() == 0);
                assert(x@.len() * w == 0);
            } else {
                assert(steps@.len() == x@.len() * w);
            }
            self.law_matrix_plan_covers_each_entry(steps@, x@, yy, w);
        }
        Plan { steps, nodes_ops, execute_locally: nodes_num <= 1 }
    }

    /// Plans the average of `x`: the list is cut into one slice per node
    /// (`x.len() / nodes` entries each, the last slice taking the rest, and
    /// one entry each when there are fewer entries than nodes), and every
    /// slice becomes a `SUM` step; the nodes take the slices in round-robin
    /// order. The gathering divides the sums afterwards.
    pub fn plan_average<T: Copy>(&self, x: &Vec<T>) -> (plan: Plan<T>)
        requires
            self.nodes_keys@.len() >= 1,
        ensures
            ({
                let n = x@.len() as int;
                let k = self.nodes_keys@.len() as int;
                let s = average_slice_size(n, k);
                &&& plan.execute_locally == (k <= 1)
                &&& plan.steps@.len() * s >= n
                &&& forall|i: int|
                    0 <= i < plan.steps@.len() ==> {
                        let st = #[trigger] plan.steps@[i];
                        &&& i * s < n
                        &&& st.node_id == self.nodes_keys@[i % k]
                        &&& st.operation_id == self.operation_id
                        &&& uuid_v4_text(st.step_id@)
                        &&& st.x matches Some(Numeric::Vector(v)) && v@ == x@.subrange(
                            i * s,
                            slice_end(i, s, n),
                        )
                        &&& st.y is None
                        &&& st.op_type == OperationTypes::SUM
                        &&& st.result is None
                        &&& !st.use_prev_res
                        &&& st.prev_step is None
                        &&& st.next_step is None
                        &&& st.extra_info is None
                    }
                &&& plan.nodes_ops.wf()
                &&& plan.nodes_ops.no_empty_lists()
                &&& plan.nodes_ops@ == groups(duties_of_steps(plan.steps@))
            }),
    {
        let data_size = x.len();
        let nodes_num = self.nodes_keys.len();
        let ops_slice_size = if data_size / nodes_num >= 1 { data_size / nodes_num } else { 1 };
        let ghost n = data_size as int;
        let ghost k = nodes_num as int;
        let ghost s = ops_slice_size as int;
        proof {
            assert(n / k <= n) by (nonlinear_arith)
                requires n >= 0, k >= 1;
        }
        let mut idx: usize = 0;
        let mut node_idx: usize = 0;
        let mut steps: Vec<Steps<T>> = Vec::new();
        let mut nodes_ops = NodesOpsMsg::new();
        let mut done = data_size == 0;
        assert(duties_of_steps(steps@) =~= Seq::<DutyView>::empty());
        assert(nodes_ops@ =~= groups(Seq::<DutyView>::empty()));
        while !done
            invariant
                data_size == n,
                nodes_num == k == self.nodes_keys@.len(),
                k >= 1,
                s == average_slice_size(n, k),
                1 <= s,
                n > 0 ==> s <= n,
                ops_slice_size == s,
                n == x@.len(),
                !done ==> s >= 1 && idx < n,
                !done ==> idx == steps@.len() * s,
                done ==> steps@.len() * s >= n,
                node_idx == if steps@.len() == 0 { 0 } else { (steps@.len() - 1) % k + 1 },
                forall|i: int|
                    0 <= i < steps@.len() ==> {
                        let st = #[trigger] steps@[i];
                        &&& i * s < n
                        &&& st.node_id == self.nodes_keys@[i % k]
                        &&& st.operation_id == self.operation_id
                        &&& uuid_v4_text(st.step_id@)
                        &&& st.x matches Some(Numeric::Vector(v)) && v@ == x@.subrange(
                            i * s,
                            slice_end(i, s, n),
                        )
                        &&& st.y is None
                        &&& st.op_type == OperationTypes::SUM
                        &&& st.result is None
                        &&& !st.use_prev_res
                        &&& st.prev_step is None
                        &&& st.next_step is None
                        &&& st.extra_info is None
                    },
                nodes_ops.wf(),
                nodes_ops.no_empty_lists(),
                nodes_ops@ == groups(duties_of_steps(steps@)),
            decreases n - idx + (if done { 0int } else { 1int }),
        {
            let ghost i = steps@.len() as int;
            proof {
                lemma_round_robin(i, k);
            }
            let node_id = get_node_id(&mut node_idx, nodes_num, &self.nodes_keys);
            let step_id = new_uuid_string();
            let last = !(idx < data_size - ops_slice_size);
            let end = if last { data_size } else { idx + ops_slice_size };
            proof {
                assert(idx + s < n <==> !last);
            }
            let node_data = copy_slice(x, idx, end);
            let op_msg = OperationInfo {
                operation_id: self.operation_id.clone(),
                step_id: step_id.clone(),
            };
            let step_one = Steps {
                operation_id: self.operation_id.clone(),
                step_id,
                node_id: node_id.clone(),
                x: Some(Numeric::Vector(node_data)),
                y: None,
                op_type: OperationTypes::SUM,
                result: None,
                use_prev_res: false,
                prev_step: None,
                next_step: None,
                extra_info: None,
            };
            let ghost old_ops = nodes_ops;
            let ghost old_steps = steps@;
            nodes_ops.add_duty(node_id, op_msg);
            steps.push(step_one);
            proof {
                assert(duties_of_steps(steps@) =~= duties_of_steps(old_steps).push(duty_of(step_one)));
                NodesOpsMsg::lemma_add_duty_groups(old_ops, nodes_ops, duties_of_steps(old_steps), duty_of(step_one));
                assert((i + 1) * s == i * s + s) by (nonlinear_arith);
            }
            if last {
                done = true;
            } else {
                idx = idx + ops_slice_size;
            }
        }
        Plan { steps, nodes_ops, execute_locally: nodes_num <= 1 }
    }
}

} // verus!
