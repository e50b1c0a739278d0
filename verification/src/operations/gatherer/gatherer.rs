use vstd::prelude::*;
use vstd::hash_map::StringHashMap;
use crate::operations::gatherer::structs::{GatheredMessage, GatheredResponse};
use crate::operations::planner::charts::structs::{ExtraInfo, NodesOpsMsg, Steps};

verus! {

/// Collects the answers of the nodes about the steps of one operation.
pub struct Gatherer {}

/// The kinds of results a gathering puts together.
#[derive(Debug, Clone, Copy, PartialEq, Eq)]
pub enum GatherKind {
    ListAverage,
    MatrixMultiply,
    OrderList,
    ListMax,
    ListMin,
}

/// Where the result of a step is fetched from.
#[derive(Debug, Clone, Copy, PartialEq, Eq)]
pub enum ResultRoute {
    /// Read from this node's own records once the operation has finished here.
    Internal,
    /// Asked of the other nodes.
    Remote,
}

/// What a gathering does with one incoming message.
#[derive(Debug, Clone, Copy, PartialEq, Eq)]
pub enum GatherDecision {
    /// The step is not among those still awaited: the message is skipped.
    Unknown,
    /// The message asks rather than answers: it is skipped.
    NoResponse,
    /// An ordering's answer without a result: the step stays awaited.
    Held,
    /// The step is no longer awaited; its result, if any, is taken in.
    Counted,
}

/// The steps still awaited after one message, and the decision taken on it.
pub open spec fn gather_step(
    pending: Set<Seq<char>>,
    step: Seq<char>,
    has_response: bool,
    has_result: bool,
    kind: GatherKind,
) -> (Set<Seq<char>>, GatherDecision) {
    if !pending.contains(step) {
        (pending, GatherDecision::Unknown)
    } else if !has_response {
        (pending, GatherDecision::NoResponse)
    } else if kind == GatherKind::OrderList && !has_result {
        (pending, GatherDecision::Held)
    } else {
        (pending.remove(step), GatherDecision::Counted)
    }
}

/// The ids of all steps a plan hands out.
pub open spec fn plan_step_ids(plan: NodesOpsMsg) -> Set<Seq<char>> {
    Set::new(
        |s: Seq<char>|
            exists|i: int, j: int|
                0 <= i < plan.nodes_duties@.len() && 0 <= j < plan.nodes_duties@[i].duties@.len()
                    && #[trigger] plan.nodes_duties@[i].duties@[j].step_id@ == s,
    )
}

/// The steps a gathering still waits for.
pub struct GatherTracker {
    pending: StringHashMap<bool>,
}

impl View for GatherTracker {
    type V = Set<Seq<char>>;

    closed spec fn view(&self) -> Set<Seq<char>> {
        self.pending@.dom()
    }
}

impl GatherTracker {
    /// Awaits every step of `plan`.
    pub fn from_plan(plan: &NodesOpsMsg) -> (tracker: GatherTracker)
        ensures
            tracker@ == plan_step_ids(*plan),
    {
        let mut pending: StringHashMap<bool> = StringHashMap::new();
        let mut i: usize = 0;
        while i < plan.nodes_duties.len()
            invariant
                i <= plan.nodes_duties@.len(),
                pending@.dom() == Set::new(
                    |s: Seq<char>|
                        exists|a: int, b: int|
                            0 <= a < i && 0 <= b < plan.nodes_duties@[a].duties@.len()
                                && #[trigger] plan.nodes_duties@[a].duties@[b].step_id@ == s,
                ),
            decreases plan.nodes_duties@.len() - i,
        {
            let duties = &plan.nodes_duties[i].duties;
            let mut j: usize = 0;
            while j < duties.len()
                invariant
                    i < plan.nodes_duties@.len(),
                    *duties == plan.nodes_duties@[i as int].duties,
                    j <= duties@.len(),
                    pending@.dom() == Set::new(
                        |s: Seq<char>|
                            (exists|a: int, b: int|
                                0 <= a < i && 0 <= b < plan.nodes_duties@[a].duties@.len()
                                    && #[trigger] plan.nodes_duties@[a].duties@[b].step_id@ == s)
                            || (exists|b: int| 0 <= b < j && #[trigger] duties@[b].step_id@ == s),
                    ),
                decreases duties@.len() - j,
            {
                let ghost before = pending@.dom();
                pending.insert(duties[j].step_id.clone(), true);
                proof {
                    let new_s = duties@[j as int].step_id@;
                    assert forall|s: Seq<char>| pending@.dom().contains(s) == (
                        (exists|a: int, b: int|
                            0 <= a < i && 0 <= b < plan.nodes_duties@[a].duties@.len()
                                && #[trigger] plan.nodes_duties@[a].duties@[b].step_id@ == s)
                        || (exists|b: int| 0 <= b < j + 1 && #[trigger] duties@[b].step_id@ == s)) by {
                        if s == new_s {
                            assert(duties@[j as int].step_id@ == s);
                        }
                        if exists|b: int| 0 <= b < j + 1 && #[trigger] duties@[b].step_id@ == s {
                            let b = choose|b: int| 0 <= b < j + 1 && #[trigger] duties@[b].step_id@ == s;
                            if b < j {
                                assert(exists|b2: int| 0 <= b2 < j && #[trigger] duties@[b2].step_id@ == s);
                            }
                        }
                    }
                    assert(pending@.dom() =~= Set::new(
                        |s: Seq<char>|
                            (exists|a: int, b: int|
                                0 <= a < i && 0 <= b < plan.nodes_duties@[a].duties@.len()
                                    && #[trigger] plan.nodes_duties@[a].duties@[b].step_id@ == s)
                            || (exists|b: int| 0 <= b < j + 1 && #[trigger] duties@[b].step_id@ == s),
                    ));
                }
                j += 1;
            }
            proof {
                assert forall|s: Seq<char>| pending@.dom().contains(s) == (
                    exists|a: int, b: int|
                        0 <= a < i + 1 && 0 <= b < plan.nodes_duties@[a].duties@.len()
                            && #[trigger] plan.nodes_duties@[a].duties@[b].step_id@ == s) by {
                    if exists|b: int| 0 <= b < j && #[trigger] duties@[b].step_id@ == s {
                        let b = choose|b: int| 0 <= b < j && #[trigger] duties@[b].step_id@ == s;
                        assert(plan.nodes_duties@[i as int].duties@[b].step_id@ == s);
                    }
                    if exists|a: int, b: int|
                        0 <= a < i + 1 && 0 <= b < plan.nodes_duties@[a].duties@.len()
                            && #[trigger] plan.nodes_duties@[a].duties@[b].step_id@ == s {
                        let (a, b) = choose|a: int, b: int|
                            0 <= a < i + 1 && 0 <= b < plan.nodes_duties@[a].duties@.len()
                                && #[trigger] plan.nodes_duties@[a].duties@[b].step_id@ == s;
                        if a == i {
                            assert(duties@[b].step_id@ == s);
                        }
                    }
                }
                assert(pending@.dom() =~= Set::new(
                    |s: Seq<char>|
                        exists|a: int, b: int|
                            0 <= a < i + 1 && 0 <= b < plan.nodes_duties@[a].duties@.len()
                                && #[trigger] plan.nodes_duties@[a].duties@[b].step_id@ == s,
                ));
            }
            i += 1;
        }
        proof {
            assert(pending@.dom() =~= plan_step_ids(*plan));
        }
        GatherTracker { pending }
    }

    /// Whether no step is awaited any more.
    pub fn is_done(&self) -> (done: bool)
        ensures
            done == (self@ == Set::<Seq<char>>::empty()),
    {
        let done = self.pending.is_empty();
        proof {
            if done {
                assert(self.pending@ =~= Map::<Seq<char>, bool>::empty());
                assert(self@ =~= Set::<Seq<char>>::empty());
            } else {
                let k = choose|k: Seq<char>| self.pending@.dom().contains(k);
                assert(!(self.pending@ =~= Map::<Seq<char>, bool>::empty()));
                assert(self@.contains(k));
            }
        }
        done
    }

    /// Whether `step_id` is still awaited.
    pub fn is_pending(&self, step_id: &str) -> (pending: bool)
        ensures
            pending == self@.contains(step_id@),
    {
        self.pending.contains_key(step_id)
    }

    /// Takes one incoming message into account.
    ///
    /// A message about a step that is not awaited, or one that asks rather
    /// than answers, changes nothing. An answer stops the step from being
    /// awaited, except an ordering's answer without a result, which is held.
    /// A product's answer must carry a result, as the product reads it.
    pub fn accept<T>(&mut self, msg: &GatheredMessage<T>, kind: GatherKind) -> (decision: GatherDecision)
        requires
            kind == GatherKind::MatrixMultiply && old(self)@.contains(msg.step_id@)
                && msg.respond is Some ==> msg.respond->0.result is Some,
        ensures
            (final(self)@, decision) == gather_step(
                old(self)@,
                msg.step_id@,
                msg.respond is Some,
                msg.respond matches Some(r) && r.result is Some,
                kind,
            ),
    {
        if !self.pending.contains_key(msg.step_id.as_str()) {
            return GatherDecision::Unknown;
        }
        match &msg.respond {
            None => GatherDecision::NoResponse,
            Some(resp) => {
                let held = match kind {
                    GatherKind::OrderList => resp.result.is_none(),
                    _ => false,
                };
                if held {
                    GatherDecision::Held
                } else {
                    self.pending.remove(msg.step_id.as_str());
                    proof {
                        assert(self.pending@.dom() =~= old(self).pending@.dom().remove(msg.step_id@));
                    }
                    GatherDecision::Counted
                }
            },
        }
    }
}

/// A message as the gathering sees it: the step it is about, whether it
/// answers, and whether the answer carries a result.
pub type GatherEvent = (Seq<char>, bool, bool);

/// The steps still awaited after the messages `events`, starting from
/// `pending`, and the decision taken on each message.
pub open spec fn run_gather(pending: Set<Seq<char>>, events: Seq<GatherEvent>, kind: GatherKind) -> (Set<Seq<char>>, Seq<GatherDecision>)
    decreases events.len(),
{
    if events.len() == 0 {
        (pending, Seq::empty())
    } else {
        let (p, ds) = run_gather(pending, events.drop_last(), kind);
        let ev = events.last();
        let (p2, d) = gather_step(p, ev.0, ev.1, ev.2, kind);
        (p2, ds.push(d))
    }
}

/// The steps counted among `events`, given the decisions taken on them.
pub open spec fn counted_steps(events: Seq<GatherEvent>, decisions: Seq<GatherDecision>) -> Set<Seq<char>> {
    Set::new(|s: Seq<char>| exists|i: int| 0 <= i < events.len() && #[trigger] events[i].0 == s && decisions[i] == GatherDecision::Counted)
}

/// Whatever messages arrive, a gathering counts each awaited step at most
/// once, counts no step that was not awaited, and still awaits exactly the
/// awaited steps it has not counted. So it ends, with every step awaited, once
/// and only once every step has been counted.
pub proof fn law_gather_counts_each_step_once(pending: Set<Seq<char>>, events: Seq<GatherEvent>, kind: GatherKind)
    ensures
        ({
            let (p, ds) = run_gather(pending, events, kind);
            &&& ds.len() == events.len()
            &&& p == pending.difference(counted_steps(events, ds))
            &&& counted_steps(events, ds).subset_of(pending)
            &&& forall|i: int, j: int|
                0 <= i < j < events.len() && ds[i] == GatherDecision::Counted && ds[j] == GatherDecision::Counted
                    ==> #[trigger] events[i].0 != #[trigger] events[j].0
        }),
    decreases events.len(),
{
    if events.len() > 0 {
        let prev = events.drop_last();
        law_gather_counts_each_step_once(pending, prev, kind);
        let (p, ds) = run_gather(pending, prev, kind);
        let ev = events.last();
        let (p2, d) = gather_step(p, ev.0, ev.1, ev.2, kind);
        let ds2 = ds.push(d);
        let n = prev.len() as int;
        assert forall|i: int| 0 <= i < n implies #[trigger] events[i] == prev[i] && ds2[i] == ds[i] by {}
        if d == GatherDecision::Counted {
            assert(counted_steps(events, ds2) =~= counted_steps(prev, ds).insert(ev.0)) by {
                assert forall|x: Seq<char>| counted_steps(events, ds2).contains(x) implies counted_steps(prev, ds).insert(ev.0).contains(x) by {
                    let i = choose|i: int| 0 <= i < events.len() && #[trigger] events[i].0 == x && ds2[i] == GatherDecision::Counted;
                    if i < n {
                        assert(prev[i].0 == x && ds[i] == GatherDecision::Counted);
                    }
                }
                assert forall|x: Seq<char>| counted_steps(prev, ds).insert(ev.0).contains(x) implies counted_steps(events, ds2).contains(x) by {
                    if x == ev.0 {
                        assert(events[n].0 == x && ds2[n] == GatherDecision::Counted);
                    } else {
                        let i = choose|i: int| 0 <= i < prev.len() && #[trigger] prev[i].0 == x && ds[i] == GatherDecision::Counted;
                        assert(events[i].0 == x && ds2[i] == GatherDecision::Counted);
                    }
                }
            }
            assert(p.contains(ev.0));
            assert(p2 =~= pending.difference(counted_steps(events, ds2)));
            assert forall|i: int, j: int|
                0 <= i < j < events.len() && ds2[i] == GatherDecision::Counted && ds2[j] == GatherDecision::Counted
                    implies #[trigger] events[i].0 != #[trigger] events[j].0 by {
                if j == n {
                    assert(counted_steps(prev, ds).contains(events[i].0)) by {
                        assert(prev[i].0 == events[i].0 && ds[i] == GatherDecision::Counted);
                    }
                }
            }
        } else {
            assert(counted_steps(events, ds2) =~= counted_steps(prev, ds)) by {
                assert forall|x: Seq<char>| counted_steps(events, ds2).contains(x) implies counted_steps(prev, ds).contains(x) by {
                    let i = choose|i: int| 0 <= i < events.len() && #[trigger] events[i].0 == x && ds2[i] == GatherDecision::Counted;
                    assert(i < n);
                    assert(prev[i].0 == x && ds[i] == GatherDecision::Counted);
                }
                assert forall|x: Seq<char>| counted_steps(prev, ds).contains(x) implies counted_steps(events, ds2).contains(x) by {
                    let i = choose|i: int| 0 <= i < prev.len() && #[trigger] prev[i].0 == x && ds[i] == GatherDecision::Counted;
                    assert(events[i].0 == x && ds2[i] == GatherDecision::Counted);
                }
            }
            assert forall|i: int, j: int|
                0 <= i < j < events.len() && ds2[i] == GatherDecision::Counted && ds2[j] == GatherDecision::Counted
                    implies #[trigger] events[i].0 != #[trigger] events[j].0 by {
                assert(j < n);
                assert(prev[i].0 == events[i].0 && prev[j].0 == events[j].0);
            }
        }
    }
}

impl Gatherer {
    /// Where the result of a step handed to `node_id` is fetched from: from
    /// this node's own records when it is the only node and the operation has
    /// not finished here yet, or when the step is this node's; otherwise from
    /// the other nodes.
    pub fn result_route(
        node_id: &String,
        current_node_id: &String,
        num_nodes: usize,
        op_finished: bool,
    ) -> (route: ResultRoute)
        ensures
            (route == ResultRoute::Internal) == ((num_nodes == 1 && !op_finished) || node_id@
                == current_node_id@),
    {
        if num_nodes == 1 && !op_finished {
            return ResultRoute::Internal;
        }
        if *node_id == *current_node_id {
            return ResultRoute::Internal;
        }
        ResultRoute::Remote
    }

    /// Answers a question about a step from the step as this node stored it:
    /// nothing when the step is not stored or has no result yet, otherwise
    /// the question with the step's result attached.
    pub fn reply_gathered_msg<T>(
        message: GatheredMessage<T>,
        stored: Option<Steps<T>>,
    ) -> (reply: Option<GatheredMessage<T>>)
        ensures
            match stored {
                None => reply is None,
                Some(stp) => if stp.result is None {
                    reply is None
                } else {
                    reply == Some(
                        (GatheredMessage {
                            operation_id: message.operation_id,
                            step_id: message.step_id,
                            respond: Some(
                                (GatheredResponse {
                                    result: stp.result,
                                    use_prev_res: stp.use_prev_res,
                                    extra_info: stp.extra_info,
                                }),
                            ),
                        }),
                    )
                },
            },
    {
        let mut message = message;
        let res = match stored {
            Some(stp) => {
                if stp.result.is_none() {
                    return None;
                }
                GatheredResponse {
                    result: stp.result,
                    use_prev_res: stp.use_prev_res,
                    extra_info: stp.extra_info,
                }
            },
            None => {
                return None;
            },
        };
        message.respond = Some(res);
        Some(message)
    }

    /// A matrix of `rows_dim` rows of `cols_dim` copies of `zero`.
    pub fn empty_matrix<T: Copy>(rows_dim: usize, cols_dim: usize, zero: T) -> (m: Vec<Vec<T>>)
        ensures
            m@.len() == rows_dim,
            forall|r: int| 0 <= r < rows_dim ==> (#[trigger] m@[r])@ == Seq::new(cols_dim as nat, |c: int| zero),
    {
        let mut m: Vec<Vec<T>> = Vec::new();
        let mut r: usize = 0;
        while r < rows_dim
            invariant
                r <= rows_dim,
                m@.len() == r,
                forall|q: int| 0 <= q < r ==> (#[trigger] m@[q])@ == Seq::new(cols_dim as nat, |c: int| zero),
            decreases rows_dim - r,
        {
            let mut row: Vec<T> = Vec::new();
            let mut c: usize = 0;
            while c < cols_dim
                invariant
                    c <= cols_dim,
                    row@ == Seq::new(c as nat, |q: int| zero),
                decreases cols_dim - c,
            {
                row.push(zero);
                c += 1;
                assert(row@ =~= Seq::new(c as nat, |q: int| zero));
            }
            assert(row@ =~= Seq::new(cols_dim as nat, |q: int| zero));
            m.push(row);
            r += 1;
        }
        m
    }

    /// Puts one product entry in place: at the position the step recorded, or
    /// at `(0, 0)` when it recorded none; an answer without extra information
    /// places nothing.
    pub fn place_result<T>(res: &mut Vec<Vec<T>>, extra_info: &Option<ExtraInfo<T>>, num: T)
        requires
            extra_info matches Some(e) ==> {
                let p = match e.res_pos {
                    Some(p) => p@,
                    None => seq![0usize, 0usize],
                };
                &&& p.len() >= 2
                &&& p[0] < old(res)@.len()
                &&& p[1] < old(res)@[p[0] as int]@.len()
            },
        ensures
            match extra_info {
                None => final(res)@ == old(res)@,
                Some(e) => {
                    let p = match e.res_pos {
                        Some(p) => p@,
                        None => seq![0usize, 0usize],
                    };
                    &&& final(res)@.len() == old(res)@.len()
                    &&& forall|r: int| 0 <= r < old(res)@.len() && r != p[0] ==> #[trigger] final(res)@[r] == old(res)@[r]
                    &&& final(res)@[p[0] as int]@ == old(res)@[p[0] as int]@.update(p[1] as int, num)
                },
            },
    {
        if let Some(extra_infos) = extra_info {
            let (x_pos, y_pos) = match &extra_infos.res_pos {
                Some(poses) => (poses[0], poses[1]),
                None => (0, 0),
            };
            res[x_pos][y_pos] = num;
        }
    }
}

/// How one message moves a gathering, for every kind of gathering: an answer
/// that carries a result for an awaited step is counted and the step is no
/// longer awaited; an answer without a result is counted too, except by an
/// ordering, which keeps waiting for it; a question, or a message about a
/// step that is not awaited, changes nothing and counts nothing.
pub proof fn law_answers_are_counted(
    pending: Set<Seq<char>>,
    step: Seq<char>,
    has_response: bool,
    has_result: bool,
    kind: GatherKind,
)
    ensures
        pending.contains(step) && has_response && has_result ==> gather_step(
            pending,
            step,
            has_response,
            has_result,
            kind,
        ) == (pending.remove(step), GatherDecision::Counted),
        pending.contains(step) && has_response && !has_result && kind != GatherKind::OrderList ==> gather_step(
            pending,
            step,
            has_response,
            has_result,
            kind,
        ) == (pending.remove(step), GatherDecision::Counted),
        pending.contains(step) && has_response && !has_result && kind == GatherKind::OrderList ==> gather_step(
            pending,
            step,
            has_response,
            has_result,
            kind,
        ) == (pending, GatherDecision::Held),
        pending.contains(step) && !has_response ==> gather_step(pending, step, has_response, has_result, kind) == (
            pending,
            GatherDecision::NoResponse,
        ),
        !pending.contains(step) ==> gather_step(pending, step, has_response, has_result, kind) == (
            pending,
            GatherDecision::Unknown,
        ),
{
}

} // verus!
