use thoth::operations::executer::types::OperationTypes;
use thoth::operations::gatherer::gatherer::{
    GatherDecision, GatherKind, GatherTracker, Gatherer, ResultRoute,
};
use thoth::operations::gatherer::structs::{GatheredMessage, GatheredResponse};
use thoth::operations::planner::charts::structs::{ExtraInfo, NodesOpsMsg, Numeric, OperationInfo, Steps};

fn info(op: &str, step: &str) -> OperationInfo {
    OperationInfo { operation_id: op.to_string(), step_id: step.to_string() }
}

fn plan() -> NodesOpsMsg {
    let mut msg = NodesOpsMsg::new();
    msg.add_duty("a".to_string(), info("op", "s1"));
    msg.add_duty("b".to_string(), info("op", "s2"));
    msg.add_duty("a".to_string(), info("op", "s3"));
    msg
}

fn answer(step: &str, result: Option<f64>) -> GatheredMessage<f64> {
    GatheredMessage {
        operation_id: "op".to_string(),
        step_id: step.to_string(),
        respond: Some(GatheredResponse {
            result: result.map(Numeric::Scaler),
            use_prev_res: false,
            extra_info: None,
        }),
    }
}

fn question(step: &str) -> GatheredMessage<f64> {
    GatheredMessage { operation_id: "op".to_string(), step_id: step.to_string(), respond: None }
}

#[test]
fn tracker_counts_each_step_once() {
    let mut t = GatherTracker::from_plan(&plan());
    assert!(t.is_pending("s1") && t.is_pending("s2") && t.is_pending("s3"));
    assert!(!t.is_done());
    assert_eq!(t.accept(&question("s1"), GatherKind::ListAverage), GatherDecision::NoResponse);
    assert_eq!(t.accept(&answer("s1", Some(1.0)), GatherKind::ListAverage), GatherDecision::Counted);
    assert_eq!(t.accept(&answer("s1", Some(1.0)), GatherKind::ListAverage), GatherDecision::Unknown);
    assert_eq!(t.accept(&answer("zz", Some(1.0)), GatherKind::ListAverage), GatherDecision::Unknown);
    assert_eq!(t.accept(&answer("s2", None), GatherKind::ListMax), GatherDecision::Counted);
    assert!(!t.is_done());
    assert_eq!(t.accept(&answer("s3", Some(3.0)), GatherKind::ListMin), GatherDecision::Counted);
    assert!(t.is_done());
}

#[test]
fn ordering_holds_answers_without_result() {
    let mut t = GatherTracker::from_plan(&plan());
    assert_eq!(t.accept(&answer("s1", None), GatherKind::OrderList), GatherDecision::Held);
    assert!(t.is_pending("s1"));
    assert_eq!(t.accept(&answer("s1", Some(2.0)), GatherKind::OrderList), GatherDecision::Counted);
    assert!(!t.is_pending("s1"));
}

#[test]
fn routes() {
    let a = "a".to_string();
    let b = "b".to_string();
    assert_eq!(Gatherer::result_route(&a, &b, 1, false), ResultRoute::Internal);
    assert_eq!(Gatherer::result_route(&a, &b, 1, true), ResultRoute::Remote);
    assert_eq!(Gatherer::result_route(&a, &a, 3, true), ResultRoute::Internal);
    assert_eq!(Gatherer::result_route(&a, &b, 3, false), ResultRoute::Remote);
}

fn stored(result: Option<f64>) -> Steps<f64> {
    Steps {
        node_id: "a".to_string(),
        operation_id: "op".to_string(),
        step_id: "s1".to_string(),
        x: None,
        y: None,
        op_type: OperationTypes::SUM,
        result: result.map(Numeric::Scaler),
        next_step: None,
        prev_step: None,
        use_prev_res: true,
        extra_info: None,
    }
}

#[test]
fn replies_from_stored_steps() {
    assert!(Gatherer::reply_gathered_msg(question("s1"), None).is_none());
    assert!(Gatherer::reply_gathered_msg(question("s1"), Some(stored(None))).is_none());
    let reply = Gatherer::reply_gathered_msg(question("s1"), Some(stored(Some(4.5)))).unwrap();
    assert_eq!(reply.step_id, "s1");
    let resp = reply.respond.unwrap();
    assert!(resp.use_prev_res);
    match resp.result {
        Some(Numeric::Scaler(v)) => assert_eq!(v, 4.5),
        _ => panic!("expected the stored result"),
    }
}

#[test]
fn matrix_placement() {
    let mut m = Gatherer::empty_matrix(2, 3, 0.0);
    assert_eq!(m, vec![vec![0.0; 3]; 2]);
    let at = Some(ExtraInfo::<f64> {
        res_pos: Some(vec![1, 2]),
        res_type: None,
        helper_number: None,
        helper_string: None,
    });
    Gatherer::place_result(&mut m, &at, 7.0);
    assert_eq!(m, vec![vec![0.0, 0.0, 0.0], vec![0.0, 0.0, 7.0]]);
    let nowhere = Some(ExtraInfo::<f64> { res_pos: None, res_type: None, helper_number: None, helper_string: None });
    Gatherer::place_result(&mut m, &nowhere, 5.0);
    assert_eq!(m[0][0], 5.0);
    Gatherer::place_result(&mut m, &None, 9.0);
    assert_eq!(m, vec![vec![5.0, 0.0, 0.0], vec![0.0, 0.0, 7.0]]);
}
