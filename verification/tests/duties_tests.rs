use thoth::db::controller::registerer::DbOpsRegisterer;
use thoth::db::controller::traits::SqlNodesDuties;
use thoth::db::entities::nodes_duties::Model;
use thoth::operations::checker::{OperationFile, PlanChecker};
use thoth::operations::executer::traits::DutyAction;
use thoth::operations::executer::types::{Executer, OperationTypes, OperationsHelper};
use thoth::operations::planner::charts::structs::{NodesOpsMsg, Numeric, OperationInfo, Steps};
use thoth::operations::translator::translate::{
    DivideOperand, DutiesTranslator, NumericKind, ScalerTranslator, TranslatorAction,
};

fn info(op: &str, step: &str) -> OperationInfo {
    OperationInfo { operation_id: op.to_string(), step_id: step.to_string() }
}

fn sample() -> NodesOpsMsg {
    let mut msg = NodesOpsMsg::new();
    msg.add_duty("a".to_string(), info("op", "s1"));
    msg.add_duty("b".to_string(), info("op", "s2"));
    msg.add_duty("a".to_string(), info("op", "s3"));
    msg
}

fn ids(v: &Vec<OperationInfo>) -> Vec<String> {
    v.iter().map(|i| i.step_id.clone()).collect()
}

#[test]
fn duties_group_by_node() {
    let msg = sample();
    assert_eq!(msg.nodes_duties.len(), 2);
    assert_eq!(ids(msg.get(&"a".to_string()).unwrap()), vec!["s1", "s3"]);
    assert_eq!(ids(msg.get(&"b".to_string()).unwrap()), vec!["s2"]);
    assert!(msg.get(&"c".to_string()).is_none());
}

#[test]
fn duties_written_then_read_back() {
    let msg = sample();
    let rows = DbOpsRegisterer::new_duties(&msg);
    assert_eq!(rows.len(), 3);
    assert!(rows.iter().all(|r| !r.is_finished));
    assert_eq!(rows[1].node_id, "a");
    assert_eq!(rows[1].step_id, "s3");
    let back = PlanChecker::get_planned_duties_db(&rows);
    assert_eq!(ids(back.get(&"a".to_string()).unwrap()), vec!["s1", "s3"]);
    assert_eq!(ids(back.get(&"b".to_string()).unwrap()), vec!["s2"]);
    assert_eq!(back.nodes_duties.len(), 2);
}

#[test]
fn duty_rows() {
    let r = DbOpsRegisterer::new_duty("n".to_string(), "op".to_string(), "s".to_string());
    assert_eq!((r.node_id.as_str(), r.op_id.as_str(), r.step_id.as_str(), r.is_finished), ("n", "op", "s", false));
    let r: Model = SqlNodesDuties::new("op".to_string(), "n".to_string(), "s".to_string());
    assert_eq!((r.node_id.as_str(), r.op_id.as_str()), ("n", "op"));
    DbOpsRegisterer::finished_step();
}

#[test]
fn planned_before() {
    let none: Option<OperationFile<f64>> = None;
    assert!(!PlanChecker::is_planned_before(&none));
    let pending: OperationFile<f64> = DbOpsRegisterer::new_operation("op".to_string(), 1_700_000_000);
    assert_eq!(pending.execution_date, 1_700_000_000);
    assert!(!PlanChecker::is_planned_before(&Some(pending)));
    let done = OperationFile { operation_id: "op".to_string(), result: Some(Numeric::Scaler(2.0)), execution_date: 0 };
    assert!(PlanChecker::is_planned_before(&Some(done)));
}

fn step(x: Option<Numeric<f64>>, y: Option<Numeric<f64>>, prev: Option<&str>, result: Option<f64>) -> Steps<f64> {
    Steps {
        node_id: "a".to_string(),
        operation_id: "op".to_string(),
        step_id: "s".to_string(),
        x,
        y,
        op_type: OperationTypes::DIVIDE,
        result: result.map(Numeric::Scaler),
        next_step: None,
        prev_step: prev.map(|p| p.to_string()),
        use_prev_res: false,
        extra_info: None,
    }
}

#[test]
fn translation_dispatch() {
    let msg = sample();
    let t = DutiesTranslator::new(&msg, &"a".to_string()).unwrap();
    assert_eq!(ids(&t.node_duty), vec!["s1", "s3"]);
    assert!(DutiesTranslator::new(&msg, &"z".to_string()).is_none());
    let s = step(None, Some(Numeric::Vector(vec![1.0])), None, None);
    assert_eq!(DutiesTranslator::translator_kind(&s), NumericKind::Vector);
    let s = step(Some(Numeric::Matrix(vec![])), Some(Numeric::Scaler(1.0)), None, None);
    assert_eq!(DutiesTranslator::translator_kind(&s), NumericKind::Matrix);
    assert_eq!(DutiesTranslator::step_action(NumericKind::Scaler, OperationTypes::DIVIDE), TranslatorAction::Divide);
    assert_eq!(DutiesTranslator::step_action(NumericKind::Scaler, OperationTypes::AVG), TranslatorAction::NoOp);
    assert_eq!(DutiesTranslator::step_action(NumericKind::Vector, OperationTypes::ORDERLIST), TranslatorAction::OrderList);
    assert_eq!(DutiesTranslator::step_action(NumericKind::Vector, OperationTypes::MIN), TranslatorAction::Min);
    assert_eq!(DutiesTranslator::step_action(NumericKind::Matrix, OperationTypes::DOT), TranslatorAction::NoOp);
    assert_eq!(DutiesTranslator::step_action(NumericKind::Vector, OperationTypes::ADD), TranslatorAction::Unsupported);
}

#[test]
fn divide_operands() {
    let own = ScalerTranslator::new(step(Some(Numeric::Scaler(1.0)), Some(Numeric::Scaler(2.0)), None, None));
    assert!(matches!(own.divide_operand(), DivideOperand::Own));
    let prev = ScalerTranslator::new(step(None, Some(Numeric::Scaler(2.0)), Some("p"), None));
    match prev.divide_operand() {
        DivideOperand::PreviousStep(id) => assert_eq!(id, "p"),
        DivideOperand::Own => panic!("expected the previous step"),
    }
}

#[test]
fn executer_decisions() {
    let a = Executer::step_actions(false, &None::<Steps<f64>>);
    assert!(a.register_operation && a.execute);
    let a = Executer::step_actions(true, &Some(step(None, None, None, Some(1.0))));
    assert!(!a.register_operation && !a.execute);
    assert_eq!(Executer::duty_action(&None::<Steps<f64>>), DutyAction::Skip);
    assert_eq!(Executer::duty_action(&Some(step(None, None, None, None))), DutyAction::Execute);
    assert_eq!(Executer::duty_action(&Some(step(None, None, None, Some(1.0)))), DutyAction::MarkFinished);
    let (op, duties) = Executer::node_duties_to_run(&sample(), &"b".to_string()).unwrap();
    assert_eq!(op, "op");
    assert_eq!(ids(&duties), vec!["s2"]);
    assert!(Executer::node_duties_to_run(&sample(), &"z".to_string()).is_none());
    let reply = Executer::gathered_reply(step(None, None, None, Some(3.0)));
    assert_eq!(reply.step_id, "s");
    assert!(reply.respond.unwrap().result.is_some());
}

#[test]
fn operation_names() {
    assert_eq!(OperationTypes::ADD.as_str(), "Add");
    assert_eq!(OperationTypes::AVG.as_str(), "Average");
    assert_eq!(OperationTypes::ORDERLIST.as_str(), "Order List");
    assert_eq!(OperationTypes::MIN.as_str(), "Min");
    assert_eq!(OperationsHelper::ASCENDING.as_str(), "Ascending");
    assert_eq!(OperationsHelper::DESCENDING.to_name(), "Descending");
    assert_eq!(OperationsHelper::from_name(&"Descending".to_string()), OperationsHelper::DESCENDING);
    assert_eq!(OperationsHelper::from_name(&"Ascending".to_string()), OperationsHelper::ASCENDING);
}

#[test]
fn finished_duty_marks_only_its_step() {
    let mut rows = DbOpsRegisterer::new_duties(&sample());
    let target = rows[1].step_id.clone();
    DbOpsRegisterer::finished_duty(&mut rows, &target);
    for row in &rows {
        assert_eq!(row.is_finished, row.step_id == target);
    }
    let again = rows.len();
    DbOpsRegisterer::finished_duty(&mut rows, &"absent".to_string());
    assert_eq!(rows.len(), again);
    assert_eq!(rows.iter().filter(|r| r.is_finished).count(), 1);
}
