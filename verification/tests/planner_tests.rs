use thoth::operations::executer::types::OperationTypes;
use thoth::operations::planner::charts::structs::Numeric;
use thoth::operations::planner::organizer::{PlanOutcome, Planner};
use thoth::router::messages::RequestsTypes;
use thoth::db::controller::registerer::DbOpsRegisterer;

fn keys(names: &[&str]) -> Vec<String> {
    names.iter().map(|s| s.to_string()).collect()
}

fn vector_of<T: Copy>(n: &Option<Numeric<T>>) -> Vec<T> {
    match n {
        Some(Numeric::Vector(v)) => v.clone(),
        _ => panic!("expected a vector"),
    }
}

#[test]
fn average_plan_cuts_slices_round_robin() {
    let (planner, _) = Planner::new("op1".to_string(), keys(&["a", "b"]));
    let x = vec![1.0, 2.0, 3.0, 4.0, 5.0];
    let plan = planner.plan_average(&x);
    assert!(!plan.execute_locally);
    assert_eq!(plan.steps.len(), 3);
    assert_eq!(vector_of(&plan.steps[0].x), vec![1.0, 2.0]);
    assert_eq!(vector_of(&plan.steps[1].x), vec![3.0, 4.0]);
    assert_eq!(vector_of(&plan.steps[2].x), vec![5.0]);
    assert_eq!(plan.steps[0].node_id, "a");
    assert_eq!(plan.steps[1].node_id, "b");
    assert_eq!(plan.steps[2].node_id, "a");
    for st in &plan.steps {
        assert_eq!(st.operation_id, "op1");
        assert_eq!(st.op_type, OperationTypes::SUM);
        assert_eq!(st.step_id.len(), 36);
        assert!(st.y.is_none() && st.result.is_none() && st.extra_info.is_none());
    }
    let a = plan.nodes_ops.get(&"a".to_string()).unwrap();
    assert_eq!(a.len(), 2);
    assert_eq!(a[0].step_id, plan.steps[0].step_id);
    assert_eq!(a[1].step_id, plan.steps[2].step_id);
    let b = plan.nodes_ops.get(&"b".to_string()).unwrap();
    assert_eq!(b.len(), 1);
    assert_eq!(b[0].step_id, plan.steps[1].step_id);
    assert_eq!(plan.nodes_ops.nodes_duties.len(), 2);
}

#[test]
fn average_plan_on_one_node_runs_locally() {
    let (planner, _) = Planner::new("op2".to_string(), keys(&["only"]));
    let plan = planner.plan_average(&vec![4, 8, 15]);
    assert!(plan.execute_locally);
    assert_eq!(plan.steps.len(), 1);
    assert_eq!(vector_of(&plan.steps[0].x), vec![4, 8, 15]);
}

#[test]
fn average_plan_of_empty_list_has_no_steps() {
    let (planner, _) = Planner::new("op3".to_string(), keys(&["a", "b", "c"]));
    let plan = planner.plan_average(&Vec::<f64>::new());
    assert!(plan.steps.is_empty());
    assert!(plan.nodes_ops.nodes_duties.is_empty());
}

#[test]
fn average_plan_even_split() {
    let (planner, _) = Planner::new("op4".to_string(), keys(&["a", "b", "c"]));
    let plan = planner.plan_average(&vec![1, 2, 3, 4, 5, 6]);
    assert_eq!(plan.steps.len(), 3);
    assert_eq!(vector_of(&plan.steps[2].x), vec![5, 6]);
    assert_eq!(plan.steps[2].node_id, "c");
}

#[test]
fn matrix_plan_readme_example() {
    let (planner, _) = Planner::new("m1".to_string(), keys(&["a", "b", "c"]));
    let x = vec![vec![1.0, 2.0, 3.0], vec![4.0, 5.0, 6.0]];
    let y = vec![vec![7.0, 8.0], vec![9.0, 10.0], vec![11.0, 12.0]];
    let plan = planner.plan_matrix_naive_multiply(x, y);
    assert!(!plan.execute_locally);
    assert_eq!(plan.steps.len(), 4);
    let expected = [
        (vec![1.0, 2.0, 3.0], vec![7.0, 9.0, 11.0], 0usize, 0usize, "a"),
        (vec![1.0, 2.0, 3.0], vec![8.0, 10.0, 12.0], 0, 1, "b"),
        (vec![4.0, 5.0, 6.0], vec![7.0, 9.0, 11.0], 1, 0, "c"),
        (vec![4.0, 5.0, 6.0], vec![8.0, 10.0, 12.0], 1, 1, "a"),
    ];
    for (i, (row, col, r, c, node)) in expected.iter().enumerate() {
        let st = &plan.steps[i];
        assert_eq!(&vector_of(&st.x), row);
        assert_eq!(&vector_of(&st.y), col);
        assert_eq!(st.op_type, OperationTypes::DOT);
        assert_eq!(st.node_id, *node);
        let pos = st.extra_info.as_ref().unwrap().res_pos.clone().unwrap();
        assert_eq!(pos, vec![*r, *c]);
    }
    assert!(plan.steps[0].prev_step.is_none());
    assert_eq!(plan.steps[0].next_step, Some(plan.steps[1].step_id.clone()));
    assert_eq!(plan.steps[3].prev_step, Some(plan.steps[2].step_id.clone()));
    assert!(plan.steps[3].next_step.is_none());
    assert_eq!(plan.nodes_ops.get(&"a".to_string()).unwrap().len(), 2);
}

#[test]
fn matrix_plan_square_full_product() {
    let (planner, _) = Planner::new("m2".to_string(), keys(&["a"]));
    let x = vec![vec![1, 2], vec![3, 4]];
    let y = vec![vec![5, 6], vec![7, 8]];
    let plan = planner.plan_matrix_naive_multiply(x, y);
    assert!(plan.execute_locally);
    assert_eq!(plan.steps.len(), 4);
    assert_eq!(vector_of(&plan.steps[0].y), vec![5, 7]);
    assert_eq!(vector_of(&plan.steps[1].y), vec![6, 8]);
    assert_eq!(vector_of(&plan.steps[3].x), vec![3, 4]);
    assert_eq!(plan.steps[3].extra_info.as_ref().unwrap().res_pos.clone().unwrap(), vec![1, 1]);
}

#[test]
fn matrix_plan_transposes_mismatched_y() {
    // x is 1 x 2 and y has 3 rows: y is transposed first, into
    // [[1, 3, 5], [2, 4, 6]], and its three columns are read.
    let (planner, _) = Planner::new("m3".to_string(), keys(&["a", "b"]));
    let x = vec![vec![1, 1]];
    let y = vec![vec![1, 2], vec![3, 4], vec![5, 6]];
    let plan = planner.plan_matrix_naive_multiply(x, y);
    assert_eq!(plan.steps.len(), 3);
    assert_eq!(vector_of(&plan.steps[0].y), vec![1, 2]);
    assert_eq!(vector_of(&plan.steps[1].y), vec![3, 4]);
    assert_eq!(vector_of(&plan.steps[2].y), vec![5, 6]);
}

#[test]
fn matrix_plan_without_rows_is_empty() {
    let (planner, _) = Planner::new("m4".to_string(), Vec::new());
    let plan = planner.plan_matrix_naive_multiply(Vec::<Vec<i32>>::new(), vec![vec![1]]);
    assert!(plan.steps.is_empty());
    assert!(plan.execute_locally);
}

#[test]
fn matrix_plan_computes_each_entry_once() {
    let (planner, _) = Planner::new("m5".to_string(), keys(&["a", "b"]));
    let x = vec![vec![1, 2, 3], vec![4, 5, 6], vec![7, 8, 9]];
    let y = vec![vec![1, 0, 0], vec![0, 1, 0], vec![0, 0, 1]];
    let plan = planner.plan_matrix_naive_multiply(x, y);
    let w = 3;
    assert_eq!(plan.steps.len(), 3 * w);
    for (i, st) in plan.steps.iter().enumerate() {
        let pos = st.extra_info.as_ref().unwrap().res_pos.clone().unwrap();
        assert_eq!(pos, vec![i / w, i % w]);
    }
    for r in 0..3 {
        for c in 0..w {
            let computing = plan
                .steps
                .iter()
                .filter(|st| st.extra_info.as_ref().unwrap().res_pos.as_ref().unwrap() == &vec![r, c])
                .count();
            assert_eq!(computing, 1);
        }
    }
}

#[test]
fn average_plan_with_fewer_entries_than_nodes() {
    let (planner, _) = Planner::new("op5".to_string(), keys(&["a", "b", "c"]));
    let plan = planner.plan_average(&vec![7, 9]);
    assert_eq!(plan.steps.len(), 2);
    assert_eq!(vector_of(&plan.steps[0].x), vec![7]);
    assert_eq!(vector_of(&plan.steps[1].x), vec![9]);
    assert_eq!(plan.steps[1].node_id, "b");
}

#[test]
fn new_planner_asks_for_node_information() {
    let (planner, request) = Planner::new("op6".to_string(), keys(&["a"]));
    assert_eq!(planner.operation_id, "op6");
    assert_eq!(planner.nodes_keys, keys(&["a"]));
    assert_eq!(request.topic_name, "NODES_INFO");
    assert_eq!(request.request, RequestsTypes::RequestNodeInfo);
    assert!(request.message.is_none());
}

#[test]
fn product_shapes() {
    let x = vec![vec![1, 2, 3], vec![4, 5, 6]];
    let y = vec![vec![7, 8], vec![9, 10], vec![11, 12]];
    assert_eq!(Planner::product_shape(&x, &y), (2, 2));
    // y read transposed: 3 rows of 2 become 2 rows of 3.
    let x = vec![vec![1, 1]];
    let y = vec![vec![1, 2], vec![3, 4], vec![5, 6]];
    assert_eq!(Planner::product_shape(&x, &y), (1, 3));
    assert_eq!(Planner::product_shape(&Vec::<Vec<i32>>::new(), &Vec::new()), (0, 0));
}

#[test]
fn planned_before_reads_back_its_own_duties() {
    let (planner, _) = Planner::new("op7".to_string(), keys(&["a"]));
    let rows = vec![
        DbOpsRegisterer::new_duty("a".to_string(), "op7".to_string(), "s1".to_string()),
        DbOpsRegisterer::new_duty("b".to_string(), "other".to_string(), "s2".to_string()),
        DbOpsRegisterer::new_duty("b".to_string(), "op7".to_string(), "s3".to_string()),
    ];
    let unfinished = Some(DbOpsRegisterer::new_operation::<f64>("op7".to_string(), 0));
    assert!(planner.planned_before_duties(&unfinished, &rows).is_none());
    assert!(planner.planned_before_duties::<f64>(&None, &rows).is_none());
    let mut done = DbOpsRegisterer::new_operation::<f64>("op7".to_string(), 0);
    done.result = Some(Numeric::Scaler(2.0));
    let duties = planner.planned_before_duties(&Some(done), &rows).unwrap();
    assert_eq!(duties.nodes_duties.len(), 2);
    assert_eq!(duties.get(&"a".to_string()).unwrap()[0].step_id, "s1");
    assert_eq!(duties.get(&"b".to_string()).unwrap()[0].step_id, "s3");
    assert_eq!(duties.get(&"b".to_string()).unwrap().len(), 1);
}

#[test]
fn planners_replay_an_operation_planned_before() {
    let (planner, _) = Planner::new("op8".to_string(), keys(&["a"]));
    let rows = vec![DbOpsRegisterer::new_duty("a".to_string(), "op8".to_string(), "s1".to_string())];
    let mut done = DbOpsRegisterer::new_operation::<f64>("op8".to_string(), 0);
    done.result = Some(Numeric::Scaler(1.5));
    let record = Some(done);
    match planner.plan_average_or_replay(&vec![1.0, 2.0], &record, &rows) {
        PlanOutcome::Replayed(duties) => {
            assert_eq!(duties.get(&"a".to_string()).unwrap()[0].step_id, "s1");
            assert_eq!(duties.nodes_duties.len(), 1);
        }
        PlanOutcome::Planned(_) => panic!("the operation was planned before"),
    }
    match planner.plan_matrix_or_replay(vec![vec![1.0]], vec![vec![2.0]], &record, &rows) {
        PlanOutcome::Replayed(duties) => assert_eq!(duties.nodes_duties.len(), 1),
        PlanOutcome::Planned(_) => panic!("the operation was planned before"),
    }
}

#[test]
fn planners_plan_an_operation_not_planned_before() {
    let (planner, _) = Planner::new("op9".to_string(), keys(&["a"]));
    let fresh = Some(DbOpsRegisterer::new_operation::<f64>("op9".to_string(), 0));
    match planner.plan_average_or_replay(&vec![1.0, 2.0], &fresh, &Vec::new()) {
        PlanOutcome::Planned(plan) => assert_eq!(vector_of(&plan.steps[0].x), vec![1.0, 2.0]),
        PlanOutcome::Replayed(_) => panic!("nothing was planned before"),
    }
    match planner.plan_matrix_or_replay(vec![vec![1.0, 2.0]], vec![vec![3.0], vec![4.0]], &None, &Vec::new()) {
        PlanOutcome::Planned(plan) => assert_eq!(plan.steps.len(), 1),
        PlanOutcome::Replayed(_) => panic!("nothing was planned before"),
    }
}
