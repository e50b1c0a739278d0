use thoth::connections::configs::config::get_config;
use thoth::connections::configs::topics::{get_topic, get_topics, TopicsEnums};
use thoth::connections::connect::{GossibConnection, IncomingRoute};
use thoth::db::configs::config::get_config as db_config;
use thoth::errors::thot_errors::ThothErrors;
use thoth::grpc::grpc_server::MathOperations;
use thoth::logger::config::{get_config as logger_config, DebugLevel};
use thoth::logger::writters::writter::{FileTypes, LogFileManager, OperationsFileManager};
use thoth::router::messages::RequestsTypes;
use thoth::router::post_offices::back_office::answers_with_node_info;
use thoth::router::post_offices::nodes_info::post_office::{
    request_other_nodes_info, GathererOffice, NodesInfoOffice, OperationStepExecuter,
    OperationsExecuterOffice, SyncerOffice,
};

#[test]
fn configs() {
    let c = get_config();
    assert_eq!((c.port, c.max_msg_size), (49221, 1_024_000));
    let d = db_config("/data".to_string());
    assert_eq!(d.db_name, "thoth");
    assert_eq!(d.db_mod, "rwc");
    assert_eq!(d.database_url(), "sqlite:////data/thoth.db?mode=rwc");
    assert_eq!(logger_config().debug_level, DebugLevel::INFO);
    assert_eq!(DebugLevel::INFO.as_num(), 0);
    assert_eq!(DebugLevel::DEBUG.as_num(), 1);
    assert_eq!(DebugLevel::WARNING.as_num(), 2);
    assert_eq!(DebugLevel::ERROR.as_num(), 4);
}

#[test]
fn topics() {
    assert_eq!(TopicsEnums::Operations.as_str(), "OPERATIONS");
    assert_eq!(TopicsEnums::NodesInfo.to_string(), "NODES_INFO");
    assert_eq!(TopicsEnums::Sync.as_str(), "SYNC");
    assert_eq!(get_topics().len(), 3);
    assert_eq!(get_topic(&"SYNC".to_string()), Some(TopicsEnums::Sync));
    assert_eq!(get_topic(&"sync".to_string()), None);
}

#[test]
fn routing_of_incoming_messages() {
    let ops = "OPERATIONS".to_string();
    let nodes = "NODES_INFO".to_string();
    let sync = "SYNC".to_string();
    assert_eq!(GossibConnection::route_incoming(&ops, RequestsTypes::PlansToExecute), IncomingRoute::StepExecuter);
    assert_eq!(GossibConnection::route_incoming(&ops, RequestsTypes::StartExecutePlan), IncomingRoute::OperationsExecuter);
    assert_eq!(GossibConnection::route_incoming(&ops, RequestsTypes::EndedExecutingPlan), IncomingRoute::OperationsExecuter);
    assert_eq!(GossibConnection::route_incoming(&ops, RequestsTypes::RequestGatherPlans), IncomingRoute::GatherReply);
    assert_eq!(GossibConnection::route_incoming(&ops, RequestsTypes::ReplyGatherPlansRes), IncomingRoute::Gatherer);
    assert_eq!(GossibConnection::route_incoming(&ops, RequestsTypes::RequestNodeInfo), IncomingRoute::Dropped);
    assert_eq!(GossibConnection::route_incoming(&nodes, RequestsTypes::RequestNodeInfo), IncomingRoute::SendNodeInfo);
    assert_eq!(GossibConnection::route_incoming(&nodes, RequestsTypes::ReplyNodeInfoUpdate), IncomingRoute::AddNodeInfo);
    assert_eq!(GossibConnection::route_incoming(&nodes, RequestsTypes::PlansToExecute), IncomingRoute::Dropped);
    assert_eq!(GossibConnection::route_incoming(&sync, RequestsTypes::PlansToExecute), IncomingRoute::Syncer);
    assert_eq!(GossibConnection::route_incoming(&"other".to_string(), RequestsTypes::PlansToExecute), IncomingRoute::Dropped);
}

#[test]
fn outgoing_messages() {
    let m = NodesInfoOffice::outgoing(vec![1, 2]);
    assert_eq!((m.topic_name.as_str(), m.request), ("NODES_INFO", RequestsTypes::ReplyNodeInfoUpdate));
    assert_eq!(m.message, Some(vec![1, 2]));
    let m = OperationStepExecuter::outgoing(vec![3]);
    assert_eq!((m.topic_name.as_str(), m.request), ("OPERATIONS", RequestsTypes::PlansToExecute));
    let m = OperationsExecuterOffice::outgoing(vec![]);
    assert_eq!(m.request, RequestsTypes::StartExecutePlan);
    let m = GathererOffice::outgoing(vec![]);
    assert_eq!(m.request, RequestsTypes::RequestGatherPlans);
    let m = GathererOffice::outgoing_reply(vec![9]);
    assert_eq!((m.topic_name.as_str(), m.request), ("OPERATIONS", RequestsTypes::ReplyGatherPlansRes));
    let m = SyncerOffice::outgoing(RequestsTypes::EndedExecutingPlan, vec![]);
    assert_eq!((m.topic_name.as_str(), m.request), ("SYNC", RequestsTypes::EndedExecutingPlan));
    let m = request_other_nodes_info();
    assert_eq!((m.topic_name.as_str(), m.request), ("NODES_INFO", RequestsTypes::RequestNodeInfo));
    assert!(m.message.is_none());
    assert!(answers_with_node_info(RequestsTypes::RequestNodeInfo));
    assert!(!answers_with_node_info(RequestsTypes::PlansToExecute));
}

#[test]
fn error_texts() {
    let cases = vec![
        (ThothErrors::LockError("m".to_string()), "Lock error: m"),
        (ThothErrors::IoError("m".to_string()), "Io error: m"),
        (ThothErrors::Tonic("m".to_string()), "gRPC Tonic error: m"),
        (ThothErrors::P2PError("m".to_string()), "P2P error: m"),
        (ThothErrors::DbError("m".to_string()), "Sqlite Database error: m"),
        (ThothErrors::SendChError("m".to_string()), "Sending Channel error: m"),
        (ThothErrors::SerdeError("m".to_string()), "Converting Serde to/from types error: m"),
        (ThothErrors::BincodeError("m".to_string()), "Converting Bincode to/from types error: m"),
    ];
    for (e, text) in cases {
        assert_eq!(e.message(), text);
    }
}

#[test]
fn grpc_statuses() {
    let e = ThothErrors::IoError("disk".to_string());
    assert_eq!(MathOperations::plan_failed_status(&e), "Failed to create plans due to: Io error: disk");
    assert_eq!(MathOperations::gather_failed_status(&e), "Failed to gather results due to: Io error: disk");
    assert_eq!(MathOperations::success_status(true), "Succesfully got your result.");
    assert_eq!(MathOperations::success_status(false), "Successfully got your result.");
    assert_eq!(MathOperations::missing_matrix_status(), "Matrix X wasn't provided, please provide two matrixes");
}

#[test]
fn file_paths() {
    assert_eq!(OperationsFileManager::new("op").op_id, "op");
    assert_eq!(OperationsFileManager::get_operations_path("op"), vec!["logs/OPERATIONS", "op"]);
    assert_eq!(
        OperationsFileManager::get_operations_main_path("op"),
        vec!["logs/OPERATIONS", "op", "main_operation.th"]
    );
    assert_eq!(OperationsFileManager::get_step_path("op", "s"), vec!["logs/OPERATIONS", "op", "s.th"]);
    assert_eq!(OperationsFileManager::get_date_path(), vec!["logs/OPERATIONS", "dates"]);
    assert_eq!(OperationsFileManager::get_operation_date_path("op"), vec!["logs/OPERATIONS", "dates", "op.th"]);
    assert_eq!(
        OperationsFileManager::get_step_date_path("op", "s"),
        vec!["logs/OPERATIONS", "dates", "op", "s.th"]
    );
    assert_eq!(
        LogFileManager::generate_file_name(&"t0".to_string(), &FileTypes::WARN),
        vec!["logs", "WARN", "t0"]
    );
    assert_eq!(FileTypes::INFO.as_str(), "INFO");
    assert_eq!(FileTypes::DEBUG.as_str(), "DEBUG");
    assert_eq!(FileTypes::ERROR.as_str(), "ERROR");
    assert_eq!(FileTypes::OPERATIONS.as_str(), "OPERATIONS");
}

#[test]
fn log_rotation() {
    let mut m = LogFileManager::new(FileTypes::INFO);
    assert_eq!(m.max_lines, 1_000_000);
    m.max_lines = 2;
    assert!(!m.is_file_limit());
    assert!(!m.write());
    assert_eq!(m.current_lint, 1);
    assert!(m.write());
    assert_eq!(m.current_lint, 0);
}

#[test]
fn product_request_needs_both_matrices() {
    let m = || Some(vec![vec![1.0]]);
    assert!(MathOperations::matrices_given(m(), m()).is_ok());
    let missing = "Matrix X wasn't provided, please provide two matrixes".to_string();
    assert_eq!(MathOperations::matrices_given(None, m()).unwrap_err(), missing);
    assert_eq!(MathOperations::matrices_given(m(), None).unwrap_err(), missing);
}
