pub mod grpc_server;
pub mod utils;
