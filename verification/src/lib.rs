//! Thoth: planning, routing and bookkeeping for a distributed data-computing
//! framework. Every function here is checked by Verus against its contract.
pub mod connections;
pub mod db;
pub mod errors;
pub mod events;
pub mod grpc;
pub mod logger;
pub mod operations;
pub mod router;
