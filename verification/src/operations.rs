pub mod cache;
pub mod checker;
pub mod executer;
pub mod gatherer;
pub mod planner;
pub mod translator;
pub mod utils;
