//! Remote-operations core: the session registry and its command rules, the
//! interactive worker's decisions, and the operations agent's conversation store,
//! planner reading and chat-turn orchestration.

pub mod agent_files;
pub mod agent_store;
pub mod agent_types;
pub mod ai_assist;
pub mod clock;
pub mod error;
pub mod ids;
pub mod keyed;
pub mod lines;
pub mod models;
pub mod orchestrator;
pub mod planner;
pub mod remote_path;
pub mod session;
pub mod shell;
pub mod status_parser;
pub mod text;
pub mod worker;
