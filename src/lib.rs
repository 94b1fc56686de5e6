//! Data and service layer of a translation assistant: a store of projects,
//! translation entries and chat history with its ordering and ownership
//! rules, and the orchestration of a completion backend over that history.
use vstd::prelude::*;

pub mod ambient;
pub mod database;
pub mod laws;
pub mod llm_bridge;
pub mod model;
pub mod orchestrator;

verus! {

} // verus!
