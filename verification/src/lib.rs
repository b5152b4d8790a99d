//! Verified core of an agent bridge.

pub mod activation;
pub mod agent;
pub mod agent_laws;
pub mod assignment;
pub mod assignment_laws;
pub mod bounds;
pub mod checkpoint;
pub mod continuation;
pub mod contract;
pub mod digest;
pub mod error;
pub mod gate;
pub mod glob;
pub mod glob_laws;
pub mod idempotency;
pub mod identity;
pub mod instant;
pub mod json;
pub mod layout;
pub mod ledger;
pub mod ledger_laws;
pub mod listing;
pub mod managed;
pub mod managed_laws;
pub mod manager;
pub mod message;
pub mod order;
pub mod patch;
pub mod permission;
pub mod physical_send;
pub mod project;
pub mod prompt;
pub mod prompt_combine;
pub mod retention;
pub mod review;
pub mod roster;
pub mod routine;
pub mod run;
pub mod run_laws;
pub mod skills;
pub mod supervisor;
pub mod swarm;
pub mod text;
pub mod validate;
pub mod worker;
pub mod workload;
