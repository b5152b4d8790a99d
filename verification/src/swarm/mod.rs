//! Durable, host-supervised work graphs.

pub mod attempts;
pub mod authority;
pub mod control;
pub mod control_laws;
pub mod grant;
pub mod ids;
pub mod lease;
pub mod lease_laws;
pub mod planning;
pub mod projection;
pub mod record_laws;
pub mod scheduler;
pub mod spec;
pub mod state;
pub mod store;
