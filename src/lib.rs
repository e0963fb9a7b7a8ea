//! Verified models of three ownership mechanisms: cells mutated through
//! aliases, shared handles with a count of holders, and a task scope that
//! may only be left once every task in it has finished.

pub mod mutation;
pub mod owner_ref;
pub mod task_scope;
