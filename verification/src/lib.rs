//! Keeps a remote identity directory (users, roles, group membership) in sync
//! with a declarative schedule: a configuration names, per group, the people
//! that belong to it and the date windows during which the group is in
//! training.  The reconciliation engine computes what the remote group
//! membership and role assignment should be today, compares it against what
//! the remote system reports, and issues the create/update calls needed to
//! converge it.

pub mod config;
pub mod date;
pub mod env_config;
pub mod galaxy;
pub mod lookup;
pub mod manager;
pub mod mock;
pub mod model;
pub mod plan;
pub mod types;
