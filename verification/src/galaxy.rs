//! Capability interfaces over the remote directory, consumed by the engine
//! and implemented externally — by an HTTP adapter or by the in-memory test
//! double.  On transport or protocol failure a call reports an error; there
//! is no retry at this layer, failures propagate to the caller.

use crate::types::{Group, GroupID, GroupUpdatePayload, Role, RoleID, User, UserID};
use vstd::prelude::*;

verus! {

/// A repository-level failure: transport trouble, an unexpected status, or a
/// malformed payload, with a descriptive message.
#[derive(Debug, PartialEq)]
pub struct RepoError {
    pub message: String,
}

impl RepoError {
    /// Wraps a description of the failure.
    pub fn new(message: &str) -> (r: RepoError)
        ensures
            r.message@ == message@,
    {
        RepoError { message: message.to_owned() }
    }
}

impl Clone for RepoError {
    fn clone(&self) -> (r: Self)
        ensures
            r == *self,
    {
        RepoError { message: self.message.clone() }
    }
}

/// Read and replace groups.  `update_group` carries full-replacement
/// semantics: each present payload field replaces the remote attribute
/// entirely.
pub trait GroupRepository {
    /// All groups the remote system holds.
    fn get_groups(&self) -> Result<Vec<Group>, RepoError>;

    /// Creates a group with the given name and returns the remote copy.
    fn create_group(&mut self, name: &str) -> Result<Group, RepoError>;

    /// Replaces the attributes present in the payload and returns the remote
    /// copy.
    fn update_group(&mut self, group_id: &GroupID, payload: &GroupUpdatePayload) -> Result<
        Group,
        RepoError,
    >;
}

/// Incremental role assignment, for callers that prefer it over full
/// replacement; the reconciliation engine does not use it.
pub trait GroupRoleRepository {
    /// The roles assigned to the group.
    fn get_group_roles(&self, group_id: &GroupID) -> Result<Vec<Role>, RepoError>;

    /// Assigns one role to the group.
    fn add_role_to_group(&mut self, role_id: &RoleID, group_id: &GroupID) -> Result<
        (),
        RepoError,
    >;
}

/// Incremental membership, for callers that prefer it over full replacement;
/// the reconciliation engine does not use it.
pub trait GroupUserRepository {
    /// The members of the group.
    fn get_group_users(&self, group_id: &GroupID) -> Result<Vec<User>, RepoError>;

    /// Adds one member to the group.
    fn add_user_to_group(&mut self, user_id: &UserID, group_id: &GroupID) -> Result<
        (),
        RepoError,
    >;
}

/// Read and create roles.
pub trait RoleRepository {
    /// All roles the remote system holds.
    fn get_roles(&self) -> Result<Vec<Role>, RepoError>;

    /// Creates a role with the given name and description and returns the
    /// remote copy.
    fn create_role(&mut self, name: &str, description: &str) -> Result<Role, RepoError>;
}

/// Read users.  The engine never creates users: their existence is a
/// precondition of reconciliation, not something it manages.
pub trait UserRepository {
    /// All users the remote system holds.
    fn get_users(&self) -> Result<Vec<User>, RepoError>;
}

/// A full backend: every capability the reconciliation engine consumes.
pub trait GalaxyAPI: GroupRepository + RoleRepository + UserRepository {
}

} // verus!
