//! The in-memory backend behaves like the directory it stands in for.

use std::collections::HashSet;
use training_manager::galaxy::{
    GroupRepository, GroupRoleRepository, GroupUserRepository, RoleRepository, UserRepository,
};
use training_manager::mock::{IDGenerator, MockGalaxy};
use training_manager::types::{Email, GroupID, GroupUpdatePayload, RoleID, UserID};

#[test]
fn test_groups() {
    let mut galaxy = MockGalaxy::new().unwrap();
    let group = galaxy.create_group("group2").unwrap();
    let groups = galaxy.get_groups().unwrap();
    assert!(groups.contains(&group));
}

#[test]
fn mock_test_update_group() {
    let mut galaxy = MockGalaxy::new().unwrap();
    let group = galaxy.create_group("group2").unwrap();
    let user_ids = vec![UserID::new("user1")];
    let role_ids = vec![RoleID::new("role1")];
    let group = galaxy
        .update_group(
            &group.id,
            &GroupUpdatePayload {
                name: Some(training_manager::types::GroupName::new("group2 updated")),
                user_ids: Some(user_ids),
                role_ids: Some(role_ids),
            },
        )
        .unwrap();
    let after = galaxy.get_groups().unwrap();
    let after_roles = galaxy.get_group_roles(&group.id).unwrap();
    let after_users = galaxy.get_group_users(&group.id).unwrap();
    assert!(after.contains(&group));
    assert_eq!(after_roles.len(), 1);
    assert_eq!(after_users.len(), 1);
}

#[test]
fn test_roles() {
    let mut galaxy = MockGalaxy::new().unwrap();
    let roles = galaxy.get_roles().unwrap();
    assert_eq!(roles.len(), 1);
    let role = galaxy.create_role("role2", "role2 description").unwrap();
    let roles = galaxy.get_roles().unwrap();
    assert!(roles.contains(&role));
}

#[test]
fn test_users() {
    let galaxy = MockGalaxy::new().unwrap();
    let users = galaxy.get_users().unwrap();
    let email = Email::from_str("user1@email.com").unwrap();
    assert!(users
        .iter()
        .map(|user| user.email.clone())
        .collect::<HashSet<Email>>()
        .contains(&email));
}

#[test]
fn test_group_roles() {
    let mut galaxy = MockGalaxy::new().unwrap();
    let before = galaxy.get_group_roles(&GroupID::new("group1")).unwrap();
    assert_eq!(before.len(), 0);
    galaxy
        .add_role_to_group(&RoleID::new("role1"), &GroupID::new("group1"))
        .unwrap();
    let after = galaxy.get_group_roles(&GroupID::new("group1")).unwrap();
    assert_eq!(after.len(), 1);
}

#[test]
fn test_group_users() {
    let mut galaxy = MockGalaxy::new().unwrap();
    let before = galaxy.get_group_users(&GroupID::new("group1")).unwrap();
    assert_eq!(before.len(), 0);
    galaxy
        .add_user_to_group(&UserID::new("user1"), &GroupID::new("group1"))
        .unwrap();
    let after = galaxy.get_group_users(&GroupID::new("group1")).unwrap();
    assert_eq!(after.len(), 1);
}

#[test]
fn test_generated_ids_count_up() {
    let mut generator = IDGenerator::new();
    assert_eq!(generator.next(), "0");
    assert_eq!(generator.next(), "1");
    assert_eq!(generator.next(), "2");
    let mut galaxy = MockGalaxy::new().unwrap();
    let first = galaxy.create_group("a").unwrap();
    let second = galaxy.create_group("b").unwrap();
    assert_eq!(first.id, GroupID::new("0"));
    assert_eq!(second.id, GroupID::new("1"));
}

#[test]
fn test_update_group_missing_group_fails() {
    let mut galaxy = MockGalaxy::new().unwrap();
    let payload = GroupUpdatePayload { name: None, user_ids: None, role_ids: None };
    assert!(galaxy.update_group(&GroupID::new("no-such-group"), &payload).is_err());
}

#[test]
fn test_update_group_replaces_membership_as_set() {
    let mut galaxy = MockGalaxy::new().unwrap();
    let gid = GroupID::new("group1");
    let payload = GroupUpdatePayload {
        name: None,
        user_ids: Some(vec![UserID::new("user1"), UserID::new("user1")]),
        role_ids: None,
    };
    galaxy.update_group(&gid, &payload).unwrap();
    let members = galaxy.get_group_users(&gid).unwrap();
    assert_eq!(members.len(), 1);
    let empty = GroupUpdatePayload {
        name: None,
        user_ids: Some(vec![]),
        role_ids: None,
    };
    galaxy.update_group(&gid, &empty).unwrap();
    assert_eq!(galaxy.get_group_users(&gid).unwrap().len(), 0);
}

#[test]
fn test_add_role_requires_existing_role_and_group() {
    let mut galaxy = MockGalaxy::new().unwrap();
    assert!(galaxy
        .add_role_to_group(&RoleID::new("no-such-role"), &GroupID::new("group1"))
        .is_err());
    assert!(galaxy
        .add_role_to_group(&RoleID::new("role1"), &GroupID::new("no-such-group"))
        .is_err());
    assert!(galaxy
        .add_user_to_group(&UserID::new("no-such-user"), &GroupID::new("group1"))
        .is_err());
}
