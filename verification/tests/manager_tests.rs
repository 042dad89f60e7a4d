//! Reconciliation runs: planning, gap creation, convergence, idempotence.

use training_manager::config::{ConfigFile, TimeRange};
use training_manager::date::Date;
use training_manager::galaxy::{
    GalaxyAPI, GroupRepository, GroupRoleRepository, GroupUserRepository, RepoError,
    RoleRepository, UserRepository,
};
use training_manager::manager::TrainingManager;
use training_manager::mock::MockGalaxy;
use training_manager::plan::{plan_updates, ApplyError};
use training_manager::types::{
    Email, Group, GroupID, GroupName, GroupUpdatePayload, Role, RoleID, User, UserID,
};

fn config_for(group: &str, emails: &[&str], windows: &[(&str, &str)]) -> ConfigFile {
    let members = emails
        .iter()
        .map(|e| Email::from_str(e).unwrap())
        .collect::<Vec<_>>();
    let ranges = windows
        .iter()
        .map(|(from, to)| TimeRange {
            from: Date::from_str(from).unwrap(),
            to: Date::from_str(to).unwrap(),
        })
        .collect::<Vec<_>>();
    ConfigFile {
        groups: vec![(GroupName::new(group), members)],
        schedule: vec![(GroupName::new(group), ranges)],
    }
}

#[test]
fn test_apply_converges_membership_and_role() {
    let galaxy = MockGalaxy::new().unwrap();
    let mut manager = TrainingManager::new(galaxy);
    let config = config_for("group1", &["user1@email.com"], &[("2023-01-01", "2023-06-30")]);
    let today = Date::from_ymd(2023, 3, 1);
    manager.apply_config_on(&config, &today).unwrap();
    let galaxy = manager.into_galaxy();
    let gid = GroupID::new("group1");
    let members = galaxy.get_group_users(&gid).unwrap();
    assert_eq!(members.len(), 1);
    assert_eq!(members[0].id, UserID::new("user1"));
    let roles = galaxy.get_group_roles(&gid).unwrap();
    assert_eq!(roles.len(), 1);
    assert_eq!(roles[0].name.as_str(), "training");
}

#[test]
fn test_apply_outside_window_clears_role() {
    let galaxy = MockGalaxy::new().unwrap();
    let mut manager = TrainingManager::new(galaxy);
    let config = config_for("group1", &["user1@email.com"], &[("2023-01-01", "2023-06-30")]);
    let today = Date::from_ymd(2023, 7, 1);
    manager.apply_config_on(&config, &today).unwrap();
    let galaxy = manager.into_galaxy();
    let gid = GroupID::new("group1");
    assert_eq!(galaxy.get_group_users(&gid).unwrap().len(), 1);
    assert_eq!(galaxy.get_group_roles(&gid).unwrap().len(), 0);
}

#[test]
fn test_planned_updates_match_scenario() {
    let users = vec![User::new("1", "alice@x.com").unwrap()];
    let groups = vec![Group::new("g1", "team_a").unwrap()];
    let training = RoleID::new("r1");
    let config = config_for("team_a", &["alice@x.com"], &[("2023-01-01", "2023-06-30")]);

    let today = Date::from_ymd(2023, 3, 1);
    let plan = plan_updates(&config, &users, &groups, &training, &today).unwrap();
    assert_eq!(plan.len(), 1);
    assert_eq!(plan[0].0, GroupID::new("g1"));
    assert_eq!(
        plan[0].1,
        GroupUpdatePayload {
            name: Some(GroupName::new("team_a")),
            user_ids: Some(vec![UserID::new("1")]),
            role_ids: Some(vec![RoleID::new("r1")]),
        }
    );

    let later = Date::from_ymd(2023, 7, 1);
    let plan = plan_updates(&config, &users, &groups, &training, &later).unwrap();
    assert_eq!(plan.len(), 1);
    assert_eq!(plan[0].0, GroupID::new("g1"));
    assert_eq!(
        plan[0].1,
        GroupUpdatePayload {
            name: Some(GroupName::new("team_a")),
            user_ids: Some(vec![UserID::new("1")]),
            role_ids: Some(vec![]),
        }
    );
}

#[test]
fn test_missing_group_created_before_update() {
    let galaxy = MockGalaxy::new().unwrap();
    let mut manager = TrainingManager::new(galaxy);
    let config = config_for("team_new", &["user1@email.com"], &[("2023-01-01", "2023-06-30")]);
    let today = Date::from_ymd(2023, 3, 1);
    manager.apply_config_on(&config, &today).unwrap();
    let galaxy = manager.into_galaxy();
    let groups = galaxy.get_groups().unwrap();
    let created = groups
        .iter()
        .find(|g| g.name == GroupName::new("team_new"))
        .unwrap();
    let members = galaxy.get_group_users(&created.id).unwrap();
    assert_eq!(members.len(), 1);
    assert_eq!(members[0].id, UserID::new("user1"));
    let roles = galaxy.get_group_roles(&created.id).unwrap();
    assert_eq!(roles.len(), 1);
    assert_eq!(roles[0].name.as_str(), "training");
}

fn snapshot(
    galaxy: &MockGalaxy,
    gid: &GroupID,
) -> (Vec<Group>, Vec<Role>, Vec<User>, Vec<User>, Vec<Role>) {
    (
        galaxy.get_groups().unwrap(),
        galaxy.get_roles().unwrap(),
        galaxy.get_users().unwrap(),
        galaxy.get_group_users(gid).unwrap(),
        galaxy.get_group_roles(gid).unwrap(),
    )
}

#[test]
fn test_apply_twice_is_idempotent() {
    let galaxy = MockGalaxy::new().unwrap();
    let mut manager = TrainingManager::new(galaxy);
    let config = config_for("group1", &["user1@email.com"], &[("2023-01-01", "2023-06-30")]);
    let today = Date::from_ymd(2023, 3, 1);
    let gid = GroupID::new("group1");

    manager.apply_config_on(&config, &today).unwrap();
    let galaxy = manager.into_galaxy();
    let first = snapshot(&galaxy, &gid);

    let mut manager = TrainingManager::new(galaxy);
    manager.apply_config_on(&config, &today).unwrap();
    let galaxy = manager.into_galaxy();
    let second = snapshot(&galaxy, &gid);

    assert_eq!(first, second);
}

#[test]
fn test_unknown_email_fails_before_update() {
    let galaxy = MockGalaxy::new().unwrap();
    let mut manager = TrainingManager::new(galaxy);
    let config = config_for("group1", &["ghost@nowhere.com"], &[("2023-01-01", "2023-06-30")]);
    let today = Date::from_ymd(2023, 3, 1);
    let result = manager.apply_config_on(&config, &today);
    assert_eq!(
        result.unwrap_err(),
        ApplyError::UnknownUser(Email::from_str("ghost@nowhere.com").unwrap())
    );
    let galaxy = manager.into_galaxy();
    let gid = GroupID::new("group1");
    assert_eq!(galaxy.get_group_users(&gid).unwrap().len(), 0);
    assert_eq!(galaxy.get_group_roles(&gid).unwrap().len(), 0);
}

#[test]
fn test_missing_schedule_entry_is_fatal() {
    let galaxy = MockGalaxy::new().unwrap();
    let mut manager = TrainingManager::new(galaxy);
    let config = ConfigFile {
        groups: vec![(
            GroupName::new("group1"),
            vec![Email::from_str("user1@email.com").unwrap()],
        )],
        schedule: vec![],
    };
    let today = Date::from_ymd(2023, 3, 1);
    let result = manager.apply_config_on(&config, &today);
    assert_eq!(
        result.unwrap_err(),
        ApplyError::MissingSchedule(GroupName::new("group1"))
    );
}

#[test]
fn test_unresolvable_group_in_planning() {
    let users = vec![User::new("1", "alice@x.com").unwrap()];
    let groups: Vec<Group> = vec![];
    let training = RoleID::new("r1");
    let config = config_for("team_a", &["alice@x.com"], &[("2023-01-01", "2023-06-30")]);
    let today = Date::from_ymd(2023, 3, 1);
    let result = plan_updates(&config, &users, &groups, &training, &today);
    assert_eq!(
        result.unwrap_err(),
        ApplyError::GroupMissing(GroupName::new("team_a"))
    );
}

struct ForgetfulGalaxy;

impl UserRepository for ForgetfulGalaxy {
    fn get_users(&self) -> Result<Vec<User>, RepoError> {
        Ok(vec![])
    }
}

impl RoleRepository for ForgetfulGalaxy {
    fn get_roles(&self) -> Result<Vec<Role>, RepoError> {
        Ok(vec![])
    }

    // creation is acknowledged with an unrelated role, as if it had been
    // silently ignored remotely
    fn create_role(&mut self, _name: &str, description: &str) -> Result<Role, RepoError> {
        Ok(Role::new("9", "something-else", description).unwrap())
    }
}

impl GroupRepository for ForgetfulGalaxy {
    fn get_groups(&self) -> Result<Vec<Group>, RepoError> {
        Ok(vec![])
    }

    fn create_group(&mut self, name: &str) -> Result<Group, RepoError> {
        Group::new("9", name).map_err(|_| RepoError::new("bad name"))
    }

    fn update_group(
        &mut self,
        _group_id: &GroupID,
        _payload: &GroupUpdatePayload,
    ) -> Result<Group, RepoError> {
        Group::new("9", "g").map_err(|_| RepoError::new("bad name"))
    }
}

impl GalaxyAPI for ForgetfulGalaxy {}

#[test]
fn test_training_role_missing_after_ignored_creation() {
    let mut manager = TrainingManager::new(ForgetfulGalaxy);
    let config = config_for("team_a", &[], &[("2023-01-01", "2023-06-30")]);
    let today = Date::from_ymd(2023, 3, 1);
    let result = manager.apply_config_on(&config, &today);
    assert_eq!(result.unwrap_err(), ApplyError::TrainingRoleMissing);
}

struct UnreachableGalaxy;

impl UserRepository for UnreachableGalaxy {
    fn get_users(&self) -> Result<Vec<User>, RepoError> {
        Err(RepoError::new("connection refused"))
    }
}

impl RoleRepository for UnreachableGalaxy {
    fn get_roles(&self) -> Result<Vec<Role>, RepoError> {
        Err(RepoError::new("connection refused"))
    }

    fn create_role(&mut self, _name: &str, _description: &str) -> Result<Role, RepoError> {
        Err(RepoError::new("connection refused"))
    }
}

impl GroupRepository for UnreachableGalaxy {
    fn get_groups(&self) -> Result<Vec<Group>, RepoError> {
        Err(RepoError::new("connection refused"))
    }

    fn create_group(&mut self, _name: &str) -> Result<Group, RepoError> {
        Err(RepoError::new("connection refused"))
    }

    fn update_group(
        &mut self,
        _group_id: &GroupID,
        _payload: &GroupUpdatePayload,
    ) -> Result<Group, RepoError> {
        Err(RepoError::new("connection refused"))
    }
}

impl GalaxyAPI for UnreachableGalaxy {}

#[test]
fn test_transport_failure_propagates() {
    let mut manager = TrainingManager::new(UnreachableGalaxy);
    let config = config_for("team_a", &[], &[("2023-01-01", "2023-06-30")]);
    let today = Date::from_ymd(2023, 3, 1);
    let result = manager.apply_config_on(&config, &today);
    assert_eq!(
        result.unwrap_err(),
        ApplyError::Repo(RepoError::new("connection refused"))
    );
}

#[test]
fn test_apply_config_samples_today() {
    // the run with the sampled date behaves like a run with an explicit one
    let galaxy = MockGalaxy::new().unwrap();
    let mut manager = TrainingManager::new(galaxy);
    let config = config_for("group1", &["user1@email.com"], &[("1900-01-01", "9999-12-31")]);
    manager.apply_config(&config).unwrap();
    let galaxy = manager.into_galaxy();
    let gid = GroupID::new("group1");
    assert_eq!(galaxy.get_group_users(&gid).unwrap().len(), 1);
    assert_eq!(galaxy.get_group_roles(&gid).unwrap().len(), 1);
}
