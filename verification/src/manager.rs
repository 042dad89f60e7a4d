//! The reconciliation driver: snapshot the remote directory, create the
//! missing role and groups, then issue one full-replacement update per
//! configured group.
//!
//! The driver's decisions are the verified planning functions in [`crate::plan`];
//! this module only feeds them what the repository calls returned and issues
//! the calls they prescribe.  The run is fail-fast: the first failure aborts
//! it, and creations already issued are not rolled back.

use crate::config::ConfigFile;
use crate::date::Date;
use crate::galaxy::GalaxyAPI;
use crate::plan::{
    find_role_index, lemma_spec_plan_err_source, missing_group_names, missing_role_names,
    plan_updates, schedule_match_idx, spec_plan, ApplyError, PlanError,
};
use crate::types::{Group, GroupName, Role, RoleName};
use vstd::prelude::*;

verus! {

/// The one role the engine ever assigns, asserted present while a schedule
/// window covers today.
pub const TRAINING_ROLE_NAME: &'static str = "training";

/// Reconciles the remote directory held by one backend against a
/// configuration.
pub struct TrainingManager<G: GalaxyAPI> {
    galaxy: G,
}

impl<G: GalaxyAPI> TrainingManager<G> {
    /// The backend this manager drives.
    pub closed spec fn backend(&self) -> G {
        self.galaxy
    }

    /// Wraps the backend the runs will go against.
    pub fn new(galaxy: G) -> (r: Self)
        ensures
            r.backend() == galaxy,
    {
        TrainingManager { galaxy }
    }

    /// Hands the backend back, so that a test double's state can be
    /// inspected after a run.
    pub fn into_galaxy(self) -> (r: G)
        ensures
            r == self.backend(),
    {
        self.galaxy
    }

    /// Creates each listed role remotely with an empty description; on
    /// success hands back the created roles, one per listed name, in order.
    fn create_missing_roles(&mut self, missing: &Vec<RoleName>) -> (r: Result<
        Vec<Role>,
        ApplyError,
    >)
        ensures
            r is Ok ==> r->Ok_0@.len() == missing@.len(),
            r is Err ==> r->Err_0 is Repo,
    {
        let mut created: Vec<Role> = Vec::new();
        let mut i: usize = 0;
        while i < missing.len()
            invariant
                i <= missing@.len(),
                created@.len() == i,
            decreases missing@.len() - i,
        {
            match self.galaxy.create_role(missing[i].as_str(), "") {
                Ok(role) => created.push(role),
                Err(e) => return Err(ApplyError::Repo(e)),
            }
            i = i + 1;
        }
        Ok(created)
    }

    /// Creates each listed group remotely; on success hands back the created
    /// groups, one per listed name, in order.
    fn create_missing_groups(&mut self, missing: &Vec<GroupName>) -> (r: Result<
        Vec<Group>,
        ApplyError,
    >)
        ensures
            r is Ok ==> r->Ok_0@.len() == missing@.len(),
            r is Err ==> r->Err_0 is Repo,
    {
        let mut created: Vec<Group> = Vec::new();
        let mut i: usize = 0;
        while i < missing.len()
            invariant
                i <= missing@.len(),
                created@.len() == i,
            decreases missing@.len() - i,
        {
            match self.galaxy.create_group(missing[i].as_str()) {
                Ok(group) => created.push(group),
                Err(e) => return Err(ApplyError::Repo(e)),
            }
            i = i + 1;
        }
        Ok(created)
    }

    /// One reconciliation run with the given date as "today".
    ///
    /// In order: snapshot users, roles and groups; create the training role
    /// and every configured group that the snapshot lacks; resolve the
    /// training role in the post-creation set (fatal if absent); plan every
    /// group's update with [`plan_updates`], whose contract pins each payload
    /// exactly; then issue the planned `update_group` calls, one per
    /// configured group, stopping at the first failure.  No update is issued
    /// unless the whole plan succeeded.
    pub fn apply_config_on(&mut self, config: &ConfigFile, today: &Date) -> (r: Result<
        (),
        ApplyError,
    >)
        ensures
            r matches Err(ApplyError::MissingSchedule(n)) ==> schedule_match_idx(
                config.schedule@,
                n@,
            ) < 0 && (exists|i: int|
                0 <= i < config.groups@.len() && (#[trigger] config.groups@[i]).0@ == n@),
            r matches Err(ApplyError::GroupMissing(n)) ==> exists|i: int|
                0 <= i < config.groups@.len() && (#[trigger] config.groups@[i]).0@ == n@,
            r matches Err(ApplyError::UnknownUser(m)) ==> exists|i: int, k: int|
                0 <= i < config.groups@.len() && 0 <= k < config.groups@[i].1@.len()
                    && (#[trigger] config.groups@[i].1@[k])@ == m@,
    {
        let users = match self.galaxy.get_users() {
            Ok(v) => v,
            Err(e) => return Err(ApplyError::Repo(e)),
        };
        let roles = match self.galaxy.get_roles() {
            Ok(v) => v,
            Err(e) => return Err(ApplyError::Repo(e)),
        };
        let groups = match self.galaxy.get_groups() {
            Ok(v) => v,
            Err(e) => return Err(ApplyError::Repo(e)),
        };
        let training_name = RoleName::new(TRAINING_ROLE_NAME);
        let mut desired_roles: Vec<RoleName> = Vec::new();
        desired_roles.push(training_name.clone());
        let missing_roles = missing_role_names(&desired_roles, &roles);
        let mut created_roles = match self.create_missing_roles(&missing_roles) {
            Ok(v) => v,
            Err(e) => return Err(e),
        };
        let mut all_roles = roles;
        all_roles.append(&mut created_roles);
        let missing_groups = missing_group_names(&config.groups, &groups);
        let mut created_groups = match self.create_missing_groups(&missing_groups) {
            Ok(v) => v,
            Err(e) => return Err(e),
        };
        let mut all_groups = groups;
        all_groups.append(&mut created_groups);
        let training = match find_role_index(&all_roles, &training_name) {
            Some(i) => all_roles[i].id.clone(),
            None => return Err(ApplyError::TrainingRoleMissing),
        };
        let plan = match plan_updates(config, &users, &all_groups, &training, today) {
            Ok(p) => p,
            Err(e) => {
                proof {
                    lemma_spec_plan_err_source(
                        config.groups@,
                        config.schedule@,
                        users@,
                        all_groups@,
                        training,
                        *today,
                    );
                    let se = spec_plan(
                        config.groups@,
                        config.schedule@,
                        users@,
                        all_groups@,
                        training,
                        *today,
                    )->Err_0;
                    match se {
                        PlanError::MissingSchedule(n) => {
                            let i = choose|i: int|
                                0 <= i < config.groups@.len() && (#[trigger] config.groups@[i]).0
                                    == n;
                            assert((config.groups@[i]).0@ == n@);
                        },
                        PlanError::GroupMissing(n) => {
                            let i = choose|i: int|
                                0 <= i < config.groups@.len() && (#[trigger] config.groups@[i]).0
                                    == n;
                            assert((config.groups@[i]).0@ == n@);
                        },
                        PlanError::UnknownUser(m) => {
                            let (i, k) = choose|i: int, k: int|
                                0 <= i < config.groups@.len() && 0 <= k
                                    < config.groups@[i].1@.len() && #[trigger] config.groups@[i].1@[k]
                                    == m;
                            assert((config.groups@[i].1@[k])@ == m@);
                        },
                    }
                }
                return Err(e);
            },
        };
        let mut i: usize = 0;
        while i < plan.len()
            invariant
                i <= plan@.len(),
            decreases plan@.len() - i,
        {
            let item = &plan[i];
            match self.galaxy.update_group(&item.0, &item.1) {
                Ok(_) => {},
                Err(e) => return Err(ApplyError::Repo(e)),
            }
            i = i + 1;
        }
        Ok(())
    }

    /// One reconciliation run, sampling today's date once for the whole run.
    pub fn apply_config(&mut self, config: &ConfigFile) -> (r: Result<(), ApplyError>)
        ensures
            r matches Err(ApplyError::MissingSchedule(n)) ==> schedule_match_idx(
                config.schedule@,
                n@,
            ) < 0 && (exists|i: int|
                0 <= i < config.groups@.len() && (#[trigger] config.groups@[i]).0@ == n@),
            r matches Err(ApplyError::GroupMissing(n)) ==> exists|i: int|
                0 <= i < config.groups@.len() && (#[trigger] config.groups@[i]).0@ == n@,
            r matches Err(ApplyError::UnknownUser(m)) ==> exists|i: int, k: int|
                0 <= i < config.groups@.len() && 0 <= k < config.groups@[i].1@.len()
                    && (#[trigger] config.groups@[i].1@[k])@ == m@,
    {
        let today = Date::now();
        self.apply_config_on(config, &today)
    }
}

} // verus!
