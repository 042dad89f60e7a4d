//! The pure heart of reconciliation: given the configuration, the remote
//! snapshot, the training role's identifier and today's date, compute the
//! full-replacement update each configured group must receive.  Everything
//! here is a function of its arguments alone; the driver in `manager` feeds
//! it what the repository calls returned.

use crate::config::{range_contains, ConfigFile, TimeRange};
use crate::date::Date;
use crate::galaxy::RepoError;
use crate::lookup::{find_idx, lemma_find_idx_extends};
use crate::types::{Email, Group, GroupID, GroupName, GroupUpdatePayload, Role, RoleID, RoleName, User, UserID};
use vstd::prelude::*;

verus! {

/// Why a reconciliation run stopped.
#[derive(Debug, PartialEq)]
pub enum ApplyError {
    /// A repository call failed; transport errors propagate unchanged.
    Repo(RepoError),
    /// A configured group name has no `schedule` entry.
    MissingSchedule(GroupName),
    /// A configured group cannot be resolved remotely even after gap
    /// creation.
    GroupMissing(GroupName),
    /// A configured email has no matching remote user.
    UnknownUser(Email),
    /// No role named `training` exists even after gap creation.
    TrainingRoleMissing,
}

/// Index of the first user holding this address, `-1` if none does.
pub open spec fn user_match_idx(users: Seq<User>, email: Seq<char>) -> int {
    find_idx(users, |u: User| u.email@ == email)
}

/// Index of the first role carrying this name, `-1` if none does.
pub open spec fn role_match_idx(roles: Seq<Role>, name: Seq<char>) -> int {
    find_idx(roles, |ro: Role| ro.name@ == name)
}

/// Index of the first group carrying this name, `-1` if none does.
pub open spec fn group_match_idx(groups: Seq<Group>, name: Seq<char>) -> int {
    find_idx(groups, |g: Group| g.name@ == name)
}

/// `group_match_idx` returns `-1` exactly when no group carries the name,
/// and otherwise the least index of one that does.
pub proof fn lemma_group_match_props(groups: Seq<Group>, name: Seq<char>)
    ensures
        group_match_idx(groups, name) == -1 <==> (forall|j: int|
            0 <= j < groups.len() ==> (#[trigger] groups[j]).name@ != name),
        group_match_idx(groups, name) != -1 ==> {
            let i = group_match_idx(groups, name);
            &&& 0 <= i < groups.len()
            &&& groups[i].name@ == name
            &&& forall|j: int| 0 <= j < i ==> (#[trigger] groups[j]).name@ != name
        },
    decreases groups.len(),
{
    if groups.len() > 0 {
        let pre = groups.drop_last();
        assert(forall|j: int| 0 <= j < pre.len() ==> #[trigger] pre[j] == groups[j]);
        lemma_group_match_props(pre, name);
        assert(groups.last() == groups[groups.len() - 1]);
        let r = group_match_idx(groups, name);
        let rp = group_match_idx(pre, name);
        assert(r == if rp >= 0 {
            rp
        } else if groups.last().name@ == name {
            groups.len() - 1
        } else {
            -1int
        });
        if r == -1 {
            assert forall|j: int| 0 <= j < groups.len() implies (#[trigger] groups[j]).name@
                != name by {
                if j < groups.len() - 1 {
                    assert(pre[j] == groups[j]);
                } else {
                    assert(groups[j] == groups.last());
                }
            }
        } else {
            if rp >= 0 {
                assert(pre[r] == groups[r]);
            }
            assert(groups[r].name@ == name);
            assert forall|j: int| 0 <= j < r implies (#[trigger] groups[j]).name@ != name by {
                assert(pre[j] == groups[j]);
            }
        }
    }
}

/// Index of the schedule entry keyed by this name, `-1` if none is.
pub open spec fn schedule_match_idx(
    schedule: Seq<(GroupName, Vec<TimeRange>)>,
    name: Seq<char>,
) -> int {
    find_idx(schedule, |p: (GroupName, Vec<TimeRange>)| p.0@ == name)
}

/// Some window of the schedule contains the given day.
pub open spec fn spec_active(windows: Seq<TimeRange>, today: Date) -> bool {
    exists|k: int| 0 <= k < windows.len() && range_contains(#[trigger] windows[k], today)
}

/// The members each configured address resolves to, in configuration order,
/// or the first address with no matching remote user.
pub open spec fn spec_resolve(emails: Seq<Email>, users: Seq<User>) -> Result<Seq<UserID>, Email>
    decreases emails.len(),
{
    if emails.len() == 0 {
        Ok(Seq::empty())
    } else {
        match spec_resolve(emails.drop_last(), users) {
            Err(e) => Err(e),
            Ok(ids) => {
                let i = user_match_idx(users, emails.last()@);
                if i < 0 {
                    Err(emails.last())
                } else {
                    Ok(ids.push(users[i].id))
                }
            },
        }
    }
}

/// One planned `update_group` call: the target group and the exact
/// replacement values.
pub ghost struct PlanEntry {
    pub gid: GroupID,
    pub name: GroupName,
    pub user_ids: Seq<UserID>,
    pub role_ids: Seq<RoleID>,
}

/// The consistency failures planning can hit, with the offending value.
pub ghost enum PlanError {
    MissingSchedule(GroupName),
    GroupMissing(GroupName),
    UnknownUser(Email),
}

/// The full plan: one update per configured group, in configuration order,
/// or the first failure.  Per group the checks run in the engine's order:
/// schedule entry, remote group, member resolution.
pub open spec fn spec_plan(
    groups_cfg: Seq<(GroupName, Vec<Email>)>,
    schedule_cfg: Seq<(GroupName, Vec<TimeRange>)>,
    users: Seq<User>,
    groups: Seq<Group>,
    training: RoleID,
    today: Date,
) -> Result<Seq<PlanEntry>, PlanError>
    decreases groups_cfg.len(),
{
    if groups_cfg.len() == 0 {
        Ok(Seq::empty())
    } else {
        match spec_plan(groups_cfg.drop_last(), schedule_cfg, users, groups, training, today) {
            Err(e) => Err(e),
            Ok(entries) => {
                let name = groups_cfg.last().0;
                let emails = groups_cfg.last().1;
                let si = schedule_match_idx(schedule_cfg, name@);
                if si < 0 {
                    Err(PlanError::MissingSchedule(name))
                } else {
                    let gi = group_match_idx(groups, name@);
                    if gi < 0 {
                        Err(PlanError::GroupMissing(name))
                    } else {
                        match spec_resolve(emails@, users) {
                            Err(e) => Err(PlanError::UnknownUser(e)),
                            Ok(ids) => Ok(
                                entries.push(
                                    PlanEntry {
                                        gid: groups[gi].id,
                                        name: name,
                                        user_ids: ids,
                                        role_ids: if spec_active(schedule_cfg[si].1@, today) {
                                            seq![training]
                                        } else {
                                            Seq::empty()
                                        },
                                    },
                                ),
                            ),
                        }
                    }
                }
            },
        }
    }
}

/// The executable update matches the planned one: same target, and the
/// payload replaces the name, the member list and the role list with exactly
/// the planned values.
pub open spec fn entry_corresponds(e: (GroupID, GroupUpdatePayload), s: PlanEntry) -> bool {
    &&& e.0 == s.gid
    &&& e.1.name == Some(s.name)
    &&& e.1.user_ids matches Some(v) && v@ == s.user_ids
    &&& e.1.role_ids matches Some(v) && v@ == s.role_ids
}

/// Pointwise correspondence of a computed plan with the specified one.
pub open spec fn plan_corresponds(v: Seq<(GroupID, GroupUpdatePayload)>, s: Seq<PlanEntry>) -> bool {
    v.len() == s.len() && forall|i: int|
        0 <= i < v.len() ==> entry_corresponds(#[trigger] v[i], #[trigger] s[i])
}

/// The reported error carries the same offending value as the specified one.
pub open spec fn err_corresponds(e: ApplyError, s: PlanError) -> bool {
    match s {
        PlanError::MissingSchedule(n) => e == ApplyError::MissingSchedule(n),
        PlanError::GroupMissing(n) => e == ApplyError::GroupMissing(n),
        PlanError::UnknownUser(m) => e == ApplyError::UnknownUser(m),
    }
}

/// Any resolution failure names one of the listed addresses, and that
/// address matches no remote user.
pub proof fn lemma_spec_resolve_err_source(emails: Seq<Email>, users: Seq<User>)
    requires
        spec_resolve(emails, users) is Err,
    ensures
        ({
            let e = spec_resolve(emails, users)->Err_0;
            &&& user_match_idx(users, e@) < 0
            &&& exists|k: int| 0 <= k < emails.len() && #[trigger] emails[k] == e
        }),
    decreases emails.len(),
{
    if emails.len() > 0 {
        let pre = emails.drop_last();
        assert(forall|k: int| 0 <= k < pre.len() ==> #[trigger] pre[k] == emails[k]);
        if spec_resolve(pre, users) is Err {
            lemma_spec_resolve_err_source(pre, users);
            let e = spec_resolve(pre, users)->Err_0;
            let k = choose|k: int| 0 <= k < pre.len() && #[trigger] pre[k] == e;
            assert(emails[k] == e);
        } else {
            assert(emails[emails.len() - 1] == emails.last());
        }
    }
}

/// Any planning failure names an offending configured value: a configured
/// group name without a schedule entry, a configured group name no remote
/// group carries, or a configured address no remote user matches.
pub proof fn lemma_spec_plan_err_source(
    groups_cfg: Seq<(GroupName, Vec<Email>)>,
    schedule_cfg: Seq<(GroupName, Vec<TimeRange>)>,
    users: Seq<User>,
    groups: Seq<Group>,
    training: RoleID,
    today: Date,
)
    requires
        spec_plan(groups_cfg, schedule_cfg, users, groups, training, today) is Err,
    ensures
        ({
            let e = spec_plan(groups_cfg, schedule_cfg, users, groups, training, today)->Err_0;
            match e {
                PlanError::MissingSchedule(n) => schedule_match_idx(schedule_cfg, n@) < 0 && (
                exists|i: int| 0 <= i < groups_cfg.len() && (#[trigger] groups_cfg[i]).0 == n),
                PlanError::GroupMissing(n) => group_match_idx(groups, n@) < 0 && (exists|i: int|
                    0 <= i < groups_cfg.len() && (#[trigger] groups_cfg[i]).0 == n),
                PlanError::UnknownUser(m) => user_match_idx(users, m@) < 0 && (exists|i: int, k: int|
                    0 <= i < groups_cfg.len() && 0 <= k < groups_cfg[i].1@.len()
                        && #[trigger] groups_cfg[i].1@[k] == m),
            }
        }),
    decreases groups_cfg.len(),
{
    if groups_cfg.len() > 0 {
        let pre = groups_cfg.drop_last();
        assert(forall|i: int| 0 <= i < pre.len() ==> #[trigger] pre[i] == groups_cfg[i]);
        assert(groups_cfg.last() == groups_cfg[groups_cfg.len() - 1]);
        if spec_plan(pre, schedule_cfg, users, groups, training, today) is Err {
            lemma_spec_plan_err_source(pre, schedule_cfg, users, groups, training, today);
            let e = spec_plan(pre, schedule_cfg, users, groups, training, today)->Err_0;
            match e {
                PlanError::MissingSchedule(n) => {
                    let i = choose|i: int|
                        0 <= i < pre.len() && (#[trigger] pre[i]).0 == n;
                    assert(groups_cfg[i].0 == n);
                },
                PlanError::GroupMissing(n) => {
                    let i = choose|i: int|
                        0 <= i < pre.len() && (#[trigger] pre[i]).0 == n;
                    assert(groups_cfg[i].0 == n);
                },
                PlanError::UnknownUser(m) => {
                    let (i, k) = choose|i: int, k: int|
                        0 <= i < pre.len() && 0 <= k < pre[i].1@.len() && #[trigger] pre[i].1@[k]
                            == m;
                    assert(groups_cfg[i].1@[k] == m);
                },
            }
        } else {
            let e = spec_plan(groups_cfg, schedule_cfg, users, groups, training, today)->Err_0;
            let last = groups_cfg.last();
            match e {
                PlanError::UnknownUser(m) => {
                    lemma_spec_resolve_err_source(last.1@, users);
                    let k = choose|k: int|
                        0 <= k < last.1@.len() && #[trigger] last.1@[k] == m;
                    assert(groups_cfg[groups_cfg.len() - 1].1@[k] == m);
                },
                _ => {},
            }
        }
    }
}

/// Once a prefix of the addresses fails to resolve, the whole list fails the
/// same way.
proof fn lemma_spec_resolve_err_extends(emails: Seq<Email>, users: Seq<User>, m: int)
    requires
        0 <= m <= emails.len(),
        spec_resolve(emails.subrange(0, m), users) is Err,
    ensures
        spec_resolve(emails, users) == spec_resolve(emails.subrange(0, m), users),
    decreases emails.len() - m,
{
    if m == emails.len() {
        assert(emails.subrange(0, m) =~= emails);
    } else {
        assert(emails.subrange(0, m + 1).drop_last() =~= emails.subrange(0, m));
        lemma_spec_resolve_err_extends(emails, users, m + 1);
    }
}

/// Once a prefix of the configuration fails to plan, the whole configuration
/// fails the same way.
proof fn lemma_spec_plan_err_extends(
    groups_cfg: Seq<(GroupName, Vec<Email>)>,
    schedule_cfg: Seq<(GroupName, Vec<TimeRange>)>,
    users: Seq<User>,
    groups: Seq<Group>,
    training: RoleID,
    today: Date,
    m: int,
)
    requires
        0 <= m <= groups_cfg.len(),
        spec_plan(groups_cfg.subrange(0, m), schedule_cfg, users, groups, training, today) is Err,
    ensures
        spec_plan(groups_cfg, schedule_cfg, users, groups, training, today) == spec_plan(
            groups_cfg.subrange(0, m),
            schedule_cfg,
            users,
            groups,
            training,
            today,
        ),
    decreases groups_cfg.len() - m,
{
    if m == groups_cfg.len() {
        assert(groups_cfg.subrange(0, m) =~= groups_cfg);
    } else {
        assert(groups_cfg.subrange(0, m + 1).drop_last() =~= groups_cfg.subrange(0, m));
        lemma_spec_plan_err_extends(
            groups_cfg,
            schedule_cfg,
            users,
            groups,
            training,
            today,
            m + 1,
        );
    }
}

/// When every address has a matching remote user, resolution succeeds and
/// yields, in order, the identifier of the first user matching each address.
pub proof fn lemma_resolve_complete(emails: Seq<Email>, users: Seq<User>)
    requires
        forall|k: int|
            0 <= k < emails.len() ==> user_match_idx(users, (#[trigger] emails[k])@) >= 0,
    ensures
        ({
            let r = spec_resolve(emails, users);
            &&& r is Ok
            &&& r->Ok_0.len() == emails.len()
            &&& forall|k: int|
                0 <= k < emails.len() ==> r->Ok_0[k] == users[user_match_idx(
                    users,
                    (#[trigger] emails[k])@,
                )].id
        }),
    decreases emails.len(),
{
    if emails.len() > 0 {
        let pre = emails.drop_last();
        assert(forall|k: int| 0 <= k < pre.len() ==> #[trigger] pre[k] == emails[k]);
        lemma_resolve_complete(pre, users);
        let last = emails.last();
        assert(last == emails[emails.len() - 1]);
        let i = user_match_idx(users, last@);
        let r = spec_resolve(emails, users);
        let rp = spec_resolve(pre, users);
        assert(r == Ok::<Seq<UserID>, Email>(rp->Ok_0.push(users[i].id)));
        assert forall|k: int| 0 <= k < emails.len() implies r->Ok_0[k] == users[user_match_idx(
            users,
            (#[trigger] emails[k])@,
        )].id by {
            if k < emails.len() - 1 {
                assert(pre[k] == emails[k]);
                assert(r->Ok_0[k] == rp->Ok_0[k]);
            } else {
                assert(emails[k] == last);
            }
        }
    }
}

/// The law the engine's planning rests on: for every configuration whose
/// group names all have a schedule entry and a remote group, and whose
/// addresses all match a remote user, the plan holds exactly one update per
/// configured group, in order; its target is the first group carrying the
/// configured name, its member list the resolved identifiers of that group's
/// configured addresses in order, and its role list exactly the training
/// role when some window of that group's schedule contains today, empty
/// otherwise.
pub proof fn lemma_plan_complete(
    groups_cfg: Seq<(GroupName, Vec<Email>)>,
    schedule_cfg: Seq<(GroupName, Vec<TimeRange>)>,
    users: Seq<User>,
    groups: Seq<Group>,
    training: RoleID,
    today: Date,
)
    requires
        forall|i: int|
            0 <= i < groups_cfg.len() ==> schedule_match_idx(
                schedule_cfg,
                (#[trigger] groups_cfg[i]).0@,
            ) >= 0,
        forall|i: int|
            0 <= i < groups_cfg.len() ==> group_match_idx(groups, (#[trigger] groups_cfg[i]).0@)
                >= 0,
        forall|i: int, k: int|
            0 <= i < groups_cfg.len() && 0 <= k < (#[trigger] groups_cfg[i]).1@.len()
                ==> user_match_idx(users, (#[trigger] groups_cfg[i].1@[k])@) >= 0,
    ensures
        ({
            let r = spec_plan(groups_cfg, schedule_cfg, users, groups, training, today);
            &&& r is Ok
            &&& r->Ok_0.len() == groups_cfg.len()
            &&& forall|i: int|
                0 <= i < groups_cfg.len() ==> {
                    let e = r->Ok_0[i];
                    let name = (#[trigger] groups_cfg[i]).0;
                    &&& e.name == name
                    &&& e.gid == groups[group_match_idx(groups, name@)].id
                    &&& e.user_ids == spec_resolve(groups_cfg[i].1@, users)->Ok_0
                    &&& e.role_ids == if spec_active(
                        schedule_cfg[schedule_match_idx(schedule_cfg, name@)].1@,
                        today,
                    ) {
                        seq![training]
                    } else {
                        Seq::<RoleID>::empty()
                    }
                }
        }),
    decreases groups_cfg.len(),
{
    if groups_cfg.len() > 0 {
        let pre = groups_cfg.drop_last();
        assert(forall|i: int| 0 <= i < pre.len() ==> #[trigger] pre[i] == groups_cfg[i]);
        lemma_plan_complete(pre, schedule_cfg, users, groups, training, today);
        let last = groups_cfg.last();
        assert(last == groups_cfg[groups_cfg.len() - 1]);
        lemma_resolve_complete(last.1@, users);
        let r = spec_plan(groups_cfg, schedule_cfg, users, groups, training, today);
        let rp = spec_plan(pre, schedule_cfg, users, groups, training, today);
        assert(r is Ok && r->Ok_0 == rp->Ok_0.push(r->Ok_0.last()));
        assert forall|i: int| 0 <= i < groups_cfg.len() implies {
            let e = r->Ok_0[i];
            let name = (#[trigger] groups_cfg[i]).0;
            &&& e.name == name
            &&& e.gid == groups[group_match_idx(groups, name@)].id
            &&& e.user_ids == spec_resolve(groups_cfg[i].1@, users)->Ok_0
            &&& e.role_ids == if spec_active(
                schedule_cfg[schedule_match_idx(schedule_cfg, name@)].1@,
                today,
            ) {
                seq![training]
            } else {
                Seq::<RoleID>::empty()
            }
        } by {
            if i < groups_cfg.len() - 1 {
                assert(pre[i] == groups_cfg[i]);
                assert(r->Ok_0[i] == rp->Ok_0[i]);
            } else {
                assert(groups_cfg[i] == last);
            }
        }
    }
}

/// First user with the given address.
fn find_user_index(users: &Vec<User>, email: &Email) -> (r: Option<usize>)
    ensures
        match r {
            Some(i) => i < users@.len() && user_match_idx(users@, email@) == i,
            None => user_match_idx(users@, email@) == -1,
        },
{
    let mut i: usize = 0;
    let mut found: Option<usize> = None;
    while i < users.len()
        invariant
            i <= users@.len(),
            match found {
                Some(k) => user_match_idx(users@.subrange(0, i as int), email@) == k && k < i,
                None => user_match_idx(users@.subrange(0, i as int), email@) == -1,
            },
        decreases users@.len() - i,
    {
        proof {
            assert(users@.subrange(0, i + 1).drop_last() =~= users@.subrange(0, i as int));
        }
        if found.is_none() && users[i].email == *email {
            found = Some(i);
        }
        i = i + 1;
    }
    proof {
        assert(users@.subrange(0, users@.len() as int) =~= users@);
    }
    found
}

/// First role with the given name.
pub fn find_role_index(roles: &Vec<Role>, name: &RoleName) -> (r: Option<usize>)
    ensures
        match r {
            Some(i) => i < roles@.len() && role_match_idx(roles@, name@) == i,
            None => role_match_idx(roles@, name@) == -1,
        },
{
    let mut i: usize = 0;
    let mut found: Option<usize> = None;
    while i < roles.len()
        invariant
            i <= roles@.len(),
            match found {
                Some(k) => role_match_idx(roles@.subrange(0, i as int), name@) == k && k < i,
                None => role_match_idx(roles@.subrange(0, i as int), name@) == -1,
            },
        decreases roles@.len() - i,
    {
        proof {
            assert(roles@.subrange(0, i + 1).drop_last() =~= roles@.subrange(0, i as int));
        }
        if found.is_none() && roles[i].name == *name {
            found = Some(i);
        }
        i = i + 1;
    }
    proof {
        assert(roles@.subrange(0, roles@.len() as int) =~= roles@);
    }
    found
}

/// First group with the given name.
pub fn find_group_index(groups: &Vec<Group>, name: &GroupName) -> (r: Option<usize>)
    ensures
        match r {
            Some(i) => i < groups@.len() && group_match_idx(groups@, name@) == i,
            None => group_match_idx(groups@, name@) == -1,
        },
{
    let mut i: usize = 0;
    let mut found: Option<usize> = None;
    while i < groups.len()
        invariant
            i <= groups@.len(),
            match found {
                Some(k) => group_match_idx(groups@.subrange(0, i as int), name@) == k && k < i,
                None => group_match_idx(groups@.subrange(0, i as int), name@) == -1,
            },
        decreases groups@.len() - i,
    {
        proof {
            assert(groups@.subrange(0, i + 1).drop_last() =~= groups@.subrange(0, i as int));
        }
        if found.is_none() && groups[i].name == *name {
            found = Some(i);
        }
        i = i + 1;
    }
    proof {
        assert(groups@.subrange(0, groups@.len() as int) =~= groups@);
    }
    found
}

/// Schedule entry keyed by the given name.
fn find_schedule_index(schedule: &Vec<(GroupName, Vec<TimeRange>)>, name: &GroupName) -> (r:
    Option<usize>)
    ensures
        match r {
            Some(i) => i < schedule@.len() && schedule_match_idx(schedule@, name@) == i,
            None => schedule_match_idx(schedule@, name@) == -1,
        },
{
    let mut i: usize = 0;
    let mut found: Option<usize> = None;
    while i < schedule.len()
        invariant
            i <= schedule@.len(),
            match found {
                Some(k) => schedule_match_idx(schedule@.subrange(0, i as int), name@) == k && k
                    < i,
                None => schedule_match_idx(schedule@.subrange(0, i as int), name@) == -1,
            },
        decreases schedule@.len() - i,
    {
        proof {
            assert(schedule@.subrange(0, i + 1).drop_last() =~= schedule@.subrange(0, i as int));
        }
        if found.is_none() && schedule[i].0 == *name {
            found = Some(i);
        }
        i = i + 1;
    }
    proof {
        assert(schedule@.subrange(0, schedule@.len() as int) =~= schedule@);
    }
    found
}

/// Maps every configured address to the matching remote user's identifier,
/// in order, or reports the first address with no match.
pub fn resolve_user_ids(emails: &Vec<Email>, users: &Vec<User>) -> (r: Result<Vec<UserID>, Email>)
    ensures
        match r {
            Ok(ids) => spec_resolve(emails@, users@) == Ok::<Seq<UserID>, Email>(ids@),
            Err(e) => spec_resolve(emails@, users@) == Err::<Seq<UserID>, Email>(e),
        },
{
    let mut out: Vec<UserID> = Vec::new();
    let mut i: usize = 0;
    while i < emails.len()
        invariant
            i <= emails@.len(),
            spec_resolve(emails@.subrange(0, i as int), users@) == Ok::<Seq<UserID>, Email>(out@),
        decreases emails@.len() - i,
    {
        proof {
            assert(emails@.subrange(0, i + 1).drop_last() =~= emails@.subrange(0, i as int));
        }
        match find_user_index(users, &emails[i]) {
            Some(j) => {
                out.push(users[j].id.clone());
            },
            None => {
                proof {
                    lemma_spec_resolve_err_extends(emails@, users@, i + 1);
                }
                return Err(emails[i].clone());
            },
        }
        i = i + 1;
    }
    proof {
        assert(emails@.subrange(0, emails@.len() as int) =~= emails@);
    }
    Ok(out)
}

/// Whether any configured window contains today.
pub fn any_window_contains(windows: &Vec<TimeRange>, today: &Date) -> (r: bool)
    ensures
        r == spec_active(windows@, *today),
{
    let mut i: usize = 0;
    while i < windows.len()
        invariant
            i <= windows@.len(),
            forall|k: int| 0 <= k < i ==> !range_contains(#[trigger] windows@[k], *today),
        decreases windows@.len() - i,
    {
        if windows[i].contains(today) {
            return true;
        }
        i = i + 1;
    }
    false
}

/// Computes the update each configured group must receive: the resolved
/// member identifiers, and the training role exactly when a window of the
/// group's schedule contains today.  Fails on the first configured group
/// whose schedule entry is missing, that has no remote counterpart, or one
/// of whose addresses matches no remote user — and says which.
pub fn plan_updates(
    config: &ConfigFile,
    users: &Vec<User>,
    groups: &Vec<Group>,
    training: &RoleID,
    today: &Date,
) -> (r: Result<Vec<(GroupID, GroupUpdatePayload)>, ApplyError>)
    ensures
        ({
            let sp = spec_plan(config.groups@, config.schedule@, users@, groups@, *training, *today);
            match r {
                Ok(plan) => sp matches Ok(sl) && plan_corresponds(plan@, sl),
                Err(e) => sp matches Err(se) && err_corresponds(e, se),
            }
        }),
{
    let mut out: Vec<(GroupID, GroupUpdatePayload)> = Vec::new();
    let mut i: usize = 0;
    while i < config.groups.len()
        invariant
            i <= config.groups@.len(),
            ({
                let sp = spec_plan(
                    config.groups@.subrange(0, i as int),
                    config.schedule@,
                    users@,
                    groups@,
                    *training,
                    *today,
                );
                sp matches Ok(sl) && plan_corresponds(out@, sl)
            }),
        decreases config.groups@.len() - i,
    {
        proof {
            assert(config.groups@.subrange(0, i + 1).drop_last() =~= config.groups@.subrange(
                0,
                i as int,
            ));
        }
        let pair = &config.groups[i];
        let si = match find_schedule_index(&config.schedule, &pair.0) {
            Some(si) => si,
            None => {
                proof {
                    lemma_spec_plan_err_extends(
                        config.groups@,
                        config.schedule@,
                        users@,
                        groups@,
                        *training,
                        *today,
                        i + 1,
                    );
                }
                return Err(ApplyError::MissingSchedule(pair.0.clone()));
            },
        };
        let gi = match find_group_index(groups, &pair.0) {
            Some(gi) => gi,
            None => {
                proof {
                    lemma_spec_plan_err_extends(
                        config.groups@,
                        config.schedule@,
                        users@,
                        groups@,
                        *training,
                        *today,
                        i + 1,
                    );
                }
                return Err(ApplyError::GroupMissing(pair.0.clone()));
            },
        };
        let ids = match resolve_user_ids(&pair.1, users) {
            Ok(ids) => ids,
            Err(email) => {
                proof {
                    lemma_spec_plan_err_extends(
                        config.groups@,
                        config.schedule@,
                        users@,
                        groups@,
                        *training,
                        *today,
                        i + 1,
                    );
                }
                return Err(ApplyError::UnknownUser(email));
            },
        };
        let active = any_window_contains(&config.schedule[si].1, today);
        let mut role_ids: Vec<RoleID> = Vec::new();
        if active {
            role_ids.push(training.clone());
        }
        let ghost entry = PlanEntry {
            gid: groups@[gi as int].id,
            name: config.groups@[i as int].0,
            user_ids: ids@,
            role_ids: if active {
                seq![*training]
            } else {
                Seq::<RoleID>::empty()
            },
        };
        proof {
            assert(role_ids@ =~= entry.role_ids);
        }
        let payload = GroupUpdatePayload {
            name: Some(pair.0.clone()),
            user_ids: Some(ids),
            role_ids: Some(role_ids),
        };
        let ghost prev = out@;
        out.push((groups[gi].id.clone(), payload));
        proof {
            let sub1 = config.groups@.subrange(0, i + 1);
            let sp0 = spec_plan(
                config.groups@.subrange(0, i as int),
                config.schedule@,
                users@,
                groups@,
                *training,
                *today,
            );
            let sp1 = spec_plan(sub1, config.schedule@, users@, groups@, *training, *today);
            assert(sub1.last() == config.groups@[i as int]);
            assert(sp1 == Ok::<Seq<PlanEntry>, PlanError>(sp0->Ok_0.push(entry)));
            assert(forall|k: int| 0 <= k < prev.len() ==> out@[k] == prev[k]);
            assert(entry_corresponds(out@[out@.len() - 1], entry));
        }
        i = i + 1;
    }
    proof {
        assert(config.groups@.subrange(0, config.groups@.len() as int) =~= config.groups@);
    }
    Ok(out)
}

/// Index of the first name in `names` equal to `name`, `-1` if none is.
pub open spec fn role_name_match_idx(names: Seq<RoleName>, name: Seq<char>) -> int {
    find_idx(names, |m: RoleName| m@ == name)
}

/// Index of the first name in `names` equal to `name`, `-1` if none is.
pub open spec fn group_name_match_idx(names: Seq<GroupName>, name: Seq<char>) -> int {
    find_idx(names, |m: GroupName| m@ == name)
}

/// The names among `desired` that no role in `roles` carries, each once, in
/// first-occurrence order.
pub open spec fn spec_missing_role_names(desired: Seq<RoleName>, roles: Seq<Role>) -> Seq<
    RoleName,
>
    decreases desired.len(),
{
    if desired.len() == 0 {
        Seq::empty()
    } else {
        let prefix = spec_missing_role_names(desired.drop_last(), roles);
        let n = desired.last();
        if role_match_idx(roles, n@) == -1 && role_name_match_idx(prefix, n@) == -1 {
            prefix.push(n)
        } else {
            prefix
        }
    }
}

/// The configured names that no group in `groups` carries, each once, in
/// first-occurrence order.
pub open spec fn spec_missing_group_names(
    cfg_groups: Seq<(GroupName, Vec<Email>)>,
    groups: Seq<Group>,
) -> Seq<GroupName>
    decreases cfg_groups.len(),
{
    if cfg_groups.len() == 0 {
        Seq::empty()
    } else {
        let prefix = spec_missing_group_names(cfg_groups.drop_last(), groups);
        let n = cfg_groups.last().0;
        if group_match_idx(groups, n@) == -1 && group_name_match_idx(prefix, n@) == -1 {
            prefix.push(n)
        } else {
            prefix
        }
    }
}

/// `role_name_match_idx` returns `-1` exactly when the name is absent from
/// the list, and otherwise the index of an occurrence.
pub proof fn lemma_role_name_match_props(names: Seq<RoleName>, name: Seq<char>)
    ensures
        role_name_match_idx(names, name) == -1 <==> (forall|j: int|
            0 <= j < names.len() ==> (#[trigger] names[j])@ != name),
        role_name_match_idx(names, name) != -1 ==> {
            let i = role_name_match_idx(names, name);
            0 <= i < names.len() && names[i]@ == name
        },
    decreases names.len(),
{
    if names.len() > 0 {
        let pre = names.drop_last();
        assert(forall|j: int| 0 <= j < pre.len() ==> #[trigger] pre[j] == names[j]);
        lemma_role_name_match_props(pre, name);
        assert(names.last() == names[names.len() - 1]);
        let r = role_name_match_idx(names, name);
        if r == -1 {
            assert forall|j: int| 0 <= j < names.len() implies (#[trigger] names[j])@ != name by {
                if j < names.len() - 1 {
                    assert(pre[j] == names[j]);
                } else {
                    assert(names[j] == names.last());
                }
            }
        } else {
            if role_name_match_idx(pre, name) >= 0 {
                assert(pre[r] == names[r]);
            }
        }
    }
}

/// Gap creation is exact for roles too: the creation list holds a desired
/// role name exactly when no existing role carries it, and holds it once.
pub proof fn lemma_missing_role_names_props(desired: Seq<RoleName>, roles: Seq<Role>)
    ensures
        ({
            let r = spec_missing_role_names(desired, roles);
            &&& forall|k: int|
                0 <= k < r.len() ==> role_match_idx(roles, (#[trigger] r[k])@) == -1
            &&& forall|k: int|
                0 <= k < r.len() ==> (exists|j: int|
                    0 <= j < desired.len() && (#[trigger] desired[j])@ == (#[trigger] r[k])@)
            &&& forall|j: int|
                0 <= j < desired.len() && role_match_idx(roles, (#[trigger] desired[j])@) == -1
                    ==> role_name_match_idx(r, desired[j]@) != -1
            &&& forall|k: int, l: int|
                0 <= k < l < r.len() ==> (#[trigger] r[k])@ != (#[trigger] r[l])@
        }),
    decreases desired.len(),
{
    if desired.len() > 0 {
        let pre = desired.drop_last();
        assert(forall|j: int| 0 <= j < pre.len() ==> #[trigger] pre[j] == desired[j]);
        lemma_missing_role_names_props(pre, roles);
        let rp = spec_missing_role_names(pre, roles);
        let r = spec_missing_role_names(desired, roles);
        let n = desired.last();
        assert(desired.last() == desired[desired.len() - 1]);
        lemma_role_name_match_props(rp, n@);
        if role_match_idx(roles, n@) == -1 && role_name_match_idx(rp, n@) == -1 {
            // the missing name is appended
            assert(r == rp.push(n));
            assert(forall|k: int| 0 <= k < rp.len() ==> #[trigger] r[k] == rp[k]);
            assert(r[r.len() - 1] == n);
            assert forall|k: int| 0 <= k < r.len() implies (exists|j: int|
                0 <= j < desired.len() && (#[trigger] desired[j])@ == (#[trigger] r[k])@) by {
                if k < r.len() - 1 {
                    assert(exists|j: int| 0 <= j < pre.len() && (#[trigger] pre[j])@ == rp[k]@);
                    let j = choose|j: int| 0 <= j < pre.len() && (#[trigger] pre[j])@ == rp[k]@;
                    assert(desired[j]@ == r[k]@);
                } else {
                    assert(desired[desired.len() - 1]@ == r[k]@);
                }
            }
            assert forall|j: int|
                0 <= j < desired.len() && role_match_idx(roles, (#[trigger] desired[j])@)
                    == -1 implies role_name_match_idx(r, desired[j]@) != -1 by {
                lemma_role_name_match_props(r, desired[j]@);
                if j < desired.len() - 1 {
                    assert(pre[j] == desired[j]);
                    let k = role_name_match_idx(rp, pre[j]@);
                    assert(k != -1);
                    lemma_role_name_match_props(rp, pre[j]@);
                    assert(r[k]@ == desired[j]@);
                } else {
                    assert(r[r.len() - 1]@ == desired[j]@);
                }
            }
        } else {
            assert(r == rp);
            assert forall|j: int|
                0 <= j < desired.len() && role_match_idx(roles, (#[trigger] desired[j])@)
                    == -1 implies role_name_match_idx(r, desired[j]@) != -1 by {
                if j < desired.len() - 1 {
                    assert(pre[j] == desired[j]);
                } else {
                    assert(desired[j] == n);
                    if role_match_idx(roles, n@) == -1 {
                        assert(role_name_match_idx(rp, n@) != -1);
                    }
                }
            }
        }
    }
}

/// `group_name_match_idx` returns `-1` exactly when the name is absent from
/// the list, and otherwise the index of an occurrence.
pub proof fn lemma_group_name_match_props(names: Seq<GroupName>, name: Seq<char>)
    ensures
        group_name_match_idx(names, name) == -1 <==> (forall|j: int|
            0 <= j < names.len() ==> (#[trigger] names[j])@ != name),
        group_name_match_idx(names, name) != -1 ==> {
            let i = group_name_match_idx(names, name);
            0 <= i < names.len() && names[i]@ == name
        },
    decreases names.len(),
{
    if names.len() > 0 {
        let pre = names.drop_last();
        assert(forall|j: int| 0 <= j < pre.len() ==> #[trigger] pre[j] == names[j]);
        lemma_group_name_match_props(pre, name);
        assert(names.last() == names[names.len() - 1]);
        let r = group_name_match_idx(names, name);
        if r == -1 {
            assert forall|j: int| 0 <= j < names.len() implies (#[trigger] names[j])@ != name by {
                if j < names.len() - 1 {
                    assert(pre[j] == names[j]);
                } else {
                    assert(names[j] == names.last());
                }
            }
        } else {
            if group_name_match_idx(pre, name) >= 0 {
                assert(pre[r] == names[r]);
            }
        }
    }
}

/// Gap creation is exact: the creation list holds a name exactly when it is
/// configured and absent remotely, and holds it once — each gap triggers
/// exactly one creation.
pub proof fn lemma_missing_group_names_props(
    cfg_groups: Seq<(GroupName, Vec<Email>)>,
    groups: Seq<Group>,
)
    ensures
        ({
            let r = spec_missing_group_names(cfg_groups, groups);
            &&& forall|k: int|
                0 <= k < r.len() ==> group_match_idx(groups, (#[trigger] r[k])@) == -1
            &&& forall|k: int|
                0 <= k < r.len() ==> (exists|j: int|
                    0 <= j < cfg_groups.len() && (#[trigger] cfg_groups[j]).0@ == (
                    #[trigger] r[k])@)
            &&& forall|j: int|
                0 <= j < cfg_groups.len() && group_match_idx(
                    groups,
                    (#[trigger] cfg_groups[j]).0@,
                ) == -1 ==> group_name_match_idx(r, cfg_groups[j].0@) != -1
            &&& forall|k: int, l: int|
                0 <= k < l < r.len() ==> (#[trigger] r[k])@ != (#[trigger] r[l])@
        }),
    decreases cfg_groups.len(),
{
    if cfg_groups.len() > 0 {
        let pre = cfg_groups.drop_last();
        assert(forall|j: int| 0 <= j < pre.len() ==> #[trigger] pre[j] == cfg_groups[j]);
        lemma_missing_group_names_props(pre, groups);
        let rp = spec_missing_group_names(pre, groups);
        let r = spec_missing_group_names(cfg_groups, groups);
        let n = cfg_groups.last().0;
        assert(cfg_groups.last() == cfg_groups[cfg_groups.len() - 1]);
        lemma_group_name_match_props(rp, n@);
        if group_match_idx(groups, n@) == -1 && group_name_match_idx(rp, n@) == -1 {
            // the missing name is appended
            assert(r == rp.push(n));
            assert(forall|k: int| 0 <= k < rp.len() ==> #[trigger] r[k] == rp[k]);
            assert(r[r.len() - 1] == n);
            assert forall|k: int| 0 <= k < r.len() implies (exists|j: int|
                0 <= j < cfg_groups.len() && (#[trigger] cfg_groups[j]).0@ == (#[trigger] r[k])@)
                by {
                if k < r.len() - 1 {
                    assert(exists|j: int| 0 <= j < pre.len() && (#[trigger] pre[j]).0@ == rp[k]@);
                    let j = choose|j: int|
                        0 <= j < pre.len() && (#[trigger] pre[j]).0@ == rp[k]@;
                    assert(cfg_groups[j].0@ == r[k]@);
                } else {
                    assert(cfg_groups[cfg_groups.len() - 1].0@ == r[k]@);
                }
            }
            assert forall|j: int|
                0 <= j < cfg_groups.len() && group_match_idx(
                    groups,
                    (#[trigger] cfg_groups[j]).0@,
                ) == -1 implies group_name_match_idx(r, cfg_groups[j].0@) != -1 by {
                lemma_group_name_match_props(r, cfg_groups[j].0@);
                if j < cfg_groups.len() - 1 {
                    assert(pre[j] == cfg_groups[j]);
                    let k = group_name_match_idx(rp, pre[j].0@);
                    assert(k != -1);
                    lemma_group_name_match_props(rp, pre[j].0@);
                    assert(r[k]@ == cfg_groups[j].0@);
                } else {
                    assert(r[r.len() - 1]@ == cfg_groups[j].0@);
                }
            }
        } else {
            assert(r == rp);
            assert forall|j: int|
                0 <= j < cfg_groups.len() && group_match_idx(
                    groups,
                    (#[trigger] cfg_groups[j]).0@,
                ) == -1 implies group_name_match_idx(r, cfg_groups[j].0@) != -1 by {
                if j < cfg_groups.len() - 1 {
                    assert(pre[j] == cfg_groups[j]);
                } else {
                    assert(cfg_groups[j].0 == n);
                    if group_match_idx(groups, n@) == -1 {
                        assert(group_name_match_idx(rp, n@) != -1);
                    }
                }
            }
        }
    }
}

/// The role names among `desired` that no existing role carries, each once,
/// in first-occurrence order: each such gap triggers exactly one creation.
pub fn missing_role_names(desired: &Vec<RoleName>, roles: &Vec<Role>) -> (r: Vec<RoleName>)
    ensures
        r@ == spec_missing_role_names(desired@, roles@),
{
    let mut out: Vec<RoleName> = Vec::new();
    let mut j: usize = 0;
    while j < desired.len()
        invariant
            j <= desired@.len(),
            out@ == spec_missing_role_names(desired@.subrange(0, j as int), roles@),
        decreases desired@.len() - j,
    {
        proof {
            assert(desired@.subrange(0, j + 1).drop_last() =~= desired@.subrange(0, j as int));
        }
        let name = &desired[j];
        let absent = match find_role_index(roles, name) {
            Some(_) => false,
            None => true,
        };
        if absent && !role_names_contain(&out, name) {
            out.push(name.clone());
        }
        j = j + 1;
    }
    proof {
        assert(desired@.subrange(0, desired@.len() as int) =~= desired@);
    }
    out
}

/// The configured group names that no existing group carries, each once, in
/// first-occurrence order: each such gap triggers exactly one creation.
pub fn missing_group_names(
    cfg_groups: &Vec<(GroupName, Vec<Email>)>,
    groups: &Vec<Group>,
) -> (r: Vec<GroupName>)
    ensures
        r@ == spec_missing_group_names(cfg_groups@, groups@),
{
    let mut out: Vec<GroupName> = Vec::new();
    let mut j: usize = 0;
    while j < cfg_groups.len()
        invariant
            j <= cfg_groups@.len(),
            out@ == spec_missing_group_names(cfg_groups@.subrange(0, j as int), groups@),
        decreases cfg_groups@.len() - j,
    {
        proof {
            assert(cfg_groups@.subrange(0, j + 1).drop_last() =~= cfg_groups@.subrange(
                0,
                j as int,
            ));
        }
        let name = &cfg_groups[j].0;
        let absent = match find_group_index(groups, name) {
            Some(_) => false,
            None => true,
        };
        if absent && !group_names_contain(&out, name) {
            out.push(name.clone());
        }
        j = j + 1;
    }
    proof {
        assert(cfg_groups@.subrange(0, cfg_groups@.len() as int) =~= cfg_groups@);
    }
    out
}

/// Whether some element of `v` carries the same name.
fn role_names_contain(v: &Vec<RoleName>, name: &RoleName) -> (r: bool)
    ensures
        r == (role_name_match_idx(v@, name@) != -1),
{
    let mut i: usize = 0;
    while i < v.len()
        invariant
            i <= v@.len(),
            role_name_match_idx(v@.subrange(0, i as int), name@) == -1,
        decreases v@.len() - i,
    {
        proof {
            assert(v@.subrange(0, i + 1).drop_last() =~= v@.subrange(0, i as int));
        }
        if v[i] == *name {
            proof {
                lemma_find_idx_extends(v@, |m: RoleName| m@ == name@, i + 1);
            }
            return true;
        }
        i = i + 1;
    }
    proof {
        assert(v@.subrange(0, v@.len() as int) =~= v@);
    }
    false
}

/// Whether some element of `v` carries the same name.
fn group_names_contain(v: &Vec<GroupName>, name: &GroupName) -> (r: bool)
    ensures
        r == (group_name_match_idx(v@, name@) != -1),
{
    let mut i: usize = 0;
    while i < v.len()
        invariant
            i <= v@.len(),
            group_name_match_idx(v@.subrange(0, i as int), name@) == -1,
        decreases v@.len() - i,
    {
        proof {
            assert(v@.subrange(0, i + 1).drop_last() =~= v@.subrange(0, i as int));
        }
        if v[i] == *name {
            proof {
                lemma_find_idx_extends(v@, |m: GroupName| m@ == name@, i + 1);
            }
            return true;
        }
        i = i + 1;
    }
    proof {
        assert(v@.subrange(0, v@.len() as int) =~= v@);
    }
    false
}

} // verus!
