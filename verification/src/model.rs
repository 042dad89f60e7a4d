//! A model of the remote directory under full-replacement updates, and the
//! idempotence law: a second run with an unchanged configuration and an
//! unchanged today plans the very same updates, and replaying them leaves
//! the directory exactly as the first run left it.

use crate::config::{distinct_group_keys, TimeRange};
use crate::date::Date;
use crate::plan::{group_match_idx, lemma_group_match_props, spec_plan, PlanEntry};
use crate::types::{Email, Group, GroupName, Role, RoleID, User, UserID};
use vstd::prelude::*;

verus! {

/// The remote directory: its entity lists and, per group identifier, the
/// full membership and role assignment.
pub ghost struct DirectoryState {
    pub users: Seq<User>,
    pub roles: Seq<Role>,
    pub groups: Seq<Group>,
    pub members: Map<Seq<char>, Seq<UserID>>,
    pub assigned: Map<Seq<char>, Seq<RoleID>>,
}

/// No two groups share an identifier, as a directory keyed by identifier
/// guarantees.
pub open spec fn distinct_group_ids(groups: Seq<Group>) -> bool {
    forall|i: int, j: int|
        0 <= i < j < groups.len() ==> (#[trigger] groups[i]).id@ != (#[trigger] groups[j]).id@
}

/// The update's target group carries the payload's name afterwards.
pub open spec fn rename_if_target(g: Group, e: PlanEntry) -> Group {
    if g.id@ == e.gid@ {
        Group {
            id: g.id,
            name: e.name,
            model_class: g.model_class,
            url: g.url,
            roles_url: g.roles_url,
            users_url: g.users_url,
        }
    } else {
        g
    }
}

/// One full-replacement update applied to the model: the target group is
/// renamed to the payload's name, and its membership and role list are
/// replaced entirely by the payload's.
pub open spec fn apply_entry(s: DirectoryState, e: PlanEntry) -> DirectoryState {
    DirectoryState {
        users: s.users,
        roles: s.roles,
        groups: s.groups.map_values(|g: Group| rename_if_target(g, e)),
        members: s.members.insert(e.gid@, e.user_ids),
        assigned: s.assigned.insert(e.gid@, e.role_ids),
    }
}

/// A whole plan applied in order.
pub open spec fn apply_plan(s: DirectoryState, plan: Seq<PlanEntry>) -> DirectoryState
    decreases plan.len(),
{
    if plan.len() == 0 {
        s
    } else {
        apply_entry(apply_plan(s, plan.drop_last()), plan.last())
    }
}

/// Group lists that agree on identifiers and on their names' text.
pub open spec fn groups_similar(a: Seq<Group>, b: Seq<Group>) -> bool {
    &&& a.len() == b.len()
    &&& forall|i: int|
        0 <= i < a.len() ==> (#[trigger] a[i]).id == b[i].id && a[i].name@ == (
        #[trigger] b[i]).name@
}

/// Name resolution agrees on group lists that agree on names.
proof fn lemma_group_match_similar(a: Seq<Group>, b: Seq<Group>, name: Seq<char>)
    requires
        groups_similar(a, b),
    ensures
        group_match_idx(a, name) == group_match_idx(b, name),
    decreases a.len(),
{
    if a.len() > 0 {
        assert(forall|i: int|
            0 <= i < a.len() - 1 ==> #[trigger] a.drop_last()[i] == a[i] && #[trigger] b
                .drop_last()[i] == b[i]);
        lemma_group_match_similar(a.drop_last(), b.drop_last(), name);
    }
}

/// Planning reads groups only through their identifiers and names: group
/// lists that agree there yield the same plan.
pub proof fn lemma_plan_reads_names(
    groups_cfg: Seq<(GroupName, Vec<Email>)>,
    schedule_cfg: Seq<(GroupName, Vec<TimeRange>)>,
    users: Seq<User>,
    a: Seq<Group>,
    b: Seq<Group>,
    training: RoleID,
    today: Date,
)
    requires
        groups_similar(a, b),
    ensures
        spec_plan(groups_cfg, schedule_cfg, users, a, training, today) == spec_plan(
            groups_cfg,
            schedule_cfg,
            users,
            b,
            training,
            today,
        ),
    decreases groups_cfg.len(),
{
    if groups_cfg.len() > 0 {
        lemma_plan_reads_names(
            groups_cfg.drop_last(),
            schedule_cfg,
            users,
            a,
            b,
            training,
            today,
        );
        let name = groups_cfg.last().0@;
        lemma_group_match_similar(a, b, name);
        let gi = group_match_idx(a, name);
        if gi >= 0 {
            lemma_group_match_props(a, name);
            assert(a[gi].id == b[gi].id);
        }
    }
}

/// A successful plan has one entry per configured group: it carries the
/// configured name and targets the first group carrying that name.
proof fn lemma_plan_entry_shape(
    groups_cfg: Seq<(GroupName, Vec<Email>)>,
    schedule_cfg: Seq<(GroupName, Vec<TimeRange>)>,
    users: Seq<User>,
    groups: Seq<Group>,
    training: RoleID,
    today: Date,
)
    requires
        spec_plan(groups_cfg, schedule_cfg, users, groups, training, today) is Ok,
    ensures
        ({
            let plan = spec_plan(groups_cfg, schedule_cfg, users, groups, training, today)->Ok_0;
            &&& plan.len() == groups_cfg.len()
            &&& forall|i: int|
                0 <= i < plan.len() ==> {
                    let name = (#[trigger] groups_cfg[i]).0;
                    &&& (#[trigger] plan[i]).name == name
                    &&& group_match_idx(groups, name@) >= 0
                    &&& plan[i].gid == groups[group_match_idx(groups, name@)].id
                }
        }),
    decreases groups_cfg.len(),
{
    if groups_cfg.len() > 0 {
        let pre = groups_cfg.drop_last();
        assert(forall|i: int| 0 <= i < pre.len() ==> #[trigger] pre[i] == groups_cfg[i]);
        lemma_plan_entry_shape(pre, schedule_cfg, users, groups, training, today);
        let plan = spec_plan(groups_cfg, schedule_cfg, users, groups, training, today)->Ok_0;
        let prefix = spec_plan(pre, schedule_cfg, users, groups, training, today)->Ok_0;
        assert(plan == prefix.push(plan.last()));
        assert(groups_cfg.last() == groups_cfg[groups_cfg.len() - 1]);
        assert(forall|i: int| 0 <= i < prefix.len() ==> #[trigger] plan[i] == prefix[i]);
        assert forall|i: int| 0 <= i < plan.len() implies {
            let name = (#[trigger] groups_cfg[i]).0;
            &&& (#[trigger] plan[i]).name == name
            &&& group_match_idx(groups, name@) >= 0
            &&& plan[i].gid == groups[group_match_idx(groups, name@)].id
        } by {
            if i < plan.len() - 1 {
                assert(pre[i] == groups_cfg[i]);
                assert(plan[i] == prefix[i]);
            } else {
                assert(groups_cfg[i] == groups_cfg.last());
                assert(plan[i] == plan.last());
            }
        }
    }
}

/// In a successful plan over a directory without duplicate group
/// identifiers and with pairwise-distinct configured names, no two updates
/// target the same group.
proof fn lemma_plan_gids_distinct(
    groups_cfg: Seq<(GroupName, Vec<Email>)>,
    schedule_cfg: Seq<(GroupName, Vec<TimeRange>)>,
    users: Seq<User>,
    groups: Seq<Group>,
    training: RoleID,
    today: Date,
)
    requires
        distinct_group_keys(groups_cfg),
        distinct_group_ids(groups),
        spec_plan(groups_cfg, schedule_cfg, users, groups, training, today) is Ok,
    ensures
        ({
            let plan = spec_plan(groups_cfg, schedule_cfg, users, groups, training, today)->Ok_0;
            forall|i: int, j: int|
                0 <= i < j < plan.len() ==> (#[trigger] plan[i]).gid@ != (#[trigger] plan[j]).gid@
        }),
{
    lemma_plan_entry_shape(groups_cfg, schedule_cfg, users, groups, training, today);
    let plan = spec_plan(groups_cfg, schedule_cfg, users, groups, training, today)->Ok_0;
    assert forall|i: int, j: int| 0 <= i < j < plan.len() implies (#[trigger] plan[i]).gid@ != (
    #[trigger] plan[j]).gid@ by {
        let ni = groups_cfg[i].0@;
        let nj = groups_cfg[j].0@;
        assert((#[trigger] plan[i]).name == groups_cfg[i].0);
        assert((#[trigger] plan[j]).name == groups_cfg[j].0);
        let gi = group_match_idx(groups, ni);
        let gj = group_match_idx(groups, nj);
        assert(gi >= 0 && gj >= 0);
        lemma_group_match_props(groups, ni);
        lemma_group_match_props(groups, nj);
        assert(groups[gi].name@ == ni && groups[gj].name@ == nj);
        assert(ni != nj);
        assert(gi != gj);
        assert(plan[i].gid == groups[gi].id && plan[j].gid == groups[gj].id);
    }
}

/// Every update of a successful plan targets a group that already carries
/// the configured name.
spec fn entry_sound(e: PlanEntry, groups: Seq<Group>) -> bool {
    exists|gi: int|
        0 <= gi < groups.len() && (#[trigger] groups[gi]).id == e.gid && groups[gi].name@
            == e.name@
}

proof fn lemma_plan_entries_sound(
    groups_cfg: Seq<(GroupName, Vec<Email>)>,
    schedule_cfg: Seq<(GroupName, Vec<TimeRange>)>,
    users: Seq<User>,
    groups: Seq<Group>,
    training: RoleID,
    today: Date,
)
    requires
        spec_plan(groups_cfg, schedule_cfg, users, groups, training, today) is Ok,
    ensures
        ({
            let plan = spec_plan(groups_cfg, schedule_cfg, users, groups, training, today)->Ok_0;
            forall|i: int| 0 <= i < plan.len() ==> entry_sound(#[trigger] plan[i], groups)
        }),
{
    lemma_plan_entry_shape(groups_cfg, schedule_cfg, users, groups, training, today);
    let plan = spec_plan(groups_cfg, schedule_cfg, users, groups, training, today)->Ok_0;
    assert forall|i: int| 0 <= i < plan.len() implies entry_sound(#[trigger] plan[i], groups) by {
        let name = groups_cfg[i].0@;
        assert((#[trigger] plan[i]).name == groups_cfg[i].0);
        let gi = group_match_idx(groups, name);
        assert(gi >= 0);
        lemma_group_match_props(groups, name);
        assert(0 <= gi < groups.len() && groups[gi].id == plan[i].gid && groups[gi].name@
            == plan[i].name@);
    }
}

/// Applying one sound update leaves every group's identifier and name text
/// as it was.
proof fn lemma_apply_entry_similar(s: DirectoryState, e: PlanEntry)
    requires
        entry_sound(e, s.groups),
        distinct_group_ids(s.groups),
    ensures
        groups_similar(apply_entry(s, e).groups, s.groups),
{
    let gi = choose|gi: int|
        0 <= gi < s.groups.len() && (#[trigger] s.groups[gi]).id == e.gid && s.groups[gi].name@
            == e.name@;
    let mapped = apply_entry(s, e).groups;
    assert forall|i: int| 0 <= i < mapped.len() implies (#[trigger] mapped[i]).id
        == s.groups[i].id && mapped[i].name@ == (#[trigger] s.groups[i]).name@ by {
        if s.groups[i].id@ == e.gid@ {
            assert(i == gi);
        }
    }
}

/// Applying a plan whose updates are sound never changes users, roles, or
/// any group's identifier or name text.
proof fn lemma_apply_plan_similar(s: DirectoryState, plan: Seq<PlanEntry>)
    requires
        distinct_group_ids(s.groups),
        forall|i: int| 0 <= i < plan.len() ==> entry_sound(#[trigger] plan[i], s.groups),
    ensures
        ({
            let t = apply_plan(s, plan);
            &&& t.users == s.users
            &&& t.roles == s.roles
            &&& groups_similar(t.groups, s.groups)
            &&& distinct_group_ids(t.groups)
        }),
    decreases plan.len(),
{
    if plan.len() > 0 {
        let pre = plan.drop_last();
        assert(forall|i: int| 0 <= i < pre.len() ==> #[trigger] pre[i] == plan[i]);
        lemma_apply_plan_similar(s, pre);
        let t0 = apply_plan(s, pre);
        let e = plan.last();
        assert(e == plan[plan.len() - 1]);
        assert(entry_sound(e, s.groups));
        // soundness carries over to the similar group list
        let gi = choose|gi: int|
            0 <= gi < s.groups.len() && (#[trigger] s.groups[gi]).id == e.gid && s.groups[gi].name@
                == e.name@;
        assert(t0.groups[gi].id == e.gid && t0.groups[gi].name@ == e.name@);
        assert(entry_sound(e, t0.groups));
        lemma_apply_entry_similar(t0, e);
    }
}

/// A directory already carrying an update's exact values is left unchanged
/// by it.
proof fn lemma_apply_entry_noop(t: DirectoryState, e: PlanEntry)
    requires
        t.members.contains_key(e.gid@) && t.members[e.gid@] == e.user_ids,
        t.assigned.contains_key(e.gid@) && t.assigned[e.gid@] == e.role_ids,
        forall|i: int|
            0 <= i < t.groups.len() && (#[trigger] t.groups[i]).id@ == e.gid@ ==> t.groups[i].name
                == e.name,
    ensures
        apply_entry(t, e) == t,
{
    assert(t.members.insert(e.gid@, e.user_ids) =~= t.members);
    assert(t.assigned.insert(e.gid@, e.role_ids) =~= t.assigned);
    assert(t.groups.map_values(|g: Group| rename_if_target(g, e)) =~= t.groups);
}

/// Replaying updates the directory already carries changes nothing.
proof fn lemma_replay(t: DirectoryState, plan: Seq<PlanEntry>)
    requires
        forall|k: int|
            0 <= k < plan.len() ==> {
                let e = #[trigger] plan[k];
                &&& t.members.contains_key(e.gid@) && t.members[e.gid@] == e.user_ids
                &&& t.assigned.contains_key(e.gid@) && t.assigned[e.gid@] == e.role_ids
                &&& forall|i: int|
                    0 <= i < t.groups.len() && (#[trigger] t.groups[i]).id@ == e.gid@
                        ==> t.groups[i].name == e.name
            },
    ensures
        apply_plan(t, plan) == t,
    decreases plan.len(),
{
    if plan.len() > 0 {
        let pre = plan.drop_last();
        assert(forall|k: int| 0 <= k < pre.len() ==> #[trigger] pre[k] == plan[k]);
        lemma_replay(t, pre);
        assert(plan.last() == plan[plan.len() - 1]);
        lemma_apply_entry_noop(t, plan.last());
    }
}

/// After a plan with pairwise-distinct targets, the directory carries each
/// update's exact values.
proof fn lemma_apply_plan_effect(s: DirectoryState, plan: Seq<PlanEntry>)
    requires
        forall|i: int, j: int|
            0 <= i < j < plan.len() ==> (#[trigger] plan[i]).gid@ != (#[trigger] plan[j]).gid@,
    ensures
        ({
            let t = apply_plan(s, plan);
            forall|k: int|
                0 <= k < plan.len() ==> {
                    let e = #[trigger] plan[k];
                    &&& t.members.contains_key(e.gid@) && t.members[e.gid@] == e.user_ids
                    &&& t.assigned.contains_key(e.gid@) && t.assigned[e.gid@] == e.role_ids
                    &&& forall|i: int|
                        0 <= i < t.groups.len() && (#[trigger] t.groups[i]).id@ == e.gid@
                            ==> t.groups[i].name == e.name
                }
        }),
    decreases plan.len(),
{
    if plan.len() > 0 {
        let pre = plan.drop_last();
        assert(forall|k: int| 0 <= k < pre.len() ==> #[trigger] pre[k] == plan[k]);
        lemma_apply_plan_effect(s, pre);
        let t0 = apply_plan(s, pre);
        let e = plan.last();
        assert(e == plan[plan.len() - 1]);
        let t = apply_entry(t0, e);
        assert forall|k: int| 0 <= k < plan.len() implies {
            let e2 = #[trigger] plan[k];
            &&& t.members.contains_key(e2.gid@) && t.members[e2.gid@] == e2.user_ids
            &&& t.assigned.contains_key(e2.gid@) && t.assigned[e2.gid@] == e2.role_ids
            &&& forall|i: int|
                0 <= i < t.groups.len() && (#[trigger] t.groups[i]).id@ == e2.gid@
                    ==> t.groups[i].name == e2.name
        } by {
            if k < plan.len() - 1 {
                assert(plan[k].gid@ != e.gid@);
                let e2 = plan[k];
                assert(pre[k] == e2);
                assert(t0.members.contains_key(e2.gid@) && t0.members[e2.gid@] == e2.user_ids);
                assert forall|i: int|
                    0 <= i < t.groups.len() && (#[trigger] t.groups[i]).id@ == e2.gid@ implies t
                    .groups[i].name == e2.name by {
                    assert(t.groups[i] == rename_if_target(t0.groups[i], e));
                }
            } else {
                assert(plan[k] == e);
                assert forall|i: int|
                    0 <= i < t.groups.len() && (#[trigger] t.groups[i]).id@ == e.gid@ implies t
                    .groups[i].name == e.name by {
                    assert(t.groups[i] == rename_if_target(t0.groups[i], e));
                }
            }
        }
    }
}

/// Idempotence: against a directory without duplicate group identifiers,
/// once a run's plan has been applied, a second run with the unchanged
/// configuration and the unchanged today computes the very same plan, and
/// replaying it leaves the directory exactly as the first run left it.
pub proof fn lemma_apply_idempotent(
    groups_cfg: Seq<(GroupName, Vec<Email>)>,
    schedule_cfg: Seq<(GroupName, Vec<TimeRange>)>,
    s: DirectoryState,
    training: RoleID,
    today: Date,
)
    requires
        distinct_group_keys(groups_cfg),
        distinct_group_ids(s.groups),
        spec_plan(groups_cfg, schedule_cfg, s.users, s.groups, training, today) is Ok,
    ensures
        ({
            let plan = spec_plan(
                groups_cfg,
                schedule_cfg,
                s.users,
                s.groups,
                training,
                today,
            )->Ok_0;
            let t = apply_plan(s, plan);
            &&& spec_plan(groups_cfg, schedule_cfg, t.users, t.groups, training, today)
                == spec_plan(groups_cfg, schedule_cfg, s.users, s.groups, training, today)
            &&& apply_plan(t, plan) == t
        }),
{
    let plan = spec_plan(groups_cfg, schedule_cfg, s.users, s.groups, training, today)->Ok_0;
    let t = apply_plan(s, plan);
    lemma_plan_entries_sound(groups_cfg, schedule_cfg, s.users, s.groups, training, today);
    lemma_apply_plan_similar(s, plan);
    lemma_plan_reads_names(groups_cfg, schedule_cfg, s.users, t.groups, s.groups, training, today);
    lemma_plan_gids_distinct(groups_cfg, schedule_cfg, s.users, s.groups, training, today);
    lemma_apply_plan_effect(s, plan);
    lemma_replay(t, plan);
}

} // verus!
