//! An in-memory backend: the repository double the engine can be run
//! against.  Every method's effect on the stored state is stated exactly,
//! so runs against it are checkable end to end.

use crate::galaxy::{
    GalaxyAPI, GroupRepository, GroupRoleRepository, GroupUserRepository, RepoError,
    RoleRepository, UserRepository,
};
use crate::lookup::{find_idx, lemma_find_idx_extends};
use crate::types::{
    Group, GroupID, GroupUpdatePayload, GroupView, InvalidEmail, Role, RoleID, RoleView, User,
    UserID, UserView,
};
use vstd::prelude::*;

verus! {

/// The character for one decimal digit.
pub open spec fn digit_char(d: int) -> char {
    if d == 0 {
        '0'
    } else if d == 1 {
        '1'
    } else if d == 2 {
        '2'
    } else if d == 3 {
        '3'
    } else if d == 4 {
        '4'
    } else if d == 5 {
        '5'
    } else if d == 6 {
        '6'
    } else if d == 7 {
        '7'
    } else if d == 8 {
        '8'
    } else {
        '9'
    }
}

/// The decimal numeral for `n`, most significant digit first.
pub open spec fn dec_digits(n: nat) -> Seq<char>
    decreases n,
{
    if n < 10 {
        seq![digit_char(n as int)]
    } else {
        dec_digits(n / 10).push(digit_char((n % 10) as int))
    }
}

/// Formats `n` in decimal.
fn u32_to_string(n: u32) -> (r: String)
    ensures
        r@ == dec_digits(n as nat),
    decreases n,
{
    let d = n % 10;
    let q = n / 10;
    let digit: &str = if d == 0 {
        "0"
    } else if d == 1 {
        "1"
    } else if d == 2 {
        "2"
    } else if d == 3 {
        "3"
    } else if d == 4 {
        "4"
    } else if d == 5 {
        "5"
    } else if d == 6 {
        "6"
    } else if d == 7 {
        "7"
    } else if d == 8 {
        "8"
    } else {
        "9"
    };
    proof {
        reveal_strlit("0");
        reveal_strlit("1");
        reveal_strlit("2");
        reveal_strlit("3");
        reveal_strlit("4");
        reveal_strlit("5");
        reveal_strlit("6");
        reveal_strlit("7");
        reveal_strlit("8");
        reveal_strlit("9");
        assert(digit@ =~= seq![digit_char(d as int)]);
    }
    if q == 0 {
        digit.to_owned()
    } else {
        let prefix = u32_to_string(q);
        let r = prefix.concat(digit);
        proof {
            assert(r@ =~= dec_digits(n as nat));
        }
        r
    }
}

/// Hands out fresh identifiers: the decimal numerals, counting up.  The
/// counter stops at its maximum rather than wrap.
pub struct IDGenerator {
    id: u32,
}

impl IDGenerator {
    /// How many identifiers have been handed out.
    pub closed spec fn count(&self) -> u32 {
        self.id
    }

    /// A generator that starts at zero.
    pub fn new() -> (r: Self)
        ensures
            r.count() == 0,
    {
        IDGenerator { id: 0 }
    }

    /// The next identifier: the decimal numeral of the current count.
    pub fn next(&mut self) -> (r: String)
        ensures
            r@ == dec_digits(old(self).count() as nat),
            final(self).count() == if old(self).count() < u32::MAX {
                old(self).count() + 1
            } else {
                u32::MAX as int
            },
    {
        let id = self.id;
        if self.id < u32::MAX {
            self.id = self.id + 1;
        }
        u32_to_string(id)
    }
}

/// Index of the first user with this identifier, `-1` if none.
pub open spec fn user_id_match_idx(users: Seq<User>, id: Seq<char>) -> int {
    find_idx(users, |u: User| u.id@ == id)
}

/// Index of the first role with this identifier, `-1` if none.
pub open spec fn role_id_match_idx(roles: Seq<Role>, id: Seq<char>) -> int {
    find_idx(roles, |ro: Role| ro.id@ == id)
}

/// Index of the first group with this identifier, `-1` if none.
pub open spec fn group_id_match_idx(groups: Seq<Group>, id: Seq<char>) -> int {
    find_idx(groups, |g: Group| g.id@ == id)
}

/// Index of the first identifier equal to `id`, `-1` if none.
pub open spec fn uid_match_idx(ids: Seq<UserID>, id: Seq<char>) -> int {
    find_idx(ids, |u: UserID| u@ == id)
}

/// Index of the first identifier equal to `id`, `-1` if none.
pub open spec fn rid_match_idx(ids: Seq<RoleID>, id: Seq<char>) -> int {
    find_idx(ids, |u: RoleID| u@ == id)
}

/// Index of the membership entry for this group, `-1` if none.
pub open spec fn gu_match_idx(entries: Seq<(GroupID, Vec<UserID>)>, id: Seq<char>) -> int {
    find_idx(entries, |p: (GroupID, Vec<UserID>)| p.0@ == id)
}

/// Index of the role-assignment entry for this group, `-1` if none.
pub open spec fn gr_match_idx(entries: Seq<(GroupID, Vec<RoleID>)>, id: Seq<char>) -> int {
    find_idx(entries, |p: (GroupID, Vec<RoleID>)| p.0@ == id)
}

/// `ids` with later duplicates dropped: each identifier once, at its first
/// occurrence.
pub open spec fn spec_dedup_uids(ids: Seq<UserID>) -> Seq<UserID>
    decreases ids.len(),
{
    if ids.len() == 0 {
        Seq::empty()
    } else {
        let prefix = spec_dedup_uids(ids.drop_last());
        if uid_match_idx(prefix, ids.last()@) == -1 {
            prefix.push(ids.last())
        } else {
            prefix
        }
    }
}

/// `ids` with later duplicates dropped: each identifier once, at its first
/// occurrence.
pub open spec fn spec_dedup_rids(ids: Seq<RoleID>) -> Seq<RoleID>
    decreases ids.len(),
{
    if ids.len() == 0 {
        Seq::empty()
    } else {
        let prefix = spec_dedup_rids(ids.drop_last());
        if rid_match_idx(prefix, ids.last()@) == -1 {
            prefix.push(ids.last())
        } else {
            prefix
        }
    }
}

/// The stored users the listed identifiers resolve to, in list order;
/// identifiers no user carries are skipped.
pub open spec fn spec_lookup_users(ids: Seq<UserID>, users: Seq<User>) -> Seq<User>
    decreases ids.len(),
{
    if ids.len() == 0 {
        Seq::empty()
    } else {
        let prefix = spec_lookup_users(ids.drop_last(), users);
        let i = user_id_match_idx(users, ids.last()@);
        if i < 0 {
            prefix
        } else {
            prefix.push(users[i])
        }
    }
}

/// The stored roles the listed identifiers resolve to, in list order;
/// identifiers no role carries are skipped.
pub open spec fn spec_lookup_roles(ids: Seq<RoleID>, roles: Seq<Role>) -> Seq<Role>
    decreases ids.len(),
{
    if ids.len() == 0 {
        Seq::empty()
    } else {
        let prefix = spec_lookup_roles(ids.drop_last(), roles);
        let i = role_id_match_idx(roles, ids.last()@);
        if i < 0 {
            prefix
        } else {
            prefix.push(roles[i])
        }
    }
}

/// After a full replacement of a group's list: the entry for `gid` holds
/// exactly `ids`, other entries are untouched; an absent entry is created at
/// the back.
pub open spec fn gu_replaced(
    pre: Seq<(GroupID, Vec<UserID>)>,
    post: Seq<(GroupID, Vec<UserID>)>,
    gid: Seq<char>,
    ids: Seq<UserID>,
) -> bool {
    let ei = gu_match_idx(pre, gid);
    if ei >= 0 {
        &&& post.len() == pre.len()
        &&& (#[trigger] post[ei]).0@ == gid
        &&& post[ei].1@ == ids
        &&& forall|k: int| 0 <= k < pre.len() && k != ei ==> #[trigger] post[k] == pre[k]
    } else {
        &&& post.len() == pre.len() + 1
        &&& post.last().0@ == gid
        &&& post.last().1@ == ids
        &&& forall|k: int| 0 <= k < pre.len() ==> #[trigger] post[k] == pre[k]
    }
}

/// After a full replacement of a group's role list; see `gu_replaced`.
pub open spec fn gr_replaced(
    pre: Seq<(GroupID, Vec<RoleID>)>,
    post: Seq<(GroupID, Vec<RoleID>)>,
    gid: Seq<char>,
    ids: Seq<RoleID>,
) -> bool {
    let ei = gr_match_idx(pre, gid);
    if ei >= 0 {
        &&& post.len() == pre.len()
        &&& (#[trigger] post[ei]).0@ == gid
        &&& post[ei].1@ == ids
        &&& forall|k: int| 0 <= k < pre.len() && k != ei ==> #[trigger] post[k] == pre[k]
    } else {
        &&& post.len() == pre.len() + 1
        &&& post.last().0@ == gid
        &&& post.last().1@ == ids
        &&& forall|k: int| 0 <= k < pre.len() ==> #[trigger] post[k] == pre[k]
    }
}

/// An in-memory directory, seeded with one user, one role and one empty
/// group.
pub struct MockGalaxy {
    id_generator: IDGenerator,
    users: Vec<User>,
    roles: Vec<Role>,
    groups: Vec<Group>,
    group_roles: Vec<(GroupID, Vec<RoleID>)>,
    group_users: Vec<(GroupID, Vec<UserID>)>,
}

impl MockGalaxy {
    /// The stored users.
    pub closed spec fn users_model(&self) -> Seq<User> {
        self.users@
    }

    /// The stored roles.
    pub closed spec fn roles_model(&self) -> Seq<Role> {
        self.roles@
    }

    /// The stored groups.
    pub closed spec fn groups_model(&self) -> Seq<Group> {
        self.groups@
    }

    /// Each group's assigned roles.
    pub closed spec fn group_roles_model(&self) -> Seq<(GroupID, Vec<RoleID>)> {
        self.group_roles@
    }

    /// Each group's members.
    pub closed spec fn group_users_model(&self) -> Seq<(GroupID, Vec<UserID>)> {
        self.group_users@
    }

    /// How many generated identifiers have been handed out.
    pub closed spec fn gen_count(&self) -> u32 {
        self.id_generator.count()
    }

    /// A directory holding the user `user1`, the role `role1` and the empty
    /// group `group1`.
    pub fn new() -> (r: Result<Self, InvalidEmail>)
        ensures
            r is Ok,
            ({
                let m = r->Ok_0;
                &&& m.users_model().len() == 1
                &&& m.users_model()[0]@ == (UserView {
                    id: "user1"@,
                    email: "user1@email.com"@,
                    username: None,
                })
                &&& m.roles_model().len() == 1
                &&& m.roles_model()[0]@ == (RoleView {
                    id: "role1"@,
                    name: "role1"@,
                    description: Some("role1 description"@),
                })
                &&& m.groups_model().len() == 1
                &&& m.groups_model()[0]@ == (GroupView { id: "group1"@, name: "group1"@ })
                &&& m.group_roles_model().len() == 1
                &&& m.group_roles_model()[0].0@ == "group1"@
                &&& m.group_roles_model()[0].1@.len() == 0
                &&& m.group_users_model().len() == 1
                &&& m.group_users_model()[0].0@ == "group1"@
                &&& m.group_users_model()[0].1@.len() == 0
                &&& m.gen_count() == 0
            }),
    {
        proof {
            reveal_strlit("user1@email.com");
            assert("user1@email.com"@ =~= seq![
                'u', 's', 'e', 'r', '1', '@', 'e', 'm', 'a', 'i', 'l', '.', 'c', 'o', 'm',
            ]);
            assert(crate::types::count_char("user1@email.com"@, '@') == 1) by {
                reveal_with_fuel(crate::types::count_char, 17);
            }
        }
        let user = User::new("user1", "user1@email.com")?;
        let role = Role::new("role1", "role1", "role1 description")?;
        let group = Group::new("group1", "group1")?;
        let mut users: Vec<User> = Vec::new();
        users.push(user);
        let mut roles: Vec<Role> = Vec::new();
        roles.push(role);
        let group_key = group.id.clone();
        let mut groups: Vec<Group> = Vec::new();
        groups.push(group);
        let mut group_roles: Vec<(GroupID, Vec<RoleID>)> = Vec::new();
        group_roles.push((group_key.clone(), Vec::new()));
        let mut group_users: Vec<(GroupID, Vec<UserID>)> = Vec::new();
        group_users.push((group_key, Vec::new()));
        Ok(
            MockGalaxy {
                id_generator: IDGenerator::new(),
                users,
                roles,
                groups,
                group_roles,
                group_users,
            },
        )
    }
}

impl GalaxyAPI for MockGalaxy {
}

impl UserRepository for MockGalaxy {
    fn get_users(&self) -> (r: Result<Vec<User>, RepoError>)
        ensures
            r matches Ok(v) && v@ == self.users_model(),
    {
        Ok(clone_users(&self.users))
    }
}

impl RoleRepository for MockGalaxy {
    fn get_roles(&self) -> (r: Result<Vec<Role>, RepoError>)
        ensures
            r matches Ok(v) && v@ == self.roles_model(),
    {
        Ok(clone_roles(&self.roles))
    }

    fn create_role(&mut self, name: &str, description: &str) -> (r: Result<Role, RepoError>)
        ensures
            r matches Ok(ro) && ro@ == (RoleView {
                id: dec_digits(old(self).gen_count() as nat),
                name: name@,
                description: Some(description@),
            }),
            final(self).roles_model() == old(self).roles_model().push(r->Ok_0),
            final(self).gen_count() == if old(self).gen_count() < u32::MAX {
                old(self).gen_count() + 1
            } else {
                u32::MAX as int
            },
            final(self).users_model() == old(self).users_model(),
            final(self).groups_model() == old(self).groups_model(),
            final(self).group_roles_model() == old(self).group_roles_model(),
            final(self).group_users_model() == old(self).group_users_model(),
    {
        let id = self.id_generator.next();
        let role = match Role::new(id.as_str(), name, description) {
            Ok(ro) => ro,
            Err(_) => return Err(RepoError::new("role construction failed")),
        };
        let copy = role.clone();
        self.roles.push(role);
        proof {
            assert(self.roles@ =~= old(self).roles@.push(self.roles@.last()));
        }
        Ok(copy)
    }
}

impl GroupRepository for MockGalaxy {
    fn get_groups(&self) -> (r: Result<Vec<Group>, RepoError>)
        ensures
            r matches Ok(v) && v@ == self.groups_model(),
    {
        Ok(clone_groups(&self.groups))
    }

    fn create_group(&mut self, name: &str) -> (r: Result<Group, RepoError>)
        ensures
            r matches Ok(g) && g@ == (GroupView {
                id: dec_digits(old(self).gen_count() as nat),
                name: name@,
            }),
            final(self).groups_model() == old(self).groups_model().push(r->Ok_0),
            final(self).group_roles_model().len() == old(self).group_roles_model().len() + 1,
            final(self).group_roles_model().last().0@ == r->Ok_0.id@,
            final(self).group_roles_model().last().1@.len() == 0,
            forall|k: int|
                0 <= k < old(self).group_roles_model().len() ==> #[trigger] final(self).group_roles_model()[k] == old(self).group_roles_model()[k],
            final(self).group_users_model().len() == old(self).group_users_model().len() + 1,
            final(self).group_users_model().last().0@ == r->Ok_0.id@,
            final(self).group_users_model().last().1@.len() == 0,
            forall|k: int|
                0 <= k < old(self).group_users_model().len() ==> #[trigger] final(self).group_users_model()[k] == old(self).group_users_model()[k],
            final(self).users_model() == old(self).users_model(),
            final(self).roles_model() == old(self).roles_model(),
            final(self).gen_count() == if old(self).gen_count() < u32::MAX {
                old(self).gen_count() + 1
            } else {
                u32::MAX as int
            },
    {
        let id = self.id_generator.next();
        let group = match Group::new(id.as_str(), name) {
            Ok(g) => g,
            Err(_) => return Err(RepoError::new("group construction failed")),
        };
        let copy = group.clone();
        let key_roles = group.id.clone();
        let key_users = group.id.clone();
        self.groups.push(group);
        self.group_roles.push((key_roles, Vec::new()));
        self.group_users.push((key_users, Vec::new()));
        proof {
            assert(self.groups@ =~= old(self).groups@.push(self.groups@.last()));
        }
        Ok(copy)
    }

    fn update_group(&mut self, group_id: &GroupID, payload: &GroupUpdatePayload) -> (r: Result<
        Group,
        RepoError,
    >)
        ensures
            ({
                let gi = group_id_match_idx(old(self).groups_model(), group_id@);
                &&& (r is Ok <==> gi >= 0)
                &&& gi < 0 ==> {
                    &&& final(self).groups_model() == old(self).groups_model()
                    &&& final(self).group_users_model() == old(self).group_users_model()
                    &&& final(self).group_roles_model() == old(self).group_roles_model()
                }
                &&& gi >= 0 ==> (r matches Ok(g) && {
                    let prev = old(self).groups_model()[gi];
                    &&& g.id == prev.id
                    &&& (match payload.name {
                        Some(ref n) => g.name@ == n@,
                        None => g.name == prev.name,
                    })
                    &&& g.model_class == prev.model_class
                    &&& g.url == prev.url
                    &&& g.roles_url == prev.roles_url
                    &&& g.users_url == prev.users_url
                    &&& final(self).groups_model() == old(self).groups_model().update(gi, g)
                    &&& (match payload.user_ids {
                        Some(ref v) => gu_replaced(
                            old(self).group_users_model(),
                            final(self).group_users_model(),
                            group_id@,
                            spec_dedup_uids(v@),
                        ),
                        None => final(self).group_users_model() == old(self).group_users_model(),
                    })
                    &&& (match payload.role_ids {
                        Some(ref v) => gr_replaced(
                            old(self).group_roles_model(),
                            final(self).group_roles_model(),
                            group_id@,
                            spec_dedup_rids(v@),
                        ),
                        None => final(self).group_roles_model() == old(self).group_roles_model(),
                    })
                })
            }),
            final(self).users_model() == old(self).users_model(),
            final(self).roles_model() == old(self).roles_model(),
            final(self).gen_count() == old(self).gen_count(),
    {
        let gi = match find_group_by_id(&self.groups, group_id) {
            Some(i) => i,
            None => return Err(RepoError::new("group does not exist")),
        };
        let mut updated = self.groups[gi].clone();
        match &payload.name {
            Some(n) => {
                updated.name = n.clone();
            },
            None => {},
        }
        self.groups.set(gi, updated.clone());
        match &payload.user_ids {
            Some(ids) => {
                let deduped = dedup_uids(ids);
                match find_gu_entry(&self.group_users, group_id) {
                    Some(ei) => {
                        self.group_users.set(ei, (group_id.clone(), deduped));
                    },
                    None => {
                        self.group_users.push((group_id.clone(), deduped));
                    },
                }
            },
            None => {},
        }
        match &payload.role_ids {
            Some(ids) => {
                let deduped = dedup_rids(ids);
                match find_gr_entry(&self.group_roles, group_id) {
                    Some(ei) => {
                        self.group_roles.set(ei, (group_id.clone(), deduped));
                    },
                    None => {
                        self.group_roles.push((group_id.clone(), deduped));
                    },
                }
            },
            None => {},
        }
        Ok(updated)
    }
}

impl GroupRoleRepository for MockGalaxy {
    fn get_group_roles(&self, group_id: &GroupID) -> (r: Result<Vec<Role>, RepoError>)
        ensures
            ({
                let ei = gr_match_idx(self.group_roles_model(), group_id@);
                r matches Ok(v) && v@ == if ei >= 0 {
                    spec_lookup_roles(self.group_roles_model()[ei].1@, self.roles_model())
                } else {
                    Seq::<Role>::empty()
                }
            }),
    {
        match find_gr_entry(&self.group_roles, group_id) {
            Some(ei) => Ok(lookup_roles(&self.group_roles[ei].1, &self.roles)),
            None => Ok(Vec::new()),
        }
    }

    fn add_role_to_group(&mut self, role_id: &RoleID, group_id: &GroupID) -> (r: Result<
        (),
        RepoError,
    >)
        ensures
            ({
                let ri = role_id_match_idx(old(self).roles_model(), role_id@);
                let ei = gr_match_idx(old(self).group_roles_model(), group_id@);
                &&& (r is Ok <==> ri >= 0 && ei >= 0)
                &&& (r is Err ==> final(self).group_roles_model() == old(self).group_roles_model())
                &&& (r is Ok ==> {
                    let pre = old(self).group_roles_model();
                    let post = final(self).group_roles_model();
                    &&& post.len() == pre.len()
                    &&& (#[trigger] post[ei]).0@ == pre[ei].0@
                    &&& post[ei].1@ == if rid_match_idx(pre[ei].1@, role_id@) == -1 {
                        pre[ei].1@.push(*role_id)
                    } else {
                        pre[ei].1@
                    }
                    &&& forall|k: int| 0 <= k < pre.len() && k != ei ==> #[trigger] post[k]
                        == pre[k]
                })
            }),
            final(self).users_model() == old(self).users_model(),
            final(self).roles_model() == old(self).roles_model(),
            final(self).groups_model() == old(self).groups_model(),
            final(self).group_users_model() == old(self).group_users_model(),
            final(self).gen_count() == old(self).gen_count(),
    {
        let ri = match find_role_by_id(&self.roles, role_id) {
            Some(i) => i,
            None => return Err(RepoError::new("role does not exist")),
        };
        match find_gr_entry(&self.group_roles, group_id) {
            Some(ei) => {
                if !rids_contain(&self.group_roles[ei].1, role_id) {
                    let key = self.group_roles[ei].0.clone();
                    let mut list = clone_rids(&self.group_roles[ei].1);
                    list.push(role_id.clone());
                    self.group_roles.set(ei, (key, list));
                }
                Ok(())
            },
            None => Err(RepoError::new("group does not exist")),
        }
    }
}

impl GroupUserRepository for MockGalaxy {
    fn get_group_users(&self, group_id: &GroupID) -> (r: Result<Vec<User>, RepoError>)
        ensures
            ({
                let ei = gu_match_idx(self.group_users_model(), group_id@);
                r matches Ok(v) && v@ == if ei >= 0 {
                    spec_lookup_users(self.group_users_model()[ei].1@, self.users_model())
                } else {
                    Seq::<User>::empty()
                }
            }),
    {
        match find_gu_entry(&self.group_users, group_id) {
            Some(ei) => Ok(lookup_users(&self.group_users[ei].1, &self.users)),
            None => Ok(Vec::new()),
        }
    }

    fn add_user_to_group(&mut self, user_id: &UserID, group_id: &GroupID) -> (r: Result<
        (),
        RepoError,
    >)
        ensures
            ({
                let ui = user_id_match_idx(old(self).users_model(), user_id@);
                let ei = gu_match_idx(old(self).group_users_model(), group_id@);
                &&& (r is Ok <==> ui >= 0 && ei >= 0)
                &&& (r is Err ==> final(self).group_users_model() == old(self).group_users_model())
                &&& (r is Ok ==> {
                    let pre = old(self).group_users_model();
                    let post = final(self).group_users_model();
                    &&& post.len() == pre.len()
                    &&& (#[trigger] post[ei]).0@ == pre[ei].0@
                    &&& post[ei].1@ == if uid_match_idx(pre[ei].1@, user_id@) == -1 {
                        pre[ei].1@.push(*user_id)
                    } else {
                        pre[ei].1@
                    }
                    &&& forall|k: int| 0 <= k < pre.len() && k != ei ==> #[trigger] post[k]
                        == pre[k]
                })
            }),
            final(self).users_model() == old(self).users_model(),
            final(self).roles_model() == old(self).roles_model(),
            final(self).groups_model() == old(self).groups_model(),
            final(self).group_roles_model() == old(self).group_roles_model(),
            final(self).gen_count() == old(self).gen_count(),
    {
        let ui = match find_user_by_id(&self.users, user_id) {
            Some(i) => i,
            None => return Err(RepoError::new("user does not exist")),
        };
        match find_gu_entry(&self.group_users, group_id) {
            Some(ei) => {
                if !uids_contain(&self.group_users[ei].1, user_id) {
                    let key = self.group_users[ei].0.clone();
                    let mut list = clone_uids(&self.group_users[ei].1);
                    list.push(user_id.clone());
                    self.group_users.set(ei, (key, list));
                }
                Ok(())
            },
            None => Err(RepoError::new("group does not exist")),
        }
    }
}

/// Value-preserving copy of a user list.
fn clone_users(v: &Vec<User>) -> (r: Vec<User>)
    ensures
        r@ == v@,
{
    let mut out: Vec<User> = Vec::new();
    let mut i: usize = 0;
    while i < v.len()
        invariant
            i <= v@.len(),
            out@ =~= v@.subrange(0, i as int),
        decreases v@.len() - i,
    {
        out.push(v[i].clone());
        proof {
            assert(out@ =~= v@.subrange(0, i + 1));
        }
        i = i + 1;
    }
    proof {
        assert(v@.subrange(0, v@.len() as int) =~= v@);
    }
    out
}

/// Value-preserving copy of a role list.
fn clone_roles(v: &Vec<Role>) -> (r: Vec<Role>)
    ensures
        r@ == v@,
{
    let mut out: Vec<Role> = Vec::new();
    let mut i: usize = 0;
    while i < v.len()
        invariant
            i <= v@.len(),
            out@ =~= v@.subrange(0, i as int),
        decreases v@.len() - i,
    {
        out.push(v[i].clone());
        proof {
            assert(out@ =~= v@.subrange(0, i + 1));
        }
        i = i + 1;
    }
    proof {
        assert(v@.subrange(0, v@.len() as int) =~= v@);
    }
    out
}

/// Value-preserving copy of a group list.
fn clone_groups(v: &Vec<Group>) -> (r: Vec<Group>)
    ensures
        r@ == v@,
{
    let mut out: Vec<Group> = Vec::new();
    let mut i: usize = 0;
    while i < v.len()
        invariant
            i <= v@.len(),
            out@ =~= v@.subrange(0, i as int),
        decreases v@.len() - i,
    {
        out.push(v[i].clone());
        proof {
            assert(out@ =~= v@.subrange(0, i + 1));
        }
        i = i + 1;
    }
    proof {
        assert(v@.subrange(0, v@.len() as int) =~= v@);
    }
    out
}

/// Value-preserving copy of an identifier list.
fn clone_uids(v: &Vec<UserID>) -> (r: Vec<UserID>)
    ensures
        r@ == v@,
{
    let mut out: Vec<UserID> = Vec::new();
    let mut i: usize = 0;
    while i < v.len()
        invariant
            i <= v@.len(),
            out@ =~= v@.subrange(0, i as int),
        decreases v@.len() - i,
    {
        out.push(v[i].clone());
        proof {
            assert(out@ =~= v@.subrange(0, i + 1));
        }
        i = i + 1;
    }
    proof {
        assert(v@.subrange(0, v@.len() as int) =~= v@);
    }
    out
}

/// Value-preserving copy of an identifier list.
fn clone_rids(v: &Vec<RoleID>) -> (r: Vec<RoleID>)
    ensures
        r@ == v@,
{
    let mut out: Vec<RoleID> = Vec::new();
    let mut i: usize = 0;
    while i < v.len()
        invariant
            i <= v@.len(),
            out@ =~= v@.subrange(0, i as int),
        decreases v@.len() - i,
    {
        out.push(v[i].clone());
        proof {
            assert(out@ =~= v@.subrange(0, i + 1));
        }
        i = i + 1;
    }
    proof {
        assert(v@.subrange(0, v@.len() as int) =~= v@);
    }
    out
}

/// First stored user with this identifier.
fn find_user_by_id(users: &Vec<User>, id: &UserID) -> (r: Option<usize>)
    ensures
        match r {
            Some(i) => i < users@.len() && user_id_match_idx(users@, id@) == i,
            None => user_id_match_idx(users@, id@) == -1,
        },
{
    let mut i: usize = 0;
    let mut found: Option<usize> = None;
    while i < users.len()
        invariant
            i <= users@.len(),
            match found {
                Some(k) => user_id_match_idx(users@.subrange(0, i as int), id@) == k && k < i,
                None => user_id_match_idx(users@.subrange(0, i as int), id@) == -1,
            },
        decreases users@.len() - i,
    {
        proof {
            assert(users@.subrange(0, i + 1).drop_last() =~= users@.subrange(0, i as int));
        }
        if found.is_none() && users[i].id == *id {
            found = Some(i);
        }
        i = i + 1;
    }
    proof {
        assert(users@.subrange(0, users@.len() as int) =~= users@);
    }
    found
}

/// First stored role with this identifier.
fn find_role_by_id(roles: &Vec<Role>, id: &RoleID) -> (r: Option<usize>)
    ensures
        match r {
            Some(i) => i < roles@.len() && role_id_match_idx(roles@, id@) == i,
            None => role_id_match_idx(roles@, id@) == -1,
        },
{
    let mut i: usize = 0;
    let mut found: Option<usize> = None;
    while i < roles.len()
        invariant
            i <= roles@.len(),
            match found {
                Some(k) => role_id_match_idx(roles@.subrange(0, i as int), id@) == k && k < i,
                None => role_id_match_idx(roles@.subrange(0, i as int), id@) == -1,
            },
        decreases roles@.len() - i,
    {
        proof {
            assert(roles@.subrange(0, i + 1).drop_last() =~= roles@.subrange(0, i as int));
        }
        if found.is_none() && roles[i].id == *id {
            found = Some(i);
        }
        i = i + 1;
    }
    proof {
        assert(roles@.subrange(0, roles@.len() as int) =~= roles@);
    }
    found
}

/// First stored group with this identifier.
fn find_group_by_id(groups: &Vec<Group>, id: &GroupID) -> (r: Option<usize>)
    ensures
        match r {
            Some(i) => i < groups@.len() && group_id_match_idx(groups@, id@) == i,
            None => group_id_match_idx(groups@, id@) == -1,
        },
{
    let mut i: usize = 0;
    let mut found: Option<usize> = None;
    while i < groups.len()
        invariant
            i <= groups@.len(),
            match found {
                Some(k) => group_id_match_idx(groups@.subrange(0, i as int), id@) == k && k < i,
                None => group_id_match_idx(groups@.subrange(0, i as int), id@) == -1,
            },
        decreases groups@.len() - i,
    {
        proof {
            assert(groups@.subrange(0, i + 1).drop_last() =~= groups@.subrange(0, i as int));
        }
        if found.is_none() && groups[i].id == *id {
            found = Some(i);
        }
        i = i + 1;
    }
    proof {
        assert(groups@.subrange(0, groups@.len() as int) =~= groups@);
    }
    found
}

/// Membership entry for this group.
fn find_gu_entry(entries: &Vec<(GroupID, Vec<UserID>)>, id: &GroupID) -> (r: Option<usize>)
    ensures
        match r {
            Some(i) => i < entries@.len() && gu_match_idx(entries@, id@) == i,
            None => gu_match_idx(entries@, id@) == -1,
        },
{
    let mut i: usize = 0;
    let mut found: Option<usize> = None;
    while i < entries.len()
        invariant
            i <= entries@.len(),
            match found {
                Some(k) => gu_match_idx(entries@.subrange(0, i as int), id@) == k && k < i,
                None => gu_match_idx(entries@.subrange(0, i as int), id@) == -1,
            },
        decreases entries@.len() - i,
    {
        proof {
            assert(entries@.subrange(0, i + 1).drop_last() =~= entries@.subrange(0, i as int));
        }
        if found.is_none() && entries[i].0 == *id {
            found = Some(i);
        }
        i = i + 1;
    }
    proof {
        assert(entries@.subrange(0, entries@.len() as int) =~= entries@);
    }
    found
}

/// Role-assignment entry for this group.
fn find_gr_entry(entries: &Vec<(GroupID, Vec<RoleID>)>, id: &GroupID) -> (r: Option<usize>)
    ensures
        match r {
            Some(i) => i < entries@.len() && gr_match_idx(entries@, id@) == i,
            None => gr_match_idx(entries@, id@) == -1,
        },
{
    let mut i: usize = 0;
    let mut found: Option<usize> = None;
    while i < entries.len()
        invariant
            i <= entries@.len(),
            match found {
                Some(k) => gr_match_idx(entries@.subrange(0, i as int), id@) == k && k < i,
                None => gr_match_idx(entries@.subrange(0, i as int), id@) == -1,
            },
        decreases entries@.len() - i,
    {
        proof {
            assert(entries@.subrange(0, i + 1).drop_last() =~= entries@.subrange(0, i as int));
        }
        if found.is_none() && entries[i].0 == *id {
            found = Some(i);
        }
        i = i + 1;
    }
    proof {
        assert(entries@.subrange(0, entries@.len() as int) =~= entries@);
    }
    found
}

/// Whether the list holds this identifier.
fn uids_contain(v: &Vec<UserID>, id: &UserID) -> (r: bool)
    ensures
        r == (uid_match_idx(v@, id@) != -1),
{
    let mut i: usize = 0;
    while i < v.len()
        invariant
            i <= v@.len(),
            uid_match_idx(v@.subrange(0, i as int), id@) == -1,
        decreases v@.len() - i,
    {
        proof {
            assert(v@.subrange(0, i + 1).drop_last() =~= v@.subrange(0, i as int));
        }
        if v[i] == *id {
            proof {
                lemma_find_idx_extends(v@, |u: UserID| u@ == id@, i + 1);
            }
            return true;
        }
        i = i + 1;
    }
    proof {
        assert(v@.subrange(0, v@.len() as int) =~= v@);
    }
    false
}

/// Whether the list holds this identifier.
fn rids_contain(v: &Vec<RoleID>, id: &RoleID) -> (r: bool)
    ensures
        r == (rid_match_idx(v@, id@) != -1),
{
    let mut i: usize = 0;
    while i < v.len()
        invariant
            i <= v@.len(),
            rid_match_idx(v@.subrange(0, i as int), id@) == -1,
        decreases v@.len() - i,
    {
        proof {
            assert(v@.subrange(0, i + 1).drop_last() =~= v@.subrange(0, i as int));
        }
        if v[i] == *id {
            proof {
                lemma_find_idx_extends(v@, |u: RoleID| u@ == id@, i + 1);
            }
            return true;
        }
        i = i + 1;
    }
    proof {
        assert(v@.subrange(0, v@.len() as int) =~= v@);
    }
    false
}

/// Drops later duplicates, keeping each identifier's first occurrence.
fn dedup_uids(v: &Vec<UserID>) -> (r: Vec<UserID>)
    ensures
        r@ == spec_dedup_uids(v@),
{
    let mut out: Vec<UserID> = Vec::new();
    let mut i: usize = 0;
    while i < v.len()
        invariant
            i <= v@.len(),
            out@ == spec_dedup_uids(v@.subrange(0, i as int)),
        decreases v@.len() - i,
    {
        proof {
            assert(v@.subrange(0, i + 1).drop_last() =~= v@.subrange(0, i as int));
        }
        if !uids_contain(&out, &v[i]) {
            out.push(v[i].clone());
        }
        i = i + 1;
    }
    proof {
        assert(v@.subrange(0, v@.len() as int) =~= v@);
    }
    out
}

/// Drops later duplicates, keeping each identifier's first occurrence.
fn dedup_rids(v: &Vec<RoleID>) -> (r: Vec<RoleID>)
    ensures
        r@ == spec_dedup_rids(v@),
{
    let mut out: Vec<RoleID> = Vec::new();
    let mut i: usize = 0;
    while i < v.len()
        invariant
            i <= v@.len(),
            out@ == spec_dedup_rids(v@.subrange(0, i as int)),
        decreases v@.len() - i,
    {
        proof {
            assert(v@.subrange(0, i + 1).drop_last() =~= v@.subrange(0, i as int));
        }
        if !rids_contain(&out, &v[i]) {
            out.push(v[i].clone());
        }
        i = i + 1;
    }
    proof {
        assert(v@.subrange(0, v@.len() as int) =~= v@);
    }
    out
}

/// Resolves each identifier to the first stored user carrying it, skipping
/// the ones no user carries.
fn lookup_users(ids: &Vec<UserID>, users: &Vec<User>) -> (r: Vec<User>)
    ensures
        r@ == spec_lookup_users(ids@, users@),
{
    let mut out: Vec<User> = Vec::new();
    let mut i: usize = 0;
    while i < ids.len()
        invariant
            i <= ids@.len(),
            out@ == spec_lookup_users(ids@.subrange(0, i as int), users@),
        decreases ids@.len() - i,
    {
        proof {
            assert(ids@.subrange(0, i + 1).drop_last() =~= ids@.subrange(0, i as int));
        }
        match find_user_by_id(users, &ids[i]) {
            Some(j) => {
                out.push(users[j].clone());
            },
            None => {},
        }
        i = i + 1;
    }
    proof {
        assert(ids@.subrange(0, ids@.len() as int) =~= ids@);
    }
    out
}

/// Resolves each identifier to the first stored role carrying it, skipping
/// the ones no role carries.
fn lookup_roles(ids: &Vec<RoleID>, roles: &Vec<Role>) -> (r: Vec<Role>)
    ensures
        r@ == spec_lookup_roles(ids@, roles@),
{
    let mut out: Vec<Role> = Vec::new();
    let mut i: usize = 0;
    while i < ids.len()
        invariant
            i <= ids@.len(),
            out@ == spec_lookup_roles(ids@.subrange(0, i as int), roles@),
        decreases ids@.len() - i,
    {
        proof {
            assert(ids@.subrange(0, i + 1).drop_last() =~= ids@.subrange(0, i as int));
        }
        match find_role_by_id(roles, &ids[i]) {
            Some(j) => {
                out.push(roles[j].clone());
            },
            None => {},
        }
        i = i + 1;
    }
    proof {
        assert(ids@.subrange(0, ids@.len() as int) =~= ids@);
    }
    out
}

} // verus!
