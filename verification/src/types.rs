//! The remote directory's entities and their identifier newtypes.
//!
//! Each identifier wraps an opaque string; equality is by the wrapped string
//! and any non-empty or empty string is accepted, except [`Email`], which
//! requires exactly one `@` separator.

use vstd::prelude::*;

verus! {

/// How many times `c` occurs in `s`.
pub open spec fn count_char(s: Seq<char>, c: char) -> nat
    decreases s.len(),
{
    if s.len() == 0 {
        0
    } else {
        count_char(s.drop_last(), c) + if s.last() == c {
            1nat
        } else {
            0nat
        }
    }
}

/// A well-formed address: exactly one `@` separator.
pub open spec fn valid_email(s: Seq<char>) -> bool {
    count_char(s, '@') == 1
}

/// Whether `email` holds exactly one `@` separator.
pub fn is_valid_email(email: &str) -> (r: bool)
    ensures
        r == valid_email(email@),
{
    let n = email.unicode_len();
    let mut i: usize = 0;
    let mut count: usize = 0;
    while i < n
        invariant
            i <= n,
            n == email@.len(),
            count <= i,
            count == count_char(email@.subrange(0, i as int), '@'),
        decreases n - i,
    {
        let c = email.get_char(i);
        proof {
            assert(email@.subrange(0, i + 1).drop_last() =~= email@.subrange(0, i as int));
        }
        if c == '@' {
            count = count + 1;
        }
        i = i + 1;
    }
    proof {
        assert(email@.subrange(0, n as int) =~= email@);
    }
    count == 1
}

/// The given text is not a well-formed email address.
#[derive(Debug, Clone, Copy, PartialEq, Eq, Structural)]
pub struct InvalidEmail;

/// Identifier of a remote user.
#[derive(Debug, Eq, Hash)]
pub struct UserID(String);

/// Identifier of a remote role.
#[derive(Debug, Eq, Hash)]
pub struct RoleID(String);

/// Identifier of a remote group.
#[derive(Debug, Eq, Hash)]
pub struct GroupID(String);

/// Display name of a remote user.
#[derive(Debug, Eq, Hash)]
pub struct UserName(String);

/// Name of a remote role.
#[derive(Debug, Eq, Hash)]
pub struct RoleName(String);

/// Name of a remote group.
#[derive(Debug, Eq, Hash)]
pub struct GroupName(String);

/// An email address with exactly one `@` separator.
#[derive(Debug, Eq, Hash)]
pub struct Email(String);

impl View for UserID {
    type V = Seq<char>;

    closed spec fn view(&self) -> Seq<char> {
        self.0@
    }
}

impl UserID {
    /// Wraps the given string; parsing an identifier never fails.
    pub fn new(s: &str) -> (r: Self)
        ensures
            r@ == s@,
    {
        UserID(s.to_owned())
    }

    /// The wrapped string.
    pub fn as_str(&self) -> (r: &str)
        ensures
            r@ == self@,
    {
        self.0.as_str()
    }
}

impl PartialEq for UserID {
    fn eq(&self, other: &Self) -> (r: bool) {
        self.0 == other.0
    }
}

impl vstd::std_specs::cmp::PartialEqSpecImpl for UserID {
    open spec fn obeys_eq_spec() -> bool {
        true
    }

    open spec fn eq_spec(&self, other: &Self) -> bool {
        self@ == other@
    }
}

impl Clone for UserID {
    fn clone(&self) -> (r: Self)
        ensures
            r == *self,
    {
        UserID(self.0.clone())
    }
}

impl View for RoleID {
    type V = Seq<char>;

    closed spec fn view(&self) -> Seq<char> {
        self.0@
    }
}

impl RoleID {
    /// Wraps the given string; parsing an identifier never fails.
    pub fn new(s: &str) -> (r: Self)
        ensures
            r@ == s@,
    {
        RoleID(s.to_owned())
    }

    /// The wrapped string.
    pub fn as_str(&self) -> (r: &str)
        ensures
            r@ == self@,
    {
        self.0.as_str()
    }
}

impl PartialEq for RoleID {
    fn eq(&self, other: &Self) -> (r: bool) {
        self.0 == other.0
    }
}

impl vstd::std_specs::cmp::PartialEqSpecImpl for RoleID {
    open spec fn obeys_eq_spec() -> bool {
        true
    }

    open spec fn eq_spec(&self, other: &Self) -> bool {
        self@ == other@
    }
}

impl Clone for RoleID {
    fn clone(&self) -> (r: Self)
        ensures
            r == *self,
    {
        RoleID(self.0.clone())
    }
}

impl View for GroupID {
    type V = Seq<char>;

    closed spec fn view(&self) -> Seq<char> {
        self.0@
    }
}

impl GroupID {
    /// Wraps the given string; parsing an identifier never fails.
    pub fn new(s: &str) -> (r: Self)
        ensures
            r@ == s@,
    {
        GroupID(s.to_owned())
    }

    /// The wrapped string.
    pub fn as_str(&self) -> (r: &str)
        ensures
            r@ == self@,
    {
        self.0.as_str()
    }
}

impl PartialEq for GroupID {
    fn eq(&self, other: &Self) -> (r: bool) {
        self.0 == other.0
    }
}

impl vstd::std_specs::cmp::PartialEqSpecImpl for GroupID {
    open spec fn obeys_eq_spec() -> bool {
        true
    }

    open spec fn eq_spec(&self, other: &Self) -> bool {
        self@ == other@
    }
}

impl Clone for GroupID {
    fn clone(&self) -> (r: Self)
        ensures
            r == *self,
    {
        GroupID(self.0.clone())
    }
}

impl View for UserName {
    type V = Seq<char>;

    closed spec fn view(&self) -> Seq<char> {
        self.0@
    }
}

impl UserName {
    /// Wraps the given string; parsing an identifier never fails.
    pub fn new(s: &str) -> (r: Self)
        ensures
            r@ == s@,
    {
        UserName(s.to_owned())
    }

    /// The wrapped string.
    pub fn as_str(&self) -> (r: &str)
        ensures
            r@ == self@,
    {
        self.0.as_str()
    }
}

impl PartialEq for UserName {
    fn eq(&self, other: &Self) -> (r: bool) {
        self.0 == other.0
    }
}

impl vstd::std_specs::cmp::PartialEqSpecImpl for UserName {
    open spec fn obeys_eq_spec() -> bool {
        true
    }

    open spec fn eq_spec(&self, other: &Self) -> bool {
        self@ == other@
    }
}

impl Clone for UserName {
    fn clone(&self) -> (r: Self)
        ensures
            r == *self,
    {
        UserName(self.0.clone())
    }
}

impl View for RoleName {
    type V = Seq<char>;

    closed spec fn view(&self) -> Seq<char> {
        self.0@
    }
}

impl RoleName {
    /// Wraps the given string; parsing an identifier never fails.
    pub fn new(s: &str) -> (r: Self)
        ensures
            r@ == s@,
    {
        RoleName(s.to_owned())
    }

    /// The wrapped string.
    pub fn as_str(&self) -> (r: &str)
        ensures
            r@ == self@,
    {
        self.0.as_str()
    }
}

impl PartialEq for RoleName {
    fn eq(&self, other: &Self) -> (r: bool) {
        self.0 == other.0
    }
}

impl vstd::std_specs::cmp::PartialEqSpecImpl for RoleName {
    open spec fn obeys_eq_spec() -> bool {
        true
    }

    open spec fn eq_spec(&self, other: &Self) -> bool {
        self@ == other@
    }
}

impl Clone for RoleName {
    fn clone(&self) -> (r: Self)
        ensures
            r == *self,
    {
        RoleName(self.0.clone())
    }
}

impl View for GroupName {
    type V = Seq<char>;

    closed spec fn view(&self) -> Seq<char> {
        self.0@
    }
}

impl GroupName {
    /// Wraps the given string; parsing an identifier never fails.
    pub fn new(s: &str) -> (r: Self)
        ensures
            r@ == s@,
    {
        GroupName(s.to_owned())
    }

    /// The wrapped string.
    pub fn as_str(&self) -> (r: &str)
        ensures
            r@ == self@,
    {
        self.0.as_str()
    }
}

impl PartialEq for GroupName {
    fn eq(&self, other: &Self) -> (r: bool) {
        self.0 == other.0
    }
}

impl vstd::std_specs::cmp::PartialEqSpecImpl for GroupName {
    open spec fn obeys_eq_spec() -> bool {
        true
    }

    open spec fn eq_spec(&self, other: &Self) -> bool {
        self@ == other@
    }
}

impl Clone for GroupName {
    fn clone(&self) -> (r: Self)
        ensures
            r == *self,
    {
        GroupName(self.0.clone())
    }
}

impl View for Email {
    type V = Seq<char>;

    closed spec fn view(&self) -> Seq<char> {
        self.0@
    }
}

impl Email {
    /// Parses an address, accepting exactly the strings with one `@`.
    pub fn from_str(s: &str) -> (r: Result<Email, InvalidEmail>)
        ensures
            r is Ok <==> valid_email(s@),
            r is Ok ==> r->Ok_0@ == s@,
    {
        if is_valid_email(s) {
            Ok(Email(s.to_owned()))
        } else {
            Err(InvalidEmail)
        }
    }

    /// The wrapped string.
    pub fn as_str(&self) -> (r: &str)
        ensures
            r@ == self@,
    {
        self.0.as_str()
    }
}

impl PartialEq for Email {
    fn eq(&self, other: &Self) -> (r: bool) {
        self.0 == other.0
    }
}

impl vstd::std_specs::cmp::PartialEqSpecImpl for Email {
    open spec fn obeys_eq_spec() -> bool {
        true
    }

    open spec fn eq_spec(&self, other: &Self) -> bool {
        self@ == other@
    }
}

impl Clone for Email {
    fn clone(&self) -> (r: Self)
        ensures
            r == *self,
    {
        Email(self.0.clone())
    }
}

/// A remote user; the remote system holds the authoritative copy, the engine
/// only reads users.
#[derive(Debug, PartialEq)]
pub struct User {
    pub id: UserID,
    pub email: Email,
    pub username: Option<UserName>,
}

/// Abstraction of a [`User`]: the fields the engine reads, as sequences.
pub ghost struct UserView {
    pub id: Seq<char>,
    pub email: Seq<char>,
    pub username: Option<Seq<char>>,
}

impl View for User {
    type V = UserView;

    open spec fn view(&self) -> UserView {
        UserView {
            id: self.id@,
            email: self.email@,
            username: match self.username {
                Some(ref u) => Some(u@),
                None => None,
            },
        }
    }
}

impl User {
    /// Builds a user from its identifier and address; fails exactly when the
    /// address is not a well-formed email.
    pub fn new(id: &str, email: &str) -> (r: Result<Self, InvalidEmail>)
        ensures
            r is Ok <==> valid_email(email@),
            r is Ok ==> r->Ok_0@ == (UserView { id: id@, email: email@, username: None }),
    {
        let parsed = Email::from_str(email)?;
        Ok(User { id: UserID::new(id), email: parsed, username: None })
    }
}

impl Clone for User {
    fn clone(&self) -> (r: Self)
        ensures
            r == *self,
    {
        User {
            id: self.id.clone(),
            email: self.email.clone(),
            username: match &self.username {
                Some(u) => Some(u.clone()),
                None => None,
            },
        }
    }
}

/// A remote role; the engine cares only about its identifier and name.
#[derive(Debug, PartialEq)]
pub struct Role {
    pub id: RoleID,
    pub name: RoleName,
    pub url: Option<String>,
    pub model_class: Option<String>,
    pub role_type: Option<String>,
    pub description: Option<String>,
}

/// Abstraction of a [`Role`]: the fields the engine reads or writes.
pub ghost struct RoleView {
    pub id: Seq<char>,
    pub name: Seq<char>,
    pub description: Option<Seq<char>>,
}

impl View for Role {
    type V = RoleView;

    open spec fn view(&self) -> RoleView {
        RoleView {
            id: self.id@,
            name: self.name@,
            description: match self.description {
                Some(ref d) => Some(d@),
                None => None,
            },
        }
    }
}

impl Role {
    /// Builds a role with the given identifier, name and description and no
    /// other metadata.
    pub fn new(id: &str, name: &str, description: &str) -> (r: Result<Self, InvalidEmail>)
        ensures
            r is Ok,
            r->Ok_0@ == (RoleView { id: id@, name: name@, description: Some(description@) }),
    {
        Ok(Role {
            id: RoleID::new(id),
            name: RoleName::new(name),
            url: None,
            model_class: None,
            role_type: None,
            description: Some(description.to_owned()),
        })
    }
}

impl Clone for Role {
    fn clone(&self) -> (r: Self)
        ensures
            r == *self,
    {
        Role {
            id: self.id.clone(),
            name: self.name.clone(),
            url: clone_opt_string(&self.url),
            model_class: clone_opt_string(&self.model_class),
            role_type: clone_opt_string(&self.role_type),
            description: clone_opt_string(&self.description),
        }
    }
}

/// A remote group; the engine cares only about its identifier and name.
#[derive(Debug, PartialEq)]
pub struct Group {
    pub id: GroupID,
    pub name: GroupName,
    pub model_class: Option<String>,
    pub url: Option<String>,
    pub roles_url: Option<String>,
    pub users_url: Option<String>,
}

/// Abstraction of a [`Group`]: the fields the engine reads or writes.
pub ghost struct GroupView {
    pub id: Seq<char>,
    pub name: Seq<char>,
}

impl View for Group {
    type V = GroupView;

    open spec fn view(&self) -> GroupView {
        GroupView { id: self.id@, name: self.name@ }
    }
}

impl Group {
    /// Builds a group with the given identifier and name and no other
    /// metadata.
    pub fn new(id: &str, name: &str) -> (r: Result<Self, InvalidEmail>)
        ensures
            r is Ok,
            r->Ok_0@ == (GroupView { id: id@, name: name@ }),
    {
        Ok(Group {
            id: GroupID::new(id),
            name: GroupName::new(name),
            model_class: None,
            url: None,
            roles_url: None,
            users_url: None,
        })
    }
}

impl Clone for Group {
    fn clone(&self) -> (r: Self)
        ensures
            r == *self,
    {
        Group {
            id: self.id.clone(),
            name: self.name.clone(),
            model_class: clone_opt_string(&self.model_class),
            url: clone_opt_string(&self.url),
            roles_url: clone_opt_string(&self.roles_url),
            users_url: clone_opt_string(&self.users_url),
        }
    }
}

/// Value-preserving clone of optional metadata strings.
fn clone_opt_string(s: &Option<String>) -> (r: Option<String>)
    ensures
        r == *s,
{
    match s {
        Some(v) => Some(v.clone()),
        None => None,
    }
}

/// Body of a role-creation request.
#[derive(Debug, PartialEq)]
pub struct RoleDefinitionModel {
    pub name: RoleName,
    pub description: String,
    pub user_ids: Option<Vec<UserID>>,
    pub group_ids: Option<Vec<GroupID>>,
}

/// Body of a group-creation request.
#[derive(Debug, PartialEq)]
pub struct GroupCreatePayload {
    pub name: GroupName,
    pub user_ids: Option<Vec<UserID>>,
    pub role_ids: Option<Vec<RoleID>>,
}

/// A full-replacement instruction: each present field replaces the remote
/// group's corresponding attribute entirely.
#[derive(Debug, PartialEq)]
pub struct GroupUpdatePayload {
    pub name: Option<GroupName>,
    pub user_ids: Option<Vec<UserID>>,
    pub role_ids: Option<Vec<RoleID>>,
}

} // verus!
