//! Principals' roles and the requests of the account operations that gate on them.
use vstd::prelude::*;
use crate::model::{CoreError, Role, TallyModel};

verus! {

/// The fixed identifier of each role.
pub open spec fn role_name(role: Role) -> Seq<char> {
    match role {
        Role::User => "user"@,
        Role::ProjectAdmin => "project_admin"@,
        Role::PlatformOwner => "platform_owner"@,
    }
}

/// `s` is the identifier of no role.
pub open spec fn names_no_role(s: Seq<char>) -> bool {
    s != role_name(Role::User) && s != role_name(Role::ProjectAdmin) && s != role_name(Role::PlatformOwner)
}

/// Distinct roles have distinct identifiers.
pub proof fn lemma_role_names_distinct(a: Role, b: Role)
    requires
        a != b,
    ensures
        role_name(a) != role_name(b),
{
    reveal_strlit("user");
    reveal_strlit("project_admin");
    reveal_strlit("platform_owner");
    assert(role_name(a).len() != role_name(b).len() || role_name(a)[9] != role_name(b)[9]);
}

/// The identifier of the single-choice tallying model.
pub open spec fn single_choice_tag() -> Seq<char> {
    "single_choice"@
}

impl Role {
    /// The role whose identifier is `s`; any other string is a validation error.
    pub fn parse(s: &String) -> (r: Result<Role, CoreError>)
        ensures
            s@ == role_name(Role::User) ==> r == Ok::<Role, CoreError>(Role::User),
            s@ == role_name(Role::ProjectAdmin) ==> r == Ok::<Role, CoreError>(Role::ProjectAdmin),
            s@ == role_name(Role::PlatformOwner) ==> r == Ok::<Role, CoreError>(Role::PlatformOwner),
            names_no_role(s@) ==> r == Err::<Role, CoreError>(CoreError::ValidationError),
    {
        proof {
            lemma_role_names_distinct(Role::User, Role::ProjectAdmin);
            lemma_role_names_distinct(Role::User, Role::PlatformOwner);
            lemma_role_names_distinct(Role::ProjectAdmin, Role::PlatformOwner);
        }
        if *s == "user".to_owned() {
            Ok(Role::User)
        } else if *s == "project_admin".to_owned() {
            Ok(Role::ProjectAdmin)
        } else if *s == "platform_owner".to_owned() {
            Ok(Role::PlatformOwner)
        } else {
            Err(CoreError::ValidationError)
        }
    }

    /// The role's identifier.
    pub fn name(&self) -> (r: String)
        ensures
            r@ == role_name(*self),
    {
        match self {
            Role::User => "user".to_owned(),
            Role::ProjectAdmin => "project_admin".to_owned(),
            Role::PlatformOwner => "platform_owner".to_owned(),
        }
    }

    /// Whether the role may revoke proposals and manage users.
    pub fn is_platform_owner(&self) -> (r: bool)
        ensures
            r == (*self == Role::PlatformOwner),
    {
        *self == Role::PlatformOwner
    }

    /// Whether the role administers projects and proposals: a platform owner or a project admin.
    pub fn is_administrator(&self) -> (r: bool)
        ensures
            r == (*self == Role::PlatformOwner || *self == Role::ProjectAdmin),
    {
        *self == Role::PlatformOwner || *self == Role::ProjectAdmin
    }
}

impl TallyModel {
    /// The tallying model whose tag is `s`; any other tag is a validation error.
    pub fn parse(s: &String) -> (r: Result<TallyModel, CoreError>)
        ensures
            s@ == single_choice_tag() ==> r == Ok::<TallyModel, CoreError>(TallyModel::SingleChoice),
            s@ != single_choice_tag() ==> r == Err::<TallyModel, CoreError>(CoreError::ValidationError),
    {
        if *s == "single_choice".to_owned() {
            Ok(TallyModel::SingleChoice)
        } else {
            Err(CoreError::ValidationError)
        }
    }
}

/// A wallet's sign-in request.
#[derive(Clone, Debug)]
pub struct LoginRequest {
    pub wallet_address: String,
    pub signed_message: String,
}

/// The bearer token handed back on sign-in.
#[derive(Clone, Debug)]
pub struct AuthResponse {
    pub token: String,
}

/// A request to change a user's role.
#[derive(Clone, Debug)]
pub struct UpdateUserRoleRequest {
    pub role: String,
}

impl UpdateUserRoleRequest {
    /// The requested role, validated.
    pub fn new_role(&self) -> (r: Result<Role, CoreError>)
        ensures
            self.role@ == role_name(Role::User) ==> r == Ok::<Role, CoreError>(Role::User),
            self.role@ == role_name(Role::ProjectAdmin) ==> r == Ok::<Role, CoreError>(Role::ProjectAdmin),
            self.role@ == role_name(Role::PlatformOwner) ==> r == Ok::<Role, CoreError>(Role::PlatformOwner),
            names_no_role(self.role@) ==> r == Err::<Role, CoreError>(CoreError::ValidationError),
    {
        Role::parse(&self.role)
    }
}

/// A request to register a wallet, with an optional role (plain user by default).
#[derive(Clone, Debug)]
pub struct RegisterUserRequest {
    pub wallet_address: String,
    pub role: Option<String>,
}

impl RegisterUserRequest {
    /// The role to register with: `User` when none is given, else the given one, validated.
    pub fn resolved_role(&self) -> (r: Result<Role, CoreError>)
        ensures
            self.role is None ==> r == Ok::<Role, CoreError>(Role::User),
            self.role matches Some(s) ==> (s@ == role_name(Role::User) ==> r == Ok::<Role, CoreError>(Role::User)),
            self.role matches Some(s) ==> (s@ == role_name(Role::ProjectAdmin) ==> r == Ok::<Role, CoreError>(
                Role::ProjectAdmin,
            )),
            self.role matches Some(s) ==> (s@ == role_name(Role::PlatformOwner) ==> r == Ok::<Role, CoreError>(
                Role::PlatformOwner,
            )),
            self.role matches Some(s) ==> (names_no_role(s@) ==> r == Err::<Role, CoreError>(
                CoreError::ValidationError,
            )),
    {
        match &self.role {
            None => Ok(Role::User),
            Some(s) => Role::parse(s),
        }
    }
}

/// Checks that a principal holding `role` may perform an operation reserved to platform owners.
pub fn require_platform_owner(role: Role) -> (r: Result<(), CoreError>)
    ensures
        role == Role::PlatformOwner ==> r is Ok,
        role != Role::PlatformOwner ==> r == Err::<(), CoreError>(CoreError::Unauthorized),
{
    if role.is_platform_owner() {
        Ok(())
    } else {
        Err(CoreError::Unauthorized)
    }
}

} // verus!
