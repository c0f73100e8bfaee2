//! Users and their roles.
use vstd::prelude::*;

use crate::text::{copy_str, str_eq};
use crate::time::Timestamp;

verus! {

/// What a user may do: an administrator manages users; a plain user does not.
#[derive(Debug, Clone, Copy, PartialEq, Eq, Structural)]
pub enum UserRole {
    Admin,
    User,
}

/// The role a role name stands for: `admin` is an administrator; any other
/// name is a plain user.
pub open spec fn role_of(name: Seq<char>) -> UserRole {
    if name == "admin"@ {
        UserRole::Admin
    } else {
        UserRole::User
    }
}

/// The name of a role, as it is stored and shown: `admin` or `user`.
pub open spec fn role_text(role: UserRole) -> Seq<char> {
    match role {
        UserRole::Admin => "admin"@,
        UserRole::User => "user"@,
    }
}

impl UserRole {
    /// The role a role name stands for.
    pub fn from_name(name: &str) -> (r: UserRole)
        ensures
            r == role_of(name@),
    {
        if str_eq(name, "admin") {
            UserRole::Admin
        } else {
            UserRole::User
        }
    }

    /// The name of the role.
    pub fn name(&self) -> (r: String)
        ensures
            r@ == role_text(*self),
    {
        match self {
            UserRole::Admin => copy_str("admin"),
            UserRole::User => copy_str("user"),
        }
    }
}

/// Reading back the name of a role gives the same role.
pub proof fn lemma_role_name_round_trip(role: UserRole)
    ensures
        role_of(role_text(role)) == role,
{
    reveal_strlit("admin");
    reveal_strlit("user");
    if role == UserRole::User {
        assert(role_text(role)[0] != "admin"@[0]);
    }
}

/// A stored user.
#[derive(Debug, Clone)]
pub struct Model {
    pub id: i32,
    pub username: String,
    pub password_hash: String,
    pub role: UserRole,
    pub created_at: Timestamp,
    pub updated_at: Timestamp,
}

/// A user about to be stored (the database assigns the id).
#[derive(Debug, Clone)]
pub struct NewUser {
    pub username: String,
    pub password_hash: String,
    pub role: UserRole,
    pub created_at: Timestamp,
    pub updated_at: Timestamp,
}

} // verus!
