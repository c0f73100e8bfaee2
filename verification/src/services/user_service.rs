//! Listing and changing users.
use vstd::prelude::*;

use crate::models::user::{role_of, role_text, Model, UserRole};
use crate::services::auth_service::{
    bcrypt_accepts, bcrypt_form, credentials_accepted, hash_password,
};
use crate::text::copy_str;
use crate::time::{current_time, format_rfc3339, rfc3339};

verus! {

/// A user as listed to administrators.
#[derive(Debug, Clone)]
pub struct UserInfo {
    pub id: i32,
    pub username: String,
    pub role: String,
    pub created_at: String,
}

/// Why changing a user failed.
#[derive(Debug, Clone, PartialEq, Eq)]
pub enum UserError {
    /// No user has that id.
    NotFound,
    /// Hashing the new password failed, with the reason.
    PasswordHash(String),
}

impl UserError {
    /// The message shown for the error.
    pub fn message(&self) -> (r: String)
        ensures
            *self == UserError::NotFound ==> r@ == "User not found"@,
            self matches UserError::PasswordHash(m) ==> r@ == m@,
    {
        match self {
            UserError::NotFound => copy_str("User not found"),
            UserError::PasswordHash(m) => copy_str(m.as_str()),
        }
    }
}

/// How a user is listed: id, name, role name, and creation time in RFC 3339.
pub open spec fn user_info_of(info: UserInfo, u: Model) -> bool {
    &&& info.id == u.id
    &&& info.username@ == u.username@
    &&& info.role@ == role_text(u.role)
    &&& info.created_at@ == rfc3339(u.created_at.secs, u.created_at.nanos)
}

/// How a user is listed.
pub fn user_info(u: &Model) -> (r: UserInfo)
    requires
        u.created_at.wf(),
    ensures
        user_info_of(r, *u),
{
    UserInfo {
        id: u.id,
        username: copy_str(u.username.as_str()),
        role: u.role.name(),
        created_at: format_rfc3339(&u.created_at),
    }
}

/// The users, as listed to administrators, in the order given.
pub fn list_users(users: &Vec<Model>) -> (r: Vec<UserInfo>)
    requires
        forall|i: int| 0 <= i < users@.len() ==> (#[trigger] users@[i]).created_at.wf(),
    ensures
        r@.len() == users@.len(),
        forall|i: int| 0 <= i < users@.len() ==> user_info_of(#[trigger] r@[i], users@[i]),
{
    let mut r: Vec<UserInfo> = Vec::new();
    let mut i: usize = 0;
    while i < users.len()
        invariant
            i <= users@.len(),
            r@.len() == i,
            forall|k: int| 0 <= k < users@.len() ==> (#[trigger] users@[k]).created_at.wf(),
            forall|k: int| 0 <= k < i ==> user_info_of(#[trigger] r@[k], users@[k]),
        decreases users@.len() - i,
    {
        r.push(user_info(&users[i]));
        i = i + 1;
    }
    r
}

/// `v` is `u` after an update with the given role name and password: the
/// role name, if given, sets the role (anything but `admin` is a plain user);
/// the password, if given, is accepted by the new hash (in bcrypt's form),
/// and without one the hash is kept; the update time is a valid time; nothing
/// else changes.
pub open spec fn updated_as(
    v: Model,
    u: Model,
    role: Option<Seq<char>>,
    password: Option<Seq<char>>,
) -> bool {
    &&& v.id == u.id
    &&& v.username == u.username
    &&& v.created_at == u.created_at
    &&& v.updated_at.wf()
    &&& v.role == match role {
        Some(name) => role_of(name),
        None => u.role,
    }
    &&& match password {
        Some(p) => bcrypt_accepts(p, v.password_hash@) && bcrypt_form(v.password_hash@),
        None => v.password_hash == u.password_hash,
    }
}

/// Changing the user found for an id: no user gives `NotFound`; otherwise
/// the user comes back updated (see `updated_as`) with the current time, or,
/// when a new password cannot be hashed, with the hashing error.
pub fn update_user(user: Option<Model>, role: Option<&str>, password: Option<&str>) -> (r: Result<
    Model,
    UserError,
>)
    ensures
        user is None ==> r == Err::<Model, UserError>(UserError::NotFound),
        user is Some && password is None ==> r is Ok,
        r matches Ok(v) ==> user matches Some(u) && updated_as(
            v,
            u,
            role.deep_view(),
            password.deep_view(),
        ),
        r matches Err(e) ==> user is None || (password is Some && e is PasswordHash),
{
    let mut u = match user {
        None => {
            return Err(UserError::NotFound);
        },
        Some(u) => u,
    };
    match role {
        Some(name) => {
            u.role = UserRole::from_name(name);
        },
        None => {},
    }
    match password {
        Some(p) => match hash_password(p) {
            Ok(h) => {
                u.password_hash = h;
            },
            Err(m) => {
                return Err(UserError::PasswordHash(m));
            },
        },
        None => {},
    }
    u.updated_at = current_time();
    Ok(u)
}

/// After an update that sets a password, that password logs the user in.
pub proof fn lemma_updated_password_logs_in(v: Model, u: Model, role: Option<Seq<char>>, password: Seq<char>)
    requires
        updated_as(v, u, role, Some(password)),
    ensures
        credentials_accepted(Some(v), password),
{
}

/// An update that sets no password leaves the passwords that log the user in
/// as they were.
pub proof fn lemma_role_change_keeps_login(v: Model, u: Model, role: Option<Seq<char>>, password: Seq<char>)
    requires
        updated_as(v, u, role, None),
    ensures
        credentials_accepted(Some(v), password) == credentials_accepted(Some(u), password),
{
}

} // verus!
