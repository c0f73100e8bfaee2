//! The user management API: who may use it, and its requests and responses.
use vstd::prelude::*;

use crate::middleware::auth::Claims;
use crate::models::user::{role_text, Model};
use crate::models::user::UserRole;
use crate::services::auth_service::hash_password;
use crate::services::user_service::{list_users, updated_as, user_info_of, UserInfo};
use crate::time::current_time;
use crate::text::copy_str;
use crate::time::{format_rfc3339, rfc3339};

verus! {

/// A user as shown to administrators.
#[derive(Debug, Clone)]
pub struct UserResponse {
    pub id: i32,
    pub username: String,
    pub role: String,
    pub created_at: String,
}

/// A request to change a user's role or password.
#[derive(Debug, Clone)]
pub struct UpdateUserRequest {
    pub role: Option<String>,
    pub password: Option<String>,
}

/// Why a user management request is refused.
#[derive(Debug, Clone, Copy, PartialEq, Eq, Structural)]
pub enum AdminError {
    /// Only administrators manage users.
    NotAdmin,
    /// Only administrators create users.
    NotAdminToRegister,
}

impl AdminError {
    /// The message shown for the refusal.
    pub fn message(&self) -> (r: String)
        ensures
            *self == AdminError::NotAdmin ==> r@ == "Admin only"@,
            *self == AdminError::NotAdminToRegister ==> r@ == "Only admins can create users"@,
    {
        match self {
            AdminError::NotAdmin => copy_str("Admin only"),
            AdminError::NotAdminToRegister => copy_str("Only admins can create users"),
        }
    }
}

/// Listing and changing users is for administrators only.
pub fn require_admin(claims: &Claims) -> (r: Result<(), AdminError>)
    ensures
        r is Ok <==> claims.role@ == "admin"@,
        r is Err ==> r == Err::<(), AdminError>(AdminError::NotAdmin),
{
    if claims.is_admin() {
        Ok(())
    } else {
        Err(AdminError::NotAdmin)
    }
}

/// Creating users is for administrators only.
pub fn require_admin_to_register(claims: &Claims) -> (r: Result<(), AdminError>)
    ensures
        r is Ok <==> claims.role@ == "admin"@,
        r is Err ==> r == Err::<(), AdminError>(AdminError::NotAdminToRegister),
{
    if claims.is_admin() {
        Ok(())
    } else {
        Err(AdminError::NotAdminToRegister)
    }
}

/// Listing the users, as the user of the claims: refused unless they are an
/// administrator; otherwise every user, in the order given, as listed.
pub fn admin_list_users(claims: &Claims, users: &Vec<Model>) -> (r: Result<
    Vec<UserInfo>,
    AdminError,
>)
    requires
        forall|i: int| 0 <= i < users@.len() ==> (#[trigger] users@[i]).created_at.wf(),
    ensures
        claims.role@ != "admin"@ ==> r == Err::<Vec<UserInfo>, AdminError>(AdminError::NotAdmin),
        claims.role@ == "admin"@ ==> (r matches Ok(v) && v@.len() == users@.len() && forall|i: int|
            0 <= i < users@.len() ==> user_info_of(#[trigger] v@[i], users@[i])),
{
    if !claims.is_admin() {
        return Err(AdminError::NotAdmin);
    }
    Ok(list_users(users))
}

/// Changing the user found for an id, as the user of the claims: refused
/// unless they are an administrator; nothing to change (`None`) when no user
/// has the id; otherwise the user updated (see `updated_as`). A new password
/// that cannot be hashed leaves the stored hash as it was, the role still
/// changing.
pub fn admin_update_user(
    claims: &Claims,
    user: Option<Model>,
    role: Option<&str>,
    password: Option<&str>,
) -> (r: Result<Option<Model>, AdminError>)
    ensures
        claims.role@ != "admin"@ ==> r == Err::<Option<Model>, AdminError>(AdminError::NotAdmin),
        claims.role@ == "admin"@ && user is None ==> r == Ok::<Option<Model>, AdminError>(None),
        claims.role@ == "admin"@ && user is Some ==> r matches Ok(Some(_)),
        r matches Ok(Some(v)) ==> user matches Some(u) && (updated_as(
            v,
            u,
            role.deep_view(),
            password.deep_view(),
        ) || (password is Some && updated_as(v, u, role.deep_view(), None))),
{
    if !claims.is_admin() {
        return Err(AdminError::NotAdmin);
    }
    let mut u = match user {
        None => {
            return Ok(None);
        },
        Some(u) => u,
    };
    match role {
        Some(name) => {
            u.role = UserRole::from_name(name);
        },
        None => {},
    }
    match password {
        Some(p) => match hash_password(p) {
            Ok(h) => {
                u.password_hash = h;
            },
            Err(_) => {},
        },
        None => {},
    }
    u.updated_at = current_time();
    Ok(Some(u))
}

/// Deleting a user is for administrators only (any user, themselves
/// included).
pub fn admin_delete_user(claims: &Claims) -> (r: Result<(), AdminError>)
    ensures
        r is Ok <==> claims.role@ == "admin"@,
        r is Err ==> r == Err::<(), AdminError>(AdminError::NotAdmin),
{
    require_admin(claims)
}

/// How a changed user is shown: id, name, role name, and creation time in
/// RFC 3339.
pub fn user_response(u: &Model) -> (r: UserResponse)
    requires
        u.created_at.wf(),
    ensures
        r.id == u.id,
        r.username@ == u.username@,
        r.role@ == role_text(u.role),
        r.created_at@ == rfc3339(u.created_at.secs, u.created_at.nanos),
{
    UserResponse {
        id: u.id,
        username: copy_str(u.username.as_str()),
        role: u.role.name(),
        created_at: format_rfc3339(&u.created_at),
    }
}

} // verus!
