//! The authentication API's requests and responses.
use vstd::prelude::*;

use crate::middleware::auth::{AuthError, Claims};
use crate::models::user::{role_text, Model, NewUser};
use crate::services::auth_service::{register, registered_as};
use crate::text::copy_str;

verus! {

/// A login request.
#[derive(Debug, Clone)]
pub struct LoginRequest {
    pub username: String,
    pub password: String,
}

/// A successful login: the signed token and the user.
#[derive(Debug, Clone)]
pub struct LoginResponse {
    pub token: String,
    pub user: UserInfo,
}

/// A user as shown after logging in or registering.
#[derive(Debug, Clone)]
pub struct UserInfo {
    pub id: i32,
    pub username: String,
    pub role: String,
}

/// A request to create a user.
#[derive(Debug, Clone)]
pub struct RegisterRequest {
    pub username: String,
    pub password: String,
    pub role: Option<String>,
}

/// How a user is shown: id, name and role name.
pub fn user_info(u: &Model) -> (r: UserInfo)
    ensures
        r.id == u.id,
        r.username@ == u.username@,
        r.role@ == role_text(u.role),
{
    UserInfo { id: u.id, username: copy_str(u.username.as_str()), role: u.role.name() }
}

/// The answer to a successful login.
pub fn login_response(token: String, u: &Model) -> (r: LoginResponse)
    ensures
        r.token == token,
        r.user.id == u.id,
        r.user.username@ == u.username@,
        r.user.role@ == role_text(u.role),
{
    LoginResponse { token, user: user_info(u) }
}

/// The role name a registration asks for: the one given, else `user`.
pub fn requested_role(req: &RegisterRequest) -> (r: String)
    ensures
        r@ == (match req.role {
            Some(role) => role@,
            None => "user"@,
        }),
{
    match &req.role {
        Some(role) => copy_str(role.as_str()),
        None => copy_str("user"),
    }
}

/// Why a registration request is refused.
#[derive(Debug, Clone, PartialEq, Eq)]
pub enum RegisterError {
    /// Only administrators create users.
    NotAdmin,
    /// Registering failed (a taken name, or a password that cannot be hashed).
    Failed(AuthError),
}

impl RegisterError {
    /// The message shown for the refusal.
    pub fn message(&self) -> (r: String)
        ensures
            *self == RegisterError::NotAdmin ==> r@ == "Only admins can create users"@,
            self matches RegisterError::Failed(AuthError::UsernameTaken) ==> r@
                == "Username already exists"@,
    {
        match self {
            RegisterError::NotAdmin => copy_str("Only admins can create users"),
            RegisterError::Failed(e) => e.message(),
        }
    }
}

/// Registering a user, as the user of the claims: refused unless they are an
/// administrator, in which case no user is made; otherwise as `register`
/// does, given whether the name is taken.
pub fn admin_register(
    claims: &Claims,
    name_taken: bool,
    username: &str,
    password: &str,
    role: &str,
) -> (r: Result<NewUser, RegisterError>)
    ensures
        claims.role@ != "admin"@ ==> r == Err::<NewUser, RegisterError>(RegisterError::NotAdmin),
        claims.role@ == "admin"@ && name_taken ==> r == Err::<NewUser, RegisterError>(
            RegisterError::Failed(AuthError::UsernameTaken),
        ),
        claims.role@ == "admin"@ && !name_taken ==> (r is Ok || r matches Err(
            RegisterError::Failed(AuthError::PasswordHash(_)),
        )),
        r matches Ok(new) ==> registered_as(new, username@, password@, role@),
{
    if !claims.is_admin() {
        return Err(RegisterError::NotAdmin);
    }
    match register(name_taken, username, password, role) {
        Ok(new) => Ok(new),
        Err(e) => Err(RegisterError::Failed(e)),
    }
}

} // verus!
