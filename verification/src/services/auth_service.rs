//! Logging in and registering users.
//!
//! Passwords are hashed and checked with bcrypt. The user is looked up, and
//! the new user stored, outside the library.
use vstd::prelude::*;

use crate::middleware::auth::{create_token_claims, AuthError, Claims, TOKEN_LIFETIME_SECS};
use crate::models::user::{role_of, role_text, Model, NewUser, UserRole};
use crate::text::copy_str;
use crate::time::{current_time, Timestamp, MAX_TIMESTAMP_SECS};

verus! {

/// What `bcrypt::verify` answers for a password and a stored hash: whether
/// the password matches, or the text of the error when the hash cannot be
/// read.
pub uninterp spec fn bcrypt_verify(password: Seq<char>, hash: Seq<char>) -> Result<bool, Seq<char>>;

/// `bcrypt::verify` accepts the password for the hash.
pub open spec fn bcrypt_accepts(password: Seq<char>, hash: Seq<char>) -> bool {
    bcrypt_verify(password, hash) == Ok::<bool, Seq<char>>(true)
}

/// `bcrypt::verify`. Its contract: the outcome is `bcrypt_verify` of the
/// password and the hash, the error given as its message.
#[verifier::external_body]
pub(crate) fn verify_password(password: &str, hash: &str) -> (r: Result<bool, String>)
    ensures
        match (r, bcrypt_verify(password@, hash@)) {
            (Ok(b), Ok(c)) => b == c,
            (Err(e), Err(m)) => e@ == m,
            _ => false,
        },
{
    bcrypt::verify(password, hash).map_err(|e| e.to_string())
}

/// The form of the hashes `bcrypt::hash` writes at `bcrypt::DEFAULT_COST`:
/// `$2b$12$`, then 22 characters of salt and 31 of hash, 60 in all.
pub open spec fn bcrypt_form(h: Seq<char>) -> bool {
    h.len() == 60 && h.subrange(0, 7) == "$2b$12$"@
}

/// `bcrypt::hash` with `bcrypt::DEFAULT_COST`. Its contract: a hash it
/// returns is one that `bcrypt::verify` accepts for the same password (the
/// crate checks a password by hashing it again with the stored salt and
/// cost), written in the form of `bcrypt_form` (the crate formats version
/// `2b`, the cost in two digits, and the salt and hash in unpadded bcrypt
/// base 64). The salt is random; a failure to get randomness is an error,
/// given as its message.
#[verifier::external_body]
pub(crate) fn hash_password(password: &str) -> (r: Result<String, String>)
    ensures
        r matches Ok(h) ==> bcrypt_accepts(password@, h@) && bcrypt_form(h@),
{
    bcrypt::hash(password, bcrypt::DEFAULT_COST).map_err(|e| e.to_string())
}

/// The password is accepted for the stored user.
pub open spec fn credentials_accepted(user: Option<Model>, password: Seq<char>) -> bool {
    match user {
        Some(u) => bcrypt_accepts(password, u.password_hash@),
        None => false,
    }
}

/// The login is refused as invalid credentials: there is no user of that
/// name, or `bcrypt::verify` does not accept the password for the stored hash
/// (it answers no, or it cannot read the hash).
pub open spec fn login_refused(user: Option<Model>, password: Seq<char>) -> bool {
    !credentials_accepted(user, password)
}

/// Checking the password of the user found for a user name: the user when
/// the password is accepted, and `InvalidCredentials` otherwise (no user, a
/// password that does not match, or a stored hash that cannot be read).
pub fn authenticate(user: Option<Model>, password: &str) -> (r: Result<Model, AuthError>)
    ensures
        credentials_accepted(user, password@) <==> r is Ok,
        r matches Ok(v) ==> user == Some(v),
        login_refused(user, password@) <==> r == Err::<Model, AuthError>(
            AuthError::InvalidCredentials,
        ),
{
    let u = match user {
        None => {
            return Err(AuthError::InvalidCredentials);
        },
        Some(u) => u,
    };
    match verify_password(password, u.password_hash.as_str()) {
        Ok(true) => Ok(u),
        _ => Err(AuthError::InvalidCredentials),
    }
}

/// An unknown user name and a password that is not accepted get the same
/// answer: both are refused as invalid credentials, whatever the passwords
/// and the time, and also when the stored hash cannot be read.
pub proof fn lemma_unknown_user_like_wrong_password(
    known: Model,
    password_for_unknown: Seq<char>,
    wrong_password: Seq<char>,
)
    requires
        bcrypt_verify(wrong_password, known.password_hash@) != Ok::<bool, Seq<char>>(true),
    ensures
        login_refused(None, password_for_unknown),
        login_refused(Some(known), wrong_password),
{
}

/// Logging in as the user found for a user name, at `now`: the password is
/// checked as `authenticate` does, so every refusal is `InvalidCredentials`;
/// on success, the user and the claims of a token for them (their id, name
/// and role, valid for 24 hours).
pub fn login(user: Option<Model>, password: &str, now: &Timestamp) -> (r: Result<
    (Claims, Model),
    AuthError,
>)
    requires
        now.wf(),
        now.secs + TOKEN_LIFETIME_SECS <= MAX_TIMESTAMP_SECS,
    ensures
        r is Ok <==> credentials_accepted(user, password@),
        login_refused(user, password@) <==> r == Err::<(Claims, Model), AuthError>(
            AuthError::InvalidCredentials,
        ),
        r matches Ok((c, v)) ==> user == Some(v) && c.sub == v.id && c.username@ == v.username@
            && c.role@ == role_text(v.role) && c.exp == (now.secs + TOKEN_LIFETIME_SECS) as usize,
{
    match authenticate(user, password) {
        Err(e) => Err(e),
        Ok(u) => {
            let role = u.role.name();
            let claims = create_token_claims(u.id, u.username.as_str(), role.as_str(), now);
            Ok((claims, u))
        },
    }
}

/// `new` is the user that registering `username` with `password` and the
/// role name `role` stores: the name, a hash in bcrypt's form that accepts
/// the password, the role named (anything but `admin` is a plain user), and
/// both times equal.
pub open spec fn registered_as(new: NewUser, username: Seq<char>, password: Seq<char>, role: Seq<char>) -> bool {
    &&& new.username@ == username
    &&& bcrypt_accepts(password, new.password_hash@)
    &&& bcrypt_form(new.password_hash@)
    &&& new.role == role_of(role)
    &&& new.created_at == new.updated_at
    &&& new.created_at.wf()
}

/// Registering a user, given whether the name is already taken: a taken name
/// gives `UsernameTaken`; a failure to hash gives its error; otherwise the
/// user to store, created now.
pub fn register(name_taken: bool, username: &str, password: &str, role: &str) -> (r: Result<
    NewUser,
    AuthError,
>)
    ensures
        name_taken ==> r == Err::<NewUser, AuthError>(AuthError::UsernameTaken),
        !name_taken ==> (r is Ok || r is Err && r->Err_0 is PasswordHash),
        r matches Ok(new) ==> registered_as(new, username@, password@, role@),
{
    if name_taken {
        return Err(AuthError::UsernameTaken);
    }
    let hash = match hash_password(password) {
        Ok(h) => h,
        Err(m) => {
            return Err(AuthError::PasswordHash(m));
        },
    };
    let now = current_time();
    Ok(
        NewUser {
            username: copy_str(username),
            password_hash: hash,
            role: UserRole::from_name(role),
            created_at: now,
            updated_at: now,
        },
    )
}

/// A user stored from a registration can log in with the password they
/// registered with.
pub proof fn lemma_registered_user_logs_in(
    new: NewUser,
    username: Seq<char>,
    password: Seq<char>,
    role: Seq<char>,
    stored: Model,
)
    requires
        registered_as(new, username, password, role),
        stored.password_hash == new.password_hash,
    ensures
        credentials_accepted(Some(stored), password),
{
}

/// The claims issued at login grant admin rights exactly when the user is an
/// admin: their role is the user's role name, and only `admin` is admin.
pub proof fn lemma_login_admin_rights(claims: Claims, user: Model)
    requires
        claims.role@ == role_text(user.role),
    ensures
        (claims.role@ == "admin"@) <==> user.role == UserRole::Admin,
{
    reveal_strlit("admin");
    reveal_strlit("user");
    if user.role == UserRole::User {
        assert(role_text(user.role)[0] != "admin"@[0]);
    }
}

} // verus!
