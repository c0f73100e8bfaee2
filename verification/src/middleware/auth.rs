//! Authentication: the claims a token carries, and reading the token from an
//! `Authorization` header.
//!
//! Signing and checking tokens (JSON Web Tokens) is done outside the library;
//! it hands the library the header text, and takes the claims to sign.
use vstd::prelude::*;

use crate::text::{chars_of, copy_str, starts_with, str_eq, string_of, sub_chars};
use crate::time::{Timestamp, MAX_TIMESTAMP_SECS};

verus! {

/// What a token says about its holder.
#[derive(Debug, Clone)]
pub struct Claims {
    /// The user id.
    pub sub: i32,
    pub username: String,
    pub role: String,
    /// Expiry, in seconds since the Unix epoch.
    pub exp: usize,
}

impl Claims {
    /// Whether the holder is an administrator.
    pub fn is_admin(&self) -> (r: bool)
        ensures
            r == (self.role@ == "admin"@),
    {
        str_eq(self.role.as_str(), "admin")
    }
}

/// Why a request is refused or a login or registration fails.
#[derive(Debug, Clone, PartialEq, Eq)]
pub enum AuthError {
    /// The request has no `Authorization` header.
    MissingHeader,
    /// The header does not hold a bearer token.
    InvalidHeader,
    /// The token is not valid.
    InvalidToken,
    /// No such user, or the wrong password.
    InvalidCredentials,
    /// The user name is taken.
    UsernameTaken,
    /// Hashing or checking a password failed, with the reason.
    PasswordHash(String),
}

impl AuthError {
    /// The message shown for the error.
    pub fn message(&self) -> (r: String)
        ensures
            *self == AuthError::MissingHeader ==> r@ == "Missing authorization header"@,
            *self == AuthError::InvalidHeader ==> r@ == "Invalid authorization header"@,
            *self == AuthError::InvalidToken ==> r@ == "Invalid token"@,
            *self == AuthError::InvalidCredentials ==> r@ == "Invalid credentials"@,
            *self == AuthError::UsernameTaken ==> r@ == "Username already exists"@,
            self matches AuthError::PasswordHash(m) ==> r@ == m@,
    {
        match self {
            AuthError::MissingHeader => copy_str("Missing authorization header"),
            AuthError::InvalidHeader => copy_str("Invalid authorization header"),
            AuthError::InvalidToken => copy_str("Invalid token"),
            AuthError::InvalidCredentials => copy_str("Invalid credentials"),
            AuthError::UsernameTaken => copy_str("Username already exists"),
            AuthError::PasswordHash(m) => copy_str(m.as_str()),
        }
    }
}

/// `s` without all the leading copies of `p` (`str::trim_start_matches`).
pub open spec fn strip_all_prefixes(s: Seq<char>, p: Seq<char>) -> Seq<char>
    decreases s.len(),
{
    if p.len() > 0 && starts_with(s, p) {
        strip_all_prefixes(s.subrange(p.len() as int, s.len() as int), p)
    } else {
        s
    }
}

/// The token of an `Authorization` header: a missing header is refused as
/// missing; a header that does not start with `Bearer ` is refused as
/// invalid; otherwise the token is the text after all leading `Bearer `.
pub open spec fn header_token(header: Option<Seq<char>>) -> Result<Seq<char>, AuthError> {
    match header {
        None => Err(AuthError::MissingHeader),
        Some(h) => if starts_with(h, "Bearer "@) {
            Ok(strip_all_prefixes(h, "Bearer "@))
        } else {
            Err(AuthError::InvalidHeader)
        },
    }
}

/// Reads the bearer token from an `Authorization` header's text (a header
/// that is not visible ASCII counts as empty text).
pub fn bearer_token(header: Option<&str>) -> (r: Result<String, AuthError>)
    ensures
        match (r, header_token(header.deep_view())) {
            (Ok(t), Ok(u)) => t@ == u,
            (Err(e), Err(f)) => e == f,
            _ => false,
        },
{
    let h = match header {
        None => {
            return Err(AuthError::MissingHeader);
        },
        Some(h) => h,
    };
    let hv = chars_of(h);
    let prefix = chars_of("Bearer ");
    proof {
        reveal_strlit("Bearer ");
    }
    if !crate::text::starts_with_chars(&hv, &prefix) {
        return Err(AuthError::InvalidHeader);
    }
    let n = hv.len();
    let plen = prefix.len();
    let mut i: usize = 0;
    assert(hv@.subrange(0, n as int) =~= hv@);
    while plen <= n - i && crate::text::chars_occur_at(&hv, &prefix, i)
        invariant
            n == hv@.len(),
            plen == prefix@.len(),
            plen > 0,
            prefix@ == "Bearer "@,
            i <= n,
            strip_all_prefixes(hv@.subrange(i as int, n as int), prefix@) == strip_all_prefixes(
                hv@,
                prefix@,
            ),
        decreases n - i,
    {
        let ghost rest = hv@.subrange(i as int, n as int);
        assert(rest.subrange(0, plen as int) =~= hv@.subrange(i as int, i + plen));
        assert(rest.subrange(plen as int, rest.len() as int) =~= hv@.subrange(i + plen, n as int));
        i = i + plen;
    }
    proof {
        let rest = hv@.subrange(i as int, n as int);
        if plen <= n - i {
            assert(rest.subrange(0, plen as int) =~= hv@.subrange(i as int, i + plen));
        }
    }
    let t = sub_chars(&hv, i, n);
    Ok(string_of(&t))
}

/// The token of an `Authorization` header that starts with `Bearer `: the
/// text after that one prefix.
pub open spec fn strict_header_token(header: Option<Seq<char>>) -> Option<Seq<char>> {
    match header {
        Some(h) => if starts_with(h, "Bearer "@) {
            Some(h.subrange(7, h.len() as int))
        } else {
            None
        },
        None => None,
    }
}

/// A header made of `Bearer ` and a token gives back the token, whatever it
/// is, when the prefix is removed once.
pub proof fn lemma_strict_bearer_round_trip(token: Seq<char>)
    ensures
        strict_header_token(Some("Bearer "@ + token)) == Some(token),
{
    reveal_strlit("Bearer ");
    let h = "Bearer "@ + token;
    assert(h.subrange(0, 7) =~= "Bearer "@);
    assert(h.subrange(7, h.len() as int) =~= token);
}

/// A header made of `Bearer ` and a token gives back the token when all
/// leading prefixes are removed, provided the token does not itself start
/// with `Bearer `.
pub proof fn lemma_bearer_round_trip(token: Seq<char>)
    requires
        !starts_with(token, "Bearer "@),
    ensures
        header_token(Some("Bearer "@ + token)) == Ok::<Seq<char>, AuthError>(token),
{
    reveal_strlit("Bearer ");
    let h = "Bearer "@ + token;
    assert(h.subrange(0, 7) =~= "Bearer "@);
    assert(h.subrange(7, h.len() as int) =~= token);
    assert(starts_with(h, "Bearer "@));
    assert(strip_all_prefixes(token, "Bearer "@) == token);
    assert(strip_all_prefixes(h, "Bearer "@) == strip_all_prefixes(token, "Bearer "@));
}

/// Reads the bearer token from an `Authorization` header, removing the
/// `Bearer ` prefix once (`str::strip_prefix`).
pub fn bearer_token_strict(header: Option<&str>) -> (r: Option<String>)
    ensures
        r.deep_view() == strict_header_token(header.deep_view()),
{
    let h = match header {
        None => {
            return None;
        },
        Some(h) => h,
    };
    let hv = chars_of(h);
    let prefix = chars_of("Bearer ");
    proof {
        reveal_strlit("Bearer ");
    }
    if !crate::text::starts_with_chars(&hv, &prefix) {
        return None;
    }
    let t = sub_chars(&hv, 7, hv.len());
    Some(string_of(&t))
}

/// How long a token is valid: 24 hours.
pub const TOKEN_LIFETIME_SECS: i64 = 86400i64;

/// The claims of a token issued at `now` for a user: valid for 24 hours.
pub fn create_token_claims(user_id: i32, username: &str, role: &str, now: &Timestamp) -> (r:
    Claims)
    requires
        now.wf(),
        now.secs + TOKEN_LIFETIME_SECS <= MAX_TIMESTAMP_SECS,
    ensures
        r.sub == user_id,
        r.username@ == username@,
        r.role@ == role@,
        r.exp == (now.secs + TOKEN_LIFETIME_SECS) as usize,
{
    let exp_secs = now.secs + TOKEN_LIFETIME_SECS;
    Claims {
        sub: user_id,
        username: copy_str(username),
        role: copy_str(role),
        exp: exp_secs as usize,
    }
}

/// Whether a token issued at `now` has an expiry that `chrono` can represent.
pub fn can_issue_token_at(now: &Timestamp) -> (r: bool)
    ensures
        r == (now.secs + TOKEN_LIFETIME_SECS <= MAX_TIMESTAMP_SECS),
{
    now.secs <= MAX_TIMESTAMP_SECS - TOKEN_LIFETIME_SECS
}

} // verus!
