//! The share API's requests and responses.
use vstd::prelude::*;

use crate::models::share::{share_wf, Model};
use crate::text::{chars_of, concat_chars, copy_str, string_of};
use crate::time::{format_rfc3339, rfc3339};

verus! {

/// A request to create a share link.
#[derive(Debug, Clone)]
pub struct CreateShareRequest {
    pub file_path: String,
    pub app_type: String,
    pub expires_in_hours: Option<i64>,
    pub burn_after_read: Option<bool>,
    pub max_views: Option<i32>,
}

/// A created share link.
#[derive(Debug, Clone)]
pub struct ShareResponse {
    pub id: i32,
    pub token: String,
    pub url: String,
    pub expires_at: Option<String>,
    pub burn_after_read: bool,
}

/// The link of a share: `{web_url}/s/{token}`.
pub open spec fn share_link(web_url: Seq<char>, token: Seq<char>) -> Seq<char> {
    web_url + "/s/"@ + token
}

/// The link of a share.
pub fn share_url(web_url: &str, token: &str) -> (r: String)
    ensures
        r@ == share_link(web_url@, token@),
{
    let v = concat_chars(&concat_chars(&chars_of(web_url), &chars_of("/s/")), &chars_of(token));
    string_of(&v)
}

/// Whether a new share is burned after reading: only when asked.
pub fn requested_burn_after_read(req: &CreateShareRequest) -> (r: bool)
    ensures
        r == (req.burn_after_read == Some(true)),
{
    match req.burn_after_read {
        Some(b) => b,
        None => false,
    }
}

/// The answer to creating a share: its id, token, link, expiry in RFC 3339
/// and burn-after-read flag.
pub fn share_response(s: &Model, web_url: &str) -> (r: ShareResponse)
    requires
        share_wf(*s),
    ensures
        r.id == s.id,
        r.token@ == s.token@,
        r.url@ == share_link(web_url@, s.token@),
        r.expires_at.deep_view() == (match s.expires_at {
            Some(e) => Some(rfc3339(e.secs, e.nanos)),
            None => None,
        }),
        r.burn_after_read == s.burn_after_read,
{
    let expires_at = match &s.expires_at {
        Some(e) => Some(format_rfc3339(e)),
        None => None,
    };
    ShareResponse {
        id: s.id,
        token: copy_str(s.token.as_str()),
        url: share_url(web_url, s.token.as_str()),
        expires_at,
        burn_after_read: s.burn_after_read,
    }
}

} // verus!
