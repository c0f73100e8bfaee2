//! Creating, listing, deleting and opening share links.
//!
//! The database is read and written outside the library: it hands in the
//! stored shares, and takes back the records to store.
use vstd::prelude::*;

use crate::models::share::{accessed, share_wf, valid_at, Model};
use crate::text::{chars_of, copy_str, string_of};
use crate::time::{
    add_hours, current_time, format_rfc3339, hours_addable, rfc3339, Timestamp,
};

verus! {

/// A share as listed to its owner, with times written in RFC 3339.
#[derive(Debug, Clone)]
pub struct ShareInfo {
    pub id: i32,
    pub file_path: String,
    pub app_type: String,
    pub token: String,
    pub expires_at: Option<String>,
    pub burn_after_read: bool,
    pub max_views: Option<i32>,
    pub view_count: i32,
    pub created_at: String,
}

/// What opening a share link gives.
#[derive(Debug, Clone)]
pub struct SharedFileInfo {
    pub file_path: String,
    pub app_type: String,
    pub is_valid: bool,
}

/// A share about to be stored (the database assigns the id).
#[derive(Debug, Clone)]
pub struct NewShare {
    pub user_id: i32,
    pub file_path: String,
    pub app_type: String,
    pub token: String,
    pub expires_at: Option<Timestamp>,
    pub burn_after_read: bool,
    pub max_views: Option<i32>,
    pub view_count: i32,
    pub created_at: Timestamp,
}

/// Why a share operation failed.
#[derive(Debug, Clone, Copy, PartialEq, Eq, Structural)]
pub enum ShareError {
    /// No share has that id or token.
    NotFound,
    /// The share belongs to another user.
    NotAuthorized,
    /// The share has expired, reached its view limit, or was burned.
    Unavailable,
}

impl ShareError {
    /// The message shown for the error.
    pub fn message(&self) -> (r: String)
        ensures
            *self == ShareError::NotFound ==> r@ == "Share not found"@,
            *self == ShareError::NotAuthorized ==> r@ == "Not authorized"@,
            *self == ShareError::Unavailable ==> r@ == "Share expired"@,
    {
        match self {
            ShareError::NotFound => copy_str("Share not found"),
            ShareError::NotAuthorized => copy_str("Not authorized"),
            ShareError::Unavailable => copy_str("Share expired"),
        }
    }
}

// ---------------------------------------------------------------------------
// Tokens
// ---------------------------------------------------------------------------

/// A lower-case hexadecimal digit.
pub open spec fn is_lower_hex(c: char) -> bool {
    ('0' <= c && c <= '9') || ('a' <= c && c <= 'f')
}

/// The text of a UUID as `Uuid`'s `Display` writes it: 36 characters, dashes
/// at positions 8, 13, 18 and 23, lower-case hexadecimal digits elsewhere.
pub open spec fn is_uuid_text(s: Seq<char>) -> bool {
    &&& s.len() == 36
    &&& forall|i: int|
        0 <= i < 36 ==> if i == 8 || i == 13 || i == 18 || i == 23 {
            s[i] == '-'
        } else {
            is_lower_hex(#[trigger] s[i])
        }
}

/// `Uuid::new_v4().to_string()`. Its contract: the text of a UUID (see
/// `is_uuid_text`), as `Uuid`'s formatting writes it; the value is random.
#[verifier::external_body]
fn new_uuid_text() -> (r: String)
    ensures
        is_uuid_text(r@),
{
    uuid::Uuid::new_v4().to_string()
}

/// `s` without its dashes.
pub open spec fn without_dashes(s: Seq<char>) -> Seq<char>
    decreases s.len(),
{
    if s.len() == 0 {
        s
    } else if s.last() == '-' {
        without_dashes(s.drop_last())
    } else {
        without_dashes(s.drop_last()).push(s.last())
    }
}

/// The share token made from a UUID's text: its first 16 characters once the
/// dashes are removed.
pub open spec fn token_of_uuid(u: Seq<char>) -> Seq<char> {
    without_dashes(u).take(16)
}

proof fn lemma_without_dashes_add(a: Seq<char>, b: Seq<char>)
    ensures
        without_dashes(a + b) == without_dashes(a) + without_dashes(b),
    decreases b.len(),
{
    if b.len() == 0 {
        assert(a + b =~= a);
        assert(without_dashes(a) + without_dashes(b) =~= without_dashes(a));
    } else {
        assert((a + b).drop_last() =~= a + b.drop_last());
        lemma_without_dashes_add(a, b.drop_last());
        if b.last() == '-' {
        } else {
            assert(without_dashes(a) + without_dashes(b.drop_last()).push(b.last()) =~= (
            without_dashes(a) + without_dashes(b.drop_last())).push(b.last()));
        }
    }
}

proof fn lemma_without_dashes_hex(s: Seq<char>)
    requires
        forall|i: int| 0 <= i < s.len() ==> is_lower_hex(#[trigger] s[i]),
    ensures
        without_dashes(s) == s,
    decreases s.len(),
{
    if s.len() > 0 {
        lemma_without_dashes_hex(s.drop_last());
        assert(s.drop_last().push(s.last()) =~= s);
    }
}

proof fn lemma_without_dashes_chars(s: Seq<char>)
    ensures
        forall|i: int|
            0 <= i < without_dashes(s).len() ==> s.contains(#[trigger] without_dashes(s)[i])
                && without_dashes(s)[i] != '-',
    decreases s.len(),
{
    if s.len() > 0 {
        lemma_without_dashes_chars(s.drop_last());
        assert forall|i: int| 0 <= i < without_dashes(s).len() implies s.contains(
            #[trigger] without_dashes(s)[i],
        ) && without_dashes(s)[i] != '-' by {
            if i < without_dashes(s.drop_last()).len() {
                let c = without_dashes(s.drop_last())[i];
                let k = choose|k: int| 0 <= k < s.drop_last().len() && s.drop_last()[k] == c;
                assert(s[k] == c);
            } else {
                assert(s[s.len() - 1] == s.last());
            }
        }
    }
}

/// A UUID's text has 32 digits once its dashes are removed, the first 16 of
/// them before position 18.
proof fn lemma_uuid_token(u: Seq<char>)
    requires
        is_uuid_text(u),
    ensures
        without_dashes(u).len() >= 16,
        token_of_uuid(u).len() == 16,
        forall|i: int| 0 <= i < 16 ==> is_lower_hex(#[trigger] token_of_uuid(u)[i]),
{
    let a = u.subrange(0, 8);
    let b = u.subrange(9, 13);
    let c = u.subrange(14, 18);
    let rest = u.subrange(18, 36);
    assert(u =~= a + seq!['-'] + b + seq!['-'] + c + rest);
    assert forall|i: int| 0 <= i < a.len() implies is_lower_hex(#[trigger] a[i]) by {
        assert(a[i] == u[i]);
    }
    assert forall|i: int| 0 <= i < b.len() implies is_lower_hex(#[trigger] b[i]) by {
        assert(b[i] == u[i + 9]);
    }
    assert forall|i: int| 0 <= i < c.len() implies is_lower_hex(#[trigger] c[i]) by {
        assert(c[i] == u[i + 14]);
    }
    lemma_without_dashes_hex(a);
    lemma_without_dashes_hex(b);
    lemma_without_dashes_hex(c);
    assert(without_dashes(seq!['-']) == Seq::<char>::empty()) by {
        assert(seq!['-'].drop_last() =~= Seq::<char>::empty());
        assert(seq!['-'].last() == '-');
        assert(without_dashes(Seq::<char>::empty()) == Seq::<char>::empty());
    }
    lemma_without_dashes_add(a, seq!['-']);
    lemma_without_dashes_add(a + seq!['-'], b);
    lemma_without_dashes_add(a + seq!['-'] + b, seq!['-']);
    lemma_without_dashes_add(a + seq!['-'] + b + seq!['-'], c);
    lemma_without_dashes_add(a + seq!['-'] + b + seq!['-'] + c, rest);
    let head = a + b + c;
    assert(without_dashes(a + seq!['-'] + b + seq!['-'] + c) =~= head);
    assert(without_dashes(u) =~= head + without_dashes(rest));
    assert(token_of_uuid(u) =~= head);
}

/// The share token made from a UUID's text (see `token_of_uuid`).
pub fn share_token_from_uuid(u: &str) -> (r: String)
    requires
        without_dashes(u@).len() >= 16,
    ensures
        r@ == token_of_uuid(u@),
{
    let v = chars_of(u);
    let mut out: Vec<char> = Vec::new();
    let mut i: usize = 0;
    assert(v@.take(0) =~= Seq::<char>::empty());
    while i < v.len() && out.len() < 16
        invariant
            i <= v.len(),
            out@ == without_dashes(v@.take(i as int)),
            out@.len() <= 16,
        decreases v.len() - i,
    {
        assert(v@.take(i + 1).drop_last() =~= v@.take(i as int));
        if v[i] != '-' {
            out.push(v[i]);
        }
        i = i + 1;
    }
    proof {
        assert(v@ =~= v@.take(i as int) + v@.subrange(i as int, v@.len() as int));
        lemma_without_dashes_add(v@.take(i as int), v@.subrange(i as int, v@.len() as int));
        if out@.len() < 16 {
            assert(v@.take(i as int) =~= v@);
            assert(v@.subrange(i as int, v@.len() as int) =~= Seq::<char>::empty());
        }
        assert(token_of_uuid(u@) =~= out@);
    }
    string_of(&out)
}

/// A new random share token: 16 lower-case hexadecimal digits, taken from a
/// random UUID.
pub fn generate_share_token() -> (r: String)
    ensures
        r@.len() == 16,
        forall|i: int| 0 <= i < 16 ==> is_lower_hex(#[trigger] r@[i]),
        exists|u: Seq<char>| is_uuid_text(u) && r@ == token_of_uuid(u),
{
    let u = new_uuid_text();
    proof {
        lemma_uuid_token(u@);
        assert(without_dashes(u@).len() >= 16);
    }
    share_token_from_uuid(u.as_str())
}

// ---------------------------------------------------------------------------
// Creating, listing, deleting, opening
// ---------------------------------------------------------------------------

/// `r` is the share to store for a new share link created at `now`: owned
/// by the user, for the file and app given, expiring the given number of
/// hours after `now` (if any), with a random token of 16 lower-case
/// hexadecimal digits, and no views yet.
pub open spec fn share_created(
    r: NewShare,
    user_id: i32,
    file_path: Seq<char>,
    app_type: Seq<char>,
    expires_in_hours: Option<i64>,
    burn_after_read: bool,
    max_views: Option<i32>,
    now: Timestamp,
) -> bool {
    &&& r.user_id == user_id
    &&& r.file_path@ == file_path
    &&& r.app_type@ == app_type
    &&& r.token@.len() == 16
    &&& forall|i: int| 0 <= i < 16 ==> is_lower_hex(#[trigger] r.token@[i])
    &&& r.expires_at == match expires_in_hours {
        Some(h) => Some(Timestamp { secs: (now.secs + h * 3600) as i64, nanos: now.nanos }),
        None => None,
    }
    &&& r.burn_after_read == burn_after_read
    &&& r.max_views == max_views
    &&& r.view_count == 0
    &&& r.created_at == now
}

/// `m` is the share `new` as stored, under the id the database gave it.
pub open spec fn stored_as(m: Model, new: NewShare) -> bool {
    &&& m.user_id == new.user_id
    &&& m.file_path@ == new.file_path@
    &&& m.app_type@ == new.app_type@
    &&& m.token@ == new.token@
    &&& m.expires_at == new.expires_at
    &&& m.burn_after_read == new.burn_after_read
    &&& m.max_views == new.max_views
    &&& m.view_count == new.view_count
    &&& m.created_at == new.created_at
}

/// The share to store for a new share link created at `now` (see
/// `share_created`).
pub fn create_share(
    user_id: i32,
    file_path: &str,
    app_type: &str,
    expires_in_hours: Option<i64>,
    burn_after_read: bool,
    max_views: Option<i32>,
    now: &Timestamp,
) -> (r: NewShare)
    requires
        now.wf(),
        expires_in_hours matches Some(h) ==> hours_addable(*now, h),
    ensures
        share_created(
            r,
            user_id,
            file_path@,
            app_type@,
            expires_in_hours,
            burn_after_read,
            max_views,
            *now,
        ),
{
    let token = generate_share_token();
    let expires_at = match expires_in_hours {
        Some(h) => Some(add_hours(now, h)),
        None => None,
    };
    NewShare {
        user_id,
        file_path: copy_str(file_path),
        app_type: copy_str(app_type),
        token,
        expires_at,
        burn_after_read,
        max_views,
        view_count: 0,
        created_at: *now,
    }
}

/// A new share can be opened at the time it is created, unless it was made
/// already expired (a negative number of hours) or allowing no view.
pub proof fn lemma_new_share_opens(
    new: NewShare,
    stored: Model,
    user_id: i32,
    file_path: Seq<char>,
    app_type: Seq<char>,
    expires_in_hours: Option<i64>,
    burn_after_read: bool,
    max_views: Option<i32>,
    now: Timestamp,
)
    requires
        share_created(
            new,
            user_id,
            file_path,
            app_type,
            expires_in_hours,
            burn_after_read,
            max_views,
            now,
        ),
        stored_as(stored, new),
        expires_in_hours matches Some(h) ==> hours_addable(now, h),
    ensures
        valid_at(stored, now) <==> (expires_in_hours matches Some(h) ==> h >= 0) && (
        max_views matches Some(k) ==> k > 0),
{
}

/// Whether the share may be created: the expiry, if any, can be computed.
pub fn can_create_share(expires_in_hours: Option<i64>, now: &Timestamp) -> (r: bool)
    ensures
        r == (expires_in_hours matches Some(h) ==> hours_addable(*now, h)),
{
    match expires_in_hours {
        Some(h) => crate::time::can_add_hours(now, h),
        None => true,
    }
}

/// How a share is listed: its fields, with its times in RFC 3339.
pub open spec fn share_info_of(info: ShareInfo, s: Model) -> bool {
    &&& info.id == s.id
    &&& info.file_path@ == s.file_path@
    &&& info.app_type@ == s.app_type@
    &&& info.token@ == s.token@
    &&& info.expires_at.deep_view() == match s.expires_at {
        Some(e) => Some(rfc3339(e.secs, e.nanos)),
        None => None,
    }
    &&& info.burn_after_read == s.burn_after_read
    &&& info.max_views == s.max_views
    &&& info.view_count == s.view_count
    &&& info.created_at@ == rfc3339(s.created_at.secs, s.created_at.nanos)
}

/// How a share is listed.
pub fn share_info(s: &Model) -> (r: ShareInfo)
    requires
        share_wf(*s),
    ensures
        share_info_of(r, *s),
{
    let expires_at = match &s.expires_at {
        Some(e) => Some(format_rfc3339(e)),
        None => None,
    };
    ShareInfo {
        id: s.id,
        file_path: copy_str(s.file_path.as_str()),
        app_type: copy_str(s.app_type.as_str()),
        token: copy_str(s.token.as_str()),
        expires_at,
        burn_after_read: s.burn_after_read,
        max_views: s.max_views,
        view_count: s.view_count,
        created_at: format_rfc3339(&s.created_at),
    }
}

/// The shares of `user_id` among `shares`, as listed to their owner, in the
/// order given.
pub fn list_user_shares(shares: &Vec<Model>, user_id: i32) -> (r: Vec<ShareInfo>)
    requires
        forall|i: int| 0 <= i < shares@.len() ==> share_wf(#[trigger] shares@[i]),
    ensures
        exists|owned: Seq<Model>|
            #![trigger owned.len()]
            owned == shares@.filter(|s: Model| s.user_id == user_id) && r@.len() == owned.len()
                && forall|i: int| 0 <= i < owned.len() ==> share_info_of(#[trigger] r@[i], owned[i]),
{
    let ghost f = |s: Model| s.user_id == user_id;
    let mut r: Vec<ShareInfo> = Vec::new();
    let mut i: usize = 0;
    while i < shares.len()
        invariant
            i <= shares@.len(),
            f == (|s: Model| s.user_id == user_id),
            forall|k: int| 0 <= k < shares@.len() ==> share_wf(#[trigger] shares@[k]),
            r@.len() == shares@.take(i as int).filter(f).len(),
            forall|k: int|
                0 <= k < r@.len() ==> share_info_of(
                    #[trigger] r@[k],
                    shares@.take(i as int).filter(f)[k],
                ),
        decreases shares@.len() - i,
    {
        let ghost prev = shares@.take(i as int).filter(f);
        assert(shares@.take(i + 1).drop_last() =~= shares@.take(i as int));
        assert(shares@.take(i + 1).last() == shares@[i as int]);
        reveal(Seq::filter);
        if shares[i].user_id == user_id {
            let info = share_info(&shares[i]);
            r.push(info);
            assert(shares@.take(i + 1).filter(f) == prev.push(shares@[i as int]));
        } else {
            assert(shares@.take(i + 1).filter(f) == prev);
        }
        i = i + 1;
    }
    assert(shares@.take(shares@.len() as int) =~= shares@);
    r
}

/// Whether `user_id` may delete the share found for the given id: the share
/// must exist and belong to that user.
pub fn delete_share(share: Option<&Model>, user_id: i32) -> (r: Result<(), ShareError>)
    ensures
        share is None ==> r == Err::<(), ShareError>(ShareError::NotFound),
        share matches Some(s) ==> (s.user_id != user_id <==> r == Err::<(), ShareError>(
            ShareError::NotAuthorized,
        )),
        share matches Some(s) ==> (s.user_id == user_id <==> r is Ok),
{
    match share {
        None => Err(ShareError::NotFound),
        Some(s) => if s.user_id != user_id {
            Err(ShareError::NotAuthorized)
        } else {
            Ok(())
        },
    }
}

/// Opening the share found for a token at `now`: no share gives `NotFound`;
/// a share that is not valid at `now` gives `Unavailable`; otherwise the file
/// is revealed and the share comes back with one more view, to be stored.
pub fn access_share_at(share: Option<Model>, now: &Timestamp) -> (r: Result<
    (SharedFileInfo, Model),
    ShareError,
>)
    requires
        share matches Some(s) ==> (valid_at(s, *now) ==> s.view_count < i32::MAX),
    ensures
        share is None ==> r == Err::<(SharedFileInfo, Model), ShareError>(ShareError::NotFound),
        share matches Some(s) ==> (!valid_at(s, *now) <==> r == Err::<
            (SharedFileInfo, Model),
            ShareError,
        >(ShareError::Unavailable)),
        share matches Some(s) ==> (valid_at(s, *now) <==> r is Ok),
        r matches Ok((info, updated)) ==> share matches Some(s) && Some(updated) == accessed(
            s,
            *now,
        ) && updated.view_count == s.view_count + 1 && info.file_path@ == s.file_path@
            && info.app_type@ == s.app_type@ && info.is_valid,
{
    match share {
        None => Err(ShareError::NotFound),
        Some(s) => {
            if !s.is_valid_at(now) {
                return Err(ShareError::Unavailable);
            }
            let info = SharedFileInfo {
                file_path: copy_str(s.file_path.as_str()),
                app_type: copy_str(s.app_type.as_str()),
                is_valid: true,
            };
            let updated = Model { view_count: s.view_count + 1, ..s };
            Ok((info, updated))
        },
    }
}

/// Opening the share found for a token, now. The outcome is that of
/// `access_share_at` at the current time; a missing share is `NotFound`, and
/// a share whose view limit is reached or that was burned is `Unavailable`
/// whatever the time.
pub fn access_share(share: Option<Model>) -> (r: Result<(SharedFileInfo, Model), ShareError>)
    requires
        share matches Some(s) ==> (s.view_count < i32::MAX || s.max_views is Some
            || s.burn_after_read),
    ensures
        exists|now: Timestamp|
            now.wf() && (share matches Some(s) ==> (valid_at(s, now) <==> r is Ok)) && (r matches Ok(
                (info, updated),
            ) ==> share matches Some(s) && Some(updated) == accessed(s, now)),
        share is None ==> r == Err::<(SharedFileInfo, Model), ShareError>(ShareError::NotFound),
        share matches Some(s) ==> (crate::models::share::views_exhausted(s)
            || crate::models::share::burned(s) ==> r == Err::<(SharedFileInfo, Model), ShareError>(
            ShareError::Unavailable,
        )),
{
    let now = current_time();
    let r = access_share_at(share, &now);
    assert(now.wf());
    r
}

} // verus!
