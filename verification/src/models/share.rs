//! Share links and the rules that decide whether a share may still be opened.
//!
//! A share may carry an expiry time, a maximum number of views, and the
//! "burn after read" flag. Each successful access counts one view.
use vstd::prelude::*;

use crate::time::{current_time, Timestamp};

verus! {

/// A stored share.
#[derive(Debug, Clone)]
pub struct Model {
    pub id: i32,
    pub user_id: i32,
    pub file_path: String,
    pub app_type: String,
    pub token: String,
    pub expires_at: Option<Timestamp>,
    pub burn_after_read: bool,
    pub max_views: Option<i32>,
    pub view_count: i32,
    pub created_at: Timestamp,
}

/// The times of a share are ones `chrono` can represent.
pub open spec fn share_wf(s: Model) -> bool {
    &&& s.created_at.wf()
    &&& s.expires_at matches Some(e) ==> e.wf()
}

/// The share's expiry time lies strictly before `now`.
pub open spec fn expired(s: Model, now: Timestamp) -> bool {
    match s.expires_at {
        Some(e) => e.earlier(now),
        None => false,
    }
}

/// The share has been viewed as often as it allows.
pub open spec fn views_exhausted(s: Model) -> bool {
    match s.max_views {
        Some(max) => s.view_count >= max,
        None => false,
    }
}

/// The share is burned after reading and has been read.
pub open spec fn burned(s: Model) -> bool {
    s.burn_after_read && s.view_count > 0
}

/// The share may be opened at `now`: it has not expired, its view limit is not
/// reached, and it is not a burned "burn after read" share.
pub open spec fn valid_at(s: Model, now: Timestamp) -> bool {
    !expired(s, now) && !views_exhausted(s) && !burned(s)
}

impl Model {
    /// Whether the share has expired or reached its view limit at `now` (the
    /// check made when a share link is opened, burn-after-read aside).
    pub fn is_expired_or_exhausted_at(&self, now: &Timestamp) -> (r: bool)
        ensures
            r == (expired(*self, *now) || views_exhausted(*self)),
    {
        let is_expired = match &self.expires_at {
            Some(e) => e.is_earlier_than(now),
            None => false,
        };
        let exhausted = match self.max_views {
            Some(max) => self.view_count >= max,
            None => false,
        };
        is_expired || exhausted
    }

    /// Whether the share may be opened at `now`.
    pub fn is_valid_at(&self, now: &Timestamp) -> (r: bool)
        ensures
            r == valid_at(*self, *now),
    {
        if self.is_expired_or_exhausted_at(now) {
            return false;
        }
        if self.burn_after_read && self.view_count > 0 {
            return false;
        }
        true
    }

    /// Whether the share may be opened now. The answer is `valid_at` at the
    /// current time; so a share whose view limit is reached, or that was
    /// burned after reading, is never valid, and a share without an expiry
    /// time is valid exactly when neither holds.
    pub fn is_valid(&self) -> (r: bool)
        ensures
            exists|now: Timestamp| now.wf() && r == valid_at(*self, now),
            views_exhausted(*self) || burned(*self) ==> !r,
            self.expires_at is None ==> r == (!views_exhausted(*self) && !burned(*self)),
    {
        let now = current_time();
        let r = self.is_valid_at(&now);
        assert(now.wf() && r == valid_at(*self, now));
        r
    }
}

/// The share after one successful access at `now`: its view count is one
/// higher. No access succeeds on a share that is not valid at `now`.
pub open spec fn accessed(s: Model, now: Timestamp) -> Option<Model> {
    if valid_at(s, now) {
        Some(Model { view_count: (s.view_count + 1) as i32, ..s })
    } else {
        None
    }
}

/// The share after a series of access attempts at the given times, and how
/// many of them succeeded.
pub open spec fn after_accesses(s: Model, times: Seq<Timestamp>) -> (Model, nat)
    decreases times.len(),
{
    if times.len() == 0 {
        (s, 0)
    } else {
        let (t, n) = after_accesses(s, times.drop_last());
        match accessed(t, times.last()) {
            Some(u) => (u, n + 1),
            None => (t, n),
        }
    }
}

/// A share with a view limit admits no more successful accesses than the
/// views it has left: whatever the times of the attempts, at most
/// `max_views - view_count` of them succeed (none once the limit is reached).
pub proof fn lemma_view_limit(s: Model, times: Seq<Timestamp>)
    requires
        s.max_views is Some,
        s.view_count >= 0,
    ensures
        after_accesses(s, times).1 <= if s.max_views.unwrap() > s.view_count {
            (s.max_views.unwrap() - s.view_count) as nat
        } else {
            0nat
        },
    decreases times.len(),
{
    lemma_after_accesses_counts(s, times);
}

/// Each successful access adds exactly one view and changes nothing else.
proof fn lemma_after_accesses_counts(s: Model, times: Seq<Timestamp>)
    requires
        s.max_views is Some,
        s.view_count >= 0,
    ensures
        ({
            let (t, n) = after_accesses(s, times);
            &&& t.view_count == s.view_count + n
            &&& t.max_views == s.max_views
            &&& n <= if s.max_views.unwrap() > s.view_count {
                (s.max_views.unwrap() - s.view_count) as nat
            } else {
                0nat
            }
        }),
    decreases times.len(),
{
    if times.len() > 0 {
        lemma_after_accesses_counts(s, times.drop_last());
    }
}

/// A "burn after read" share can be opened once: after one successful
/// access, every later attempt fails, whatever its time.
pub proof fn lemma_burn_after_read(s: Model, first: Timestamp, later: Timestamp)
    requires
        s.burn_after_read,
        s.view_count >= 0,
        accessed(s, first) is Some,
    ensures
        accessed(accessed(s, first).unwrap(), later) is None,
{
}

/// An expired share stays expired: once an access fails for expiry at some
/// time, it fails at every time that is not earlier.
pub proof fn lemma_expired_stays_expired(s: Model, t1: Timestamp, t2: Timestamp)
    requires
        expired(s, t1),
        !t2.earlier(t1),
    ensures
        !valid_at(s, t2),
        accessed(s, t2) is None,
{
}

/// A share's "burn after read" flag and view limit are kept by a successful
/// access, and the view count rises by one.
pub proof fn lemma_access_counts_one_view(s: Model, now: Timestamp)
    requires
        accessed(s, now) is Some,
        s.view_count < i32::MAX,
    ensures
        accessed(s, now).unwrap().view_count == s.view_count + 1,
        accessed(s, now).unwrap().burn_after_read == s.burn_after_read,
        accessed(s, now).unwrap().max_views == s.max_views,
        accessed(s, now).unwrap().token == s.token,
        accessed(s, now).unwrap().file_path == s.file_path,
{
}

} // verus!
