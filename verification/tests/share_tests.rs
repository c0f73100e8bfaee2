use home_nas::handlers::share::{
    requested_burn_after_read, share_response, share_url, CreateShareRequest,
};
use home_nas::models::share::Model;
use home_nas::services::share_service::{
    access_share, access_share_at, can_create_share, create_share, delete_share,
    generate_share_token, list_user_shares, share_token_from_uuid, ShareError,
};
use home_nas::time::{add_hours, can_add_hours, Timestamp};

fn at(secs: i64) -> Timestamp {
    Timestamp { secs, nanos: 0 }
}

fn share(id: i32, user_id: i32) -> Model {
    Model {
        id,
        user_id,
        file_path: "/docs/report.pdf".to_string(),
        app_type: "documents".to_string(),
        token: "0123456789abcdef".to_string(),
        expires_at: None,
        burn_after_read: false,
        max_views: None,
        view_count: 0,
        created_at: at(0),
    }
}

fn is_lower_hex(c: char) -> bool {
    c.is_ascii_digit() || ('a'..='f').contains(&c)
}

#[test]
fn token_from_uuid_text() {
    assert_eq!(share_token_from_uuid("67e55044-10b1-426f-9247-bb680e5fe0c8"), "67e5504410b1426f");
    assert_eq!(share_token_from_uuid("--0123456789abcdef0"), "0123456789abcdef");
}

#[test]
fn generated_tokens_are_sixteen_hex_digits() {
    let a = generate_share_token();
    let b = generate_share_token();
    assert_eq!(a.chars().count(), 16);
    assert!(a.chars().all(is_lower_hex));
    assert!(b.chars().all(is_lower_hex));
    assert_ne!(a, b);
}

#[test]
fn created_share_expires_after_the_given_hours() {
    let now = Timestamp { secs: 1_000, nanos: 7 };
    let s = create_share(3, "/a/b.txt", "documents", Some(2), true, Some(5), &now);
    assert_eq!(s.user_id, 3);
    assert_eq!(s.file_path, "/a/b.txt");
    assert_eq!(s.app_type, "documents");
    assert_eq!(s.expires_at, Some(Timestamp { secs: 8_200, nanos: 7 }));
    assert!(s.burn_after_read);
    assert_eq!(s.max_views, Some(5));
    assert_eq!(s.view_count, 0);
    assert_eq!(s.created_at, now);
    assert_eq!(s.token.chars().count(), 16);

    let forever = create_share(3, "/a", "medias", None, false, None, &now);
    assert_eq!(forever.expires_at, None);
    assert!(!forever.burn_after_read);
}

#[test]
fn share_expiry_must_be_representable() {
    let now = at(0);
    assert!(can_create_share(None, &now));
    assert!(can_create_share(Some(24), &now));
    assert!(can_create_share(Some(-24), &now));
    assert!(!can_create_share(Some(i64::MAX), &now));
    assert!(!can_create_share(Some(i64::MIN), &now));
    assert!(can_add_hours(&now, 1));
    assert_eq!(add_hours(&now, -1), at(-3600));
}

#[test]
fn opening_a_share_counts_a_view() {
    let s = share(1, 1);
    let (info, updated) = access_share_at(Some(s.clone()), &at(10)).unwrap();
    assert_eq!(info.file_path, "/docs/report.pdf");
    assert_eq!(info.app_type, "documents");
    assert!(info.is_valid);
    assert_eq!(updated.view_count, 1);
    assert_eq!(updated.token, s.token);
    assert_eq!(updated.id, s.id);
}

#[test]
fn missing_share_is_not_found() {
    assert_eq!(access_share_at(None, &at(0)).unwrap_err(), ShareError::NotFound);
    assert_eq!(access_share(None).unwrap_err(), ShareError::NotFound);
}

#[test]
fn expired_share_is_unavailable() {
    let mut s = share(1, 1);
    s.expires_at = Some(at(100));
    assert!(!s.is_valid_at(&at(101)));
    assert!(s.is_valid_at(&at(100)));
    assert!(s.is_valid_at(&at(99)));
    assert!(!s.is_valid_at(&Timestamp { secs: 100, nanos: 1 }));
    assert!(s.is_expired_or_exhausted_at(&at(200)));
    assert_eq!(access_share_at(Some(s.clone()), &at(200)).unwrap_err(), ShareError::Unavailable);
    assert!(access_share_at(Some(s), &at(50)).is_ok());
}

#[test]
fn view_limit_is_enforced() {
    let mut s = share(1, 1);
    s.max_views = Some(2);
    let (_, s) = access_share_at(Some(s), &at(1)).unwrap();
    let (_, s) = access_share_at(Some(s), &at(2)).unwrap();
    assert_eq!(s.view_count, 2);
    assert!(s.is_expired_or_exhausted_at(&at(3)));
    assert_eq!(access_share_at(Some(s.clone()), &at(3)).unwrap_err(), ShareError::Unavailable);
    assert_eq!(access_share(Some(s)).unwrap_err(), ShareError::Unavailable);
}

#[test]
fn burn_after_read_opens_once() {
    let mut s = share(1, 1);
    s.burn_after_read = true;
    let (_, s) = access_share_at(Some(s), &at(1)).unwrap();
    assert_eq!(s.view_count, 1);
    assert!(!s.is_expired_or_exhausted_at(&at(2)));
    assert!(!s.is_valid_at(&at(2)));
    assert_eq!(access_share_at(Some(s.clone()), &at(2)).unwrap_err(), ShareError::Unavailable);
    assert!(!s.is_valid());
}

#[test]
fn share_without_expiry_is_valid_now() {
    let s = share(1, 1);
    assert!(s.is_valid());
    let (_, updated) = access_share(Some(s)).unwrap();
    assert_eq!(updated.view_count, 1);
}

#[test]
fn listing_keeps_own_shares_in_order() {
    let mut a = share(1, 7);
    a.expires_at = Some(at(86_400));
    let b = share(2, 8);
    let mut c = share(3, 7);
    c.created_at = Timestamp { secs: 0, nanos: 500_000_000 };
    let listed = list_user_shares(&vec![a, b, c], 7);
    assert_eq!(listed.len(), 2);
    assert_eq!(listed[0].id, 1);
    assert_eq!(listed[0].created_at, "1970-01-01T00:00:00+00:00");
    assert_eq!(listed[0].expires_at, Some("1970-01-02T00:00:00+00:00".to_string()));
    assert_eq!(listed[1].id, 3);
    assert_eq!(listed[1].expires_at, None);
    assert_eq!(listed[1].created_at, "1970-01-01T00:00:00.500+00:00");
    assert!(list_user_shares(&vec![], 7).is_empty());
}

#[test]
fn deleting_requires_ownership() {
    let s = share(1, 7);
    assert_eq!(delete_share(None, 7), Err(ShareError::NotFound));
    assert_eq!(delete_share(Some(&s), 8), Err(ShareError::NotAuthorized));
    assert_eq!(delete_share(Some(&s), 7), Ok(()));
}

#[test]
fn share_error_messages() {
    assert_eq!(ShareError::NotFound.message(), "Share not found");
    assert_eq!(ShareError::NotAuthorized.message(), "Not authorized");
    assert_eq!(ShareError::Unavailable.message(), "Share expired");
}

#[test]
fn share_links_and_responses() {
    assert_eq!(share_url("http://nas.local", "abc"), "http://nas.local/s/abc");
    let mut s = share(4, 1);
    s.expires_at = Some(at(0));
    s.burn_after_read = true;
    let r = share_response(&s, "https://x");
    assert_eq!(r.id, 4);
    assert_eq!(r.url, "https://x/s/0123456789abcdef");
    assert_eq!(r.token, "0123456789abcdef");
    assert_eq!(r.expires_at, Some("1970-01-01T00:00:00+00:00".to_string()));
    assert!(r.burn_after_read);

    let mut req = CreateShareRequest {
        file_path: "/a".to_string(),
        app_type: "medias".to_string(),
        expires_in_hours: None,
        burn_after_read: None,
        max_views: None,
    };
    assert!(!requested_burn_after_read(&req));
    req.burn_after_read = Some(true);
    assert!(requested_burn_after_read(&req));
    req.burn_after_read = Some(false);
    assert!(!requested_burn_after_read(&req));
}

#[test]
fn timestamps_are_bounded() {
    assert_eq!(Timestamp::new(5, 6), Some(Timestamp { secs: 5, nanos: 6 }));
    assert_eq!(Timestamp::new(5, 1_000_000_000), None);
    assert_eq!(Timestamp::new(i64::MAX, 0), None);
    assert_eq!(Timestamp::new(i64::MIN, 0), None);
    assert!(at(1).is_earlier_than(&at(2)));
    assert!(!at(2).is_earlier_than(&at(2)));
    assert!(Timestamp { secs: 2, nanos: 1 }.is_earlier_than(&Timestamp { secs: 2, nanos: 2 }));
}

fn stored(new: home_nas::services::share_service::NewShare) -> Model {
    Model {
        id: 1,
        user_id: new.user_id,
        file_path: new.file_path,
        app_type: new.app_type,
        token: new.token,
        expires_at: new.expires_at,
        burn_after_read: new.burn_after_read,
        max_views: new.max_views,
        view_count: new.view_count,
        created_at: new.created_at,
    }
}

#[test]
fn new_shares_open_at_creation_unless_born_unusable() {
    let now = at(10_000);
    let open = stored(create_share(1, "/f", "medias", Some(1), true, Some(1), &now));
    assert!(open.is_valid_at(&now));
    let open = stored(create_share(1, "/f", "medias", Some(0), false, None, &now));
    assert!(open.is_valid_at(&now));
    let expired = stored(create_share(1, "/f", "medias", Some(-1), false, None, &now));
    assert!(!expired.is_valid_at(&now));
    let no_views = stored(create_share(1, "/f", "medias", None, false, Some(0), &now));
    assert!(!no_views.is_valid_at(&now));
}
