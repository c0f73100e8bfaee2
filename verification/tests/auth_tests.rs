use home_nas::handlers::auth::{
    admin_register, login_response, requested_role, user_info, RegisterError, RegisterRequest,
};
use home_nas::handlers::users::{
    admin_delete_user, admin_list_users, admin_update_user, require_admin,
    require_admin_to_register, user_response, AdminError,
};
use home_nas::middleware::auth::{
    bearer_token, bearer_token_strict, can_issue_token_at, create_token_claims, AuthError,
    Claims, TOKEN_LIFETIME_SECS,
};
use home_nas::models::user::{Model, UserRole};
use home_nas::services::auth_service::{authenticate, login, register};
use home_nas::services::user_service::{list_users, update_user, UserError};
use home_nas::time::{Timestamp, MAX_TIMESTAMP_SECS};

fn at(secs: i64) -> Timestamp {
    Timestamp { secs, nanos: 0 }
}

fn user(id: i32, name: &str, password: &str, role: UserRole) -> Model {
    Model {
        id,
        username: name.to_string(),
        password_hash: bcrypt::hash(password, 4).unwrap(),
        role,
        created_at: at(0),
        updated_at: at(0),
    }
}

fn claims(sub: i32, role: &str) -> Claims {
    Claims { sub, username: "u".to_string(), role: role.to_string(), exp: 0 }
}

#[test]
fn bearer_header_forms() {
    assert_eq!(bearer_token(None), Err(AuthError::MissingHeader));
    assert_eq!(bearer_token(Some("Basic abc")), Err(AuthError::InvalidHeader));
    assert_eq!(bearer_token(Some("bearer abc")), Err(AuthError::InvalidHeader));
    assert_eq!(bearer_token(Some("Bearer abc.def")), Ok("abc.def".to_string()));
    assert_eq!(bearer_token(Some("Bearer Bearer abc")), Ok("abc".to_string()));
    assert_eq!(bearer_token(Some("Bearer ")), Ok(String::new()));

    assert_eq!(bearer_token_strict(None), None);
    assert_eq!(bearer_token_strict(Some("Token x")), None);
    assert_eq!(bearer_token_strict(Some("Bearer abc")), Some("abc".to_string()));
    assert_eq!(bearer_token_strict(Some("Bearer Bearer abc")), Some("Bearer abc".to_string()));
}

#[test]
fn auth_error_messages() {
    assert_eq!(AuthError::MissingHeader.message(), "Missing authorization header");
    assert_eq!(AuthError::InvalidHeader.message(), "Invalid authorization header");
    assert_eq!(AuthError::InvalidToken.message(), "Invalid token");
    assert_eq!(AuthError::InvalidCredentials.message(), "Invalid credentials");
    assert_eq!(AuthError::UsernameTaken.message(), "Username already exists");
    assert_eq!(AuthError::PasswordHash("boom".to_string()).message(), "boom");
}

#[test]
fn token_claims_last_a_day() {
    let c = create_token_claims(9, "alice", "admin", &at(1_000));
    assert_eq!(c.sub, 9);
    assert_eq!(c.username, "alice");
    assert_eq!(c.role, "admin");
    assert_eq!(c.exp, 1_000 + 86_400);
    assert_eq!(TOKEN_LIFETIME_SECS, 86_400);
    assert!(c.is_admin());
    assert!(!claims(1, "user").is_admin());
    assert!(!claims(1, "Admin").is_admin());
    assert!(can_issue_token_at(&at(0)));
    assert!(can_issue_token_at(&at(MAX_TIMESTAMP_SECS - 86_400)));
    assert!(!can_issue_token_at(&at(MAX_TIMESTAMP_SECS - 86_399)));
}

#[test]
fn login_checks_the_password() {
    let alice = user(1, "alice", "s3cret", UserRole::Admin);
    let (c, u) = login(Some(alice.clone()), "s3cret", &at(50)).unwrap();
    assert_eq!(c.sub, 1);
    assert_eq!(c.username, "alice");
    assert_eq!(c.role, "admin");
    assert_eq!(c.exp, 50 + 86_400);
    assert_eq!(u.username, "alice");

    assert_eq!(
        login(Some(alice), "wrong", &at(50)).unwrap_err(),
        AuthError::InvalidCredentials
    );
    assert_eq!(login(None, "s3cret", &at(50)).unwrap_err(), AuthError::InvalidCredentials);
}

#[test]
fn login_with_a_broken_hash_fails() {
    let mut bob = user(2, "bob", "pw", UserRole::User);
    bob.password_hash = "not-a-hash".to_string();
    assert_eq!(login(Some(bob), "pw", &at(0)).unwrap_err(), AuthError::InvalidCredentials);
}

#[test]
fn registered_user_can_log_in() {
    assert_eq!(register(true, "carol", "pw", "user").unwrap_err(), AuthError::UsernameTaken);
    let new = register(false, "carol", "pw", "admin").unwrap();
    assert_eq!(new.username, "carol");
    assert_eq!(new.role, UserRole::Admin);
    assert_eq!(new.created_at, new.updated_at);
    assert_ne!(new.password_hash, "pw");
    assert_eq!(new.password_hash.len(), 60);
    assert!(new.password_hash.starts_with("$2b$12$"));
    let stored = Model {
        id: 5,
        username: new.username.clone(),
        password_hash: new.password_hash.clone(),
        role: new.role,
        created_at: new.created_at,
        updated_at: new.updated_at,
    };
    let (c, _) = login(Some(stored.clone()), "pw", &at(0)).unwrap();
    assert_eq!(c.role, "admin");
    assert!(login(Some(stored), "pw2", &at(0)).is_err());
}

#[test]
fn roles_by_name() {
    assert_eq!(UserRole::from_name("admin"), UserRole::Admin);
    assert_eq!(UserRole::from_name("user"), UserRole::User);
    assert_eq!(UserRole::from_name("root"), UserRole::User);
    assert_eq!(UserRole::Admin.name(), "admin");
    assert_eq!(UserRole::User.name(), "user");
    let req = RegisterRequest { username: "d".to_string(), password: "p".to_string(), role: None };
    assert_eq!(requested_role(&req), "user");
    let req = RegisterRequest { role: Some("admin".to_string()), ..req };
    assert_eq!(requested_role(&req), "admin");
}

#[test]
fn updating_a_user() {
    assert_eq!(update_user(None, Some("admin"), None).unwrap_err(), UserError::NotFound);
    let eve = user(3, "eve", "old", UserRole::User);
    let same = update_user(Some(eve.clone()), None, None).unwrap();
    assert_eq!(same.password_hash, eve.password_hash);
    assert_eq!(same.role, UserRole::User);

    let promoted = update_user(Some(eve.clone()), Some("admin"), None).unwrap();
    assert_eq!(promoted.role, UserRole::Admin);
    assert_eq!(promoted.id, 3);
    assert_eq!(promoted.created_at, eve.created_at);
    assert!(login(Some(promoted), "old", &at(0)).is_ok());

    let changed = update_user(Some(eve), None, Some("new")).unwrap();
    assert_eq!(changed.password_hash.len(), 60);
    assert!(changed.password_hash.starts_with("$2b$12$"));
    assert!(login(Some(changed.clone()), "new", &at(0)).is_ok());
    assert!(login(Some(changed), "old", &at(0)).is_err());
    assert_eq!(UserError::NotFound.message(), "User not found");
}

#[test]
fn admin_checks() {
    assert_eq!(require_admin(&claims(1, "admin")), Ok(()));
    assert_eq!(require_admin(&claims(1, "user")), Err(AdminError::NotAdmin));
    assert_eq!(require_admin_to_register(&claims(1, "admin")), Ok(()));
    assert_eq!(
        require_admin_to_register(&claims(1, "user")),
        Err(AdminError::NotAdminToRegister)
    );
    assert_eq!(admin_delete_user(&claims(1, "user")), Err(AdminError::NotAdmin));
    assert_eq!(admin_delete_user(&claims(1, "admin")), Ok(()));
    assert_eq!(AdminError::NotAdmin.message(), "Admin only");
    assert_eq!(AdminError::NotAdminToRegister.message(), "Only admins can create users");
}

#[test]
fn user_listings() {
    let mut a = user(1, "alice", "x", UserRole::Admin);
    a.created_at = at(86_400);
    let b = user(2, "bob", "y", UserRole::User);
    let infos = list_users(&vec![a.clone(), b.clone()]);
    assert_eq!(infos.len(), 2);
    assert_eq!(infos[0].username, "alice");
    assert_eq!(infos[0].role, "admin");
    assert_eq!(infos[0].created_at, "1970-01-02T00:00:00+00:00");
    assert_eq!(infos[1].id, 2);
    assert_eq!(infos[1].role, "user");

    let r = user_response(&b);
    assert_eq!(r.id, 2);
    assert_eq!(r.role, "user");
    assert_eq!(r.created_at, "1970-01-01T00:00:00+00:00");

    let i = user_info(&a);
    assert_eq!((i.id, i.username.as_str(), i.role.as_str()), (1, "alice", "admin"));
    let lr = login_response("tok".to_string(), &a);
    assert_eq!(lr.token, "tok");
    assert_eq!(lr.user.username, "alice");
}

#[test]
fn login_claims_carry_the_users_role() {
    let admin = user(1, "root", "pw", UserRole::Admin);
    let plain = user(2, "joe", "pw", UserRole::User);
    let (c, _) = login(Some(admin), "pw", &at(0)).unwrap();
    assert!(c.is_admin());
    assert_eq!(require_admin(&c), Ok(()));
    let (c, _) = login(Some(plain), "pw", &at(0)).unwrap();
    assert_eq!(c.role, "user");
    assert!(!c.is_admin());
    assert_eq!(require_admin(&c), Err(AdminError::NotAdmin));
}

#[test]
fn unknown_user_and_wrong_password_are_refused_alike() {
    let kim = user(4, "kim", "right", UserRole::User);
    let unknown = authenticate(None, "anything");
    let wrong = authenticate(Some(kim.clone()), "wrong");
    assert_eq!(unknown.clone().unwrap_err(), AuthError::InvalidCredentials);
    assert_eq!(unknown.unwrap_err(), wrong.unwrap_err());
    assert_eq!(authenticate(Some(kim.clone()), "right").unwrap().id, 4);
    let mut broken = kim;
    broken.password_hash = "garbage".to_string();
    assert_eq!(authenticate(Some(broken), "right").unwrap_err(), AuthError::InvalidCredentials);
}

#[test]
fn only_admins_manage_users() {
    let admin = claims(1, "admin");
    let plain = claims(2, "user");
    assert_eq!(
        admin_register(&plain, false, "x", "pw", "user").unwrap_err(),
        RegisterError::NotAdmin
    );
    assert_eq!(RegisterError::NotAdmin.message(), "Only admins can create users");
    assert_eq!(
        admin_register(&admin, true, "x", "pw", "user").unwrap_err(),
        RegisterError::Failed(AuthError::UsernameTaken)
    );
    let new = admin_register(&admin, false, "x", "pw", "user").unwrap();
    assert_eq!(new.username, "x");
    assert_eq!(new.role, UserRole::User);

    let users = vec![user(1, "a", "p", UserRole::Admin)];
    assert_eq!(admin_list_users(&plain, &users).unwrap_err(), AdminError::NotAdmin);
    let listed = admin_list_users(&admin, &users).unwrap();
    assert_eq!(listed.len(), 1);
    assert_eq!(listed[0].username, "a");

    let target = user(7, "t", "old", UserRole::User);
    assert_eq!(
        admin_update_user(&plain, Some(target.clone()), Some("admin"), None).unwrap_err(),
        AdminError::NotAdmin
    );
    assert!(admin_update_user(&admin, None, Some("admin"), None).unwrap().is_none());
    let v = admin_update_user(&admin, Some(target), Some("admin"), Some("new")).unwrap().unwrap();
    assert_eq!(v.role, UserRole::Admin);
    assert_eq!(v.id, 7);
    assert!(login(Some(v), "new", &at(0)).is_ok());
}
