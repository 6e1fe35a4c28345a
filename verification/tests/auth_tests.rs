use zggsds::auth::{
    admin_to_create, allow_auth_attempt, authenticate, extract_bearer_token, initial_admin,
    login_attempt_key, verify_password,
    new_password_acceptable, password_change, token_claims, validate_jwt_secret,
    ChangePasswordRequest, RateLimiter, AUTH_WINDOW_NANOS,
};
use zggsds::error::Failure;
use zggsds::models::User;

fn account(id: i32, password: &str, deleted: bool) -> User {
    User {
        id,
        username: format!("user{id}"),
        email: format!("user{id}@test.invalid"),
        password_hash: bcrypt::hash(password, 4).unwrap(),
        role: "employee".into(),
        department_id: None,
        deleted,
    }
}

#[test]
fn ten_attempts_per_minute_are_admitted() {
    let mut limiter = RateLimiter::new();
    let start: u64 = 1_000;
    for i in 0..10u64 {
        assert!(allow_auth_attempt(&mut limiter, "login:alice", start + i));
    }
    assert!(!allow_auth_attempt(&mut limiter, "login:alice", start + 10));
    assert!(!allow_auth_attempt(&mut limiter, "login:alice", start + AUTH_WINDOW_NANOS - 1));
    // another key is throttled on its own
    assert!(allow_auth_attempt(&mut limiter, "login:bob", start + 11));
    // a minute after the first attempts they no longer count
    assert!(allow_auth_attempt(&mut limiter, "login:alice", start + AUTH_WINDOW_NANOS + 9));
}

#[test]
fn throttle_keys_ignore_case() {
    let mut limiter = RateLimiter::new();
    for _ in 0..10 {
        assert!(allow_auth_attempt(&mut limiter, "login:Alice", 5));
    }
    assert!(!allow_auth_attempt(&mut limiter, "LOGIN:ALICE", 6));
}

#[test]
fn refused_attempts_are_not_recorded() {
    let mut limiter = RateLimiter::new();
    for t in 0..10u64 {
        assert!(allow_auth_attempt(&mut limiter, "k", t));
    }
    // refused attempts at a later time do not extend the window
    assert!(!allow_auth_attempt(&mut limiter, "k", AUTH_WINDOW_NANOS - 1));
    assert!(allow_auth_attempt(&mut limiter, "k", AUTH_WINDOW_NANOS));
}

#[test]
fn attempt_keys_are_trimmed() {
    assert_eq!(login_attempt_key("  alice \t"), "login:alice");
    assert_eq!(zggsds::registration::registration_attempt_key(" a@b.c "), "register:a@b.c");
}

#[test]
fn jwt_secret_must_be_set_and_not_blank() {
    assert_eq!(validate_jwt_secret(None), Err(Failure::JwtSecretMissing));
    assert_eq!(validate_jwt_secret(Some("   \n")), Err(Failure::JwtSecretEmpty));
    assert_eq!(validate_jwt_secret(Some("")), Err(Failure::JwtSecretEmpty));
    assert_eq!(validate_jwt_secret(Some(" s3cret ")), Ok(()));
}

#[test]
fn tokens_expire_after_a_day() {
    let c = token_claims(7, "alice", "admin", 1_700_000_000);
    assert_eq!(c.sub, "alice");
    assert_eq!(c.user_id, 7);
    assert_eq!(c.role, "admin");
    assert_eq!(c.exp, 1_700_086_400);
}

#[test]
fn bearer_token_from_header() {
    assert_eq!(extract_bearer_token(Some("Bearer abc.def"), None), Some("abc.def".to_string()));
    assert_eq!(extract_bearer_token(Some("Basic abc"), None), None);
    assert_eq!(extract_bearer_token(Some("bearer abc"), None), None);
    // the header wins over the cookie, even when it is malformed
    assert_eq!(extract_bearer_token(Some("Token x"), Some("access_token=zzz")), None);
    assert_eq!(
        extract_bearer_token(Some("Bearer h"), Some("access_token=c")),
        Some("h".to_string())
    );
}

#[test]
fn bearer_token_from_cookie() {
    assert_eq!(extract_bearer_token(None, Some("access_token=tok")), Some("tok".to_string()));
    assert_eq!(
        extract_bearer_token(None, Some("theme=dark;  access_token=t1=x ; access_token=t2")),
        Some("t1=x".to_string())
    );
    assert_eq!(extract_bearer_token(None, Some("theme=dark; other=1")), None);
    assert_eq!(extract_bearer_token(None, Some("access_token")), None);
    assert_eq!(extract_bearer_token(None, Some("")), None);
    assert_eq!(extract_bearer_token(None, Some(";;access_token=;")), Some("".to_string()));
    assert_eq!(extract_bearer_token(None, None), None);
}

#[test]
fn authenticate_checks_password_and_deletion() {
    let alive = account(2, "correct-password", false);
    let gone = account(3, "correct-password", true);
    let ok = authenticate(Some(&alive), "correct-password").unwrap();
    assert_eq!(ok.user_id, 2);
    assert_eq!(ok.username, "user2");
    assert_eq!(ok.role, "employee");
    assert!(matches!(authenticate(Some(&alive), "wrong"), Err(Failure::BadCredentials)));
    assert!(matches!(authenticate(Some(&gone), "correct-password"), Err(Failure::BadCredentials)));
    assert!(matches!(authenticate(None, "correct-password"), Err(Failure::BadCredentials)));
}

#[test]
fn password_change_rules() {
    let me = account(2, "old-password", false);
    let req = |old: &str, new: &str| ChangePasswordRequest {
        old_password: old.into(),
        new_password: new.into(),
    };
    assert_eq!(
        password_change(Some(&me), &req("old-password", "  abc  ")),
        Err(Failure::NewPasswordTooShort)
    );
    assert_eq!(
        password_change(None, &req("old-password", "new-password")),
        Err(Failure::AccountNotFound)
    );
    assert_eq!(
        password_change(Some(&me), &req("nope", "new-password")),
        Err(Failure::WrongOldPassword)
    );
    assert_eq!(
        password_change(Some(&me), &req("old-password", "old-password")),
        Err(Failure::SamePassword)
    );
    let hash = password_change(Some(&me), &req("old-password", "new-password")).unwrap();
    assert!(bcrypt::verify("new-password", &hash).unwrap());
    assert!(!bcrypt::verify("old-password", &hash).unwrap());
}

#[test]
fn new_passwords_count_bytes_after_trimming() {
    assert!(!new_password_acceptable("12345"));
    assert!(new_password_acceptable("123456"));
    assert!(!new_password_acceptable("  1234  "));
    // two three-byte characters make six bytes
    assert!(new_password_acceptable("密码"));
}

#[test]
fn initial_admin_needs_a_long_password() {
    assert!(matches!(initial_admin("   short   "), Err(Failure::AdminPasswordTooShort)));
    // four characters are twelve bytes, and still too short
    assert!(matches!(initial_admin("密码密码"), Err(Failure::AdminPasswordTooShort)));
    assert!(matches!(initial_admin("  密码密码密码密码密码密  "), Err(Failure::AdminPasswordTooShort)));
    assert!(initial_admin("密码密码密码密码密码密码").is_ok());
    let admin = initial_admin("a-long-enough-password").unwrap();
    assert_eq!(admin.username, "admin");
    assert_eq!(admin.email, "admin@zdht.com");
    assert_eq!(admin.role, "admin");
    assert_eq!(admin.department_id, None);
    assert!(bcrypt::verify("a-long-enough-password", &admin.password_hash).unwrap());
}

#[test]
fn the_admin_is_created_only_once() {
    let existing = account(1, "whatever-password", true);
    assert!(matches!(admin_to_create(Some(&existing), None), Ok(None)));
    assert!(matches!(admin_to_create(Some(&existing), Some("x")), Ok(None)));
    assert!(matches!(admin_to_create(None, None), Err(Failure::AdminPasswordMissing)));
    assert!(matches!(admin_to_create(None, Some("short")), Err(Failure::AdminPasswordTooShort)));
    let admin = admin_to_create(None, Some("a-long-enough-password")).unwrap().unwrap();
    assert_eq!(admin.username, "admin");
    assert!(verify_password("a-long-enough-password", &admin.password_hash));
    assert!(!verify_password("another-password", &admin.password_hash));
    assert_eq!(
        Failure::AdminPasswordMissing.message(),
        "ADMIN_PASSWORD must be set when creating the initial admin user"
    );
}

#[test]
fn an_empty_hash_matches_nothing() {
    assert!(!verify_password("", ""));
    assert!(!verify_password("a-long-enough-password", ""));
}

#[test]
fn attempts_on_one_key_leave_other_keys_alone() {
    let mut limiter = RateLimiter::new();
    let mut now: u64 = 1_000;
    for _ in 0..10 {
        assert!(allow_auth_attempt(&mut limiter, "login:a", now));
        assert!(allow_auth_attempt(&mut limiter, "login:b", now));
        now += 1;
    }
    assert!(!allow_auth_attempt(&mut limiter, "login:a", now));
    for _ in 0..5 {
        assert!(!allow_auth_attempt(&mut limiter, "login:b", now));
    }
    assert!(allow_auth_attempt(&mut limiter, "login:c", now));
    assert!(!allow_auth_attempt(&mut limiter, "LOGIN:A", now));
    assert!(allow_auth_attempt(&mut limiter, "login:a", now + AUTH_WINDOW_NANOS));
}
