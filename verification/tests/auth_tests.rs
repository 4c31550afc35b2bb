use frogolio::auth::{
    check_account, check_login, check_session, ensure_unregistered, judge_expiry, judge_password,
    session_end, NewSession, NewUser, Session, User, SESSION_SECONDS,
};
use frogolio::errors::AppError;

fn user(password_hash: Option<String>, is_active: bool) -> User {
    User {
        id: "u1".into(),
        email: "a@b.c".into(),
        password_hash,
        is_active,
        created_at: "2024-01-01T00:00:00Z".into(),
    }
}

fn session(expires_at: &str) -> Session {
    Session {
        id: "s1".into(),
        user_id: "u1".into(),
        token: "t".into(),
        expires_at: expires_at.into(),
        created_at: "2024-01-01T00:00:00Z".into(),
    }
}

fn refused(r: Result<(), AppError>) -> String {
    r.expect_err("a refusal").describe()
}

#[test]
fn password_must_fit_the_stored_hash() {
    let hash = bcrypt::hash("s3cret", 4).unwrap();
    let u = user(Some(hash), true);
    assert!(check_login(Some(&u), "s3cret").is_ok());
    assert_eq!(refused(check_login(Some(&u), "S3cret")), "Invalid input: Invalid credentials");
    assert_eq!(refused(check_login(Some(&u), "")), "Invalid input: Invalid credentials");
}

#[test]
fn unknown_and_passwordless_accounts_are_refused_alike() {
    assert_eq!(refused(check_login(None, "x")), "Invalid input: Invalid credentials");
    assert_eq!(refused(check_login(Some(&user(None, true)), "x")), "Invalid input: Invalid credentials");
}

#[test]
fn unreadable_hash_is_a_failure_of_the_service() {
    let u = user(Some("not-a-hash".into()), true);
    assert_eq!(refused(check_login(Some(&u), "x")), "Internal error: Failed to verify password");
}

#[test]
fn disabled_account_is_refused_after_the_password() {
    let hash = bcrypt::hash("pw", 4).unwrap();
    let u = user(Some(hash), false);
    assert_eq!(refused(check_login(Some(&u), "pw")), "Invalid input: Account is disabled");
    assert_eq!(refused(check_login(Some(&u), "wrong")), "Invalid input: Invalid credentials");
    assert_eq!(refused(judge_password(Some(true), false)), "Invalid input: Account is disabled");
    assert!(judge_password(Some(true), true).is_ok());
    assert_eq!(refused(judge_password(None, false)), "Internal error: Failed to verify password");
}

#[test]
fn account_for_a_token_must_exist_and_be_active() {
    assert!(check_account(Some(&user(None, true))).is_ok());
    assert_eq!(refused(check_account(None)), "Invalid input: User not found");
    assert_eq!(refused(check_account(Some(&user(None, false)))), "Invalid input: Account is disabled");
}

#[test]
fn session_is_good_until_its_end() {
    let s = session("2024-03-05T21:07:09+00:00");
    let end = 1709672829;
    assert!(check_session(Some(&s), end - 1, 999_999_999).is_ok());
    assert!(check_session(Some(&s), end, 0).is_ok());
    assert_eq!(refused(check_session(Some(&s), end, 1)), "Invalid input: Session expired");
    assert_eq!(refused(check_session(Some(&s), end + 1, 0)), "Invalid input: Session expired");
    let offset = session("2024-03-05T22:07:09.5+01:00");
    assert!(check_session(Some(&offset), end, 500_000_000).is_ok());
    assert_eq!(refused(check_session(Some(&offset), end, 500_000_001)), "Invalid input: Session expired");
}

#[test]
fn missing_and_unreadable_sessions_are_refused() {
    assert_eq!(refused(check_session(None, 0, 0)), "Invalid input: Invalid session");
    assert_eq!(
        refused(check_session(Some(&session("tomorrow")), 0, 0)),
        "Invalid input: Invalid session format"
    );
    assert_eq!(refused(judge_expiry(None, 0, 0)), "Invalid input: Invalid session format");
    assert!(judge_expiry(Some((5, 0, 0)), 5, 0).is_ok());
    assert!(judge_expiry(Some((-5, 0, 3600)), -6, 7).is_ok());
}

#[test]
fn registration_hashes_the_password() {
    assert!(ensure_unregistered(false).is_ok());
    assert_eq!(refused(ensure_unregistered(true)), "Invalid input: User already exists");
    let new = NewUser::prepare("a@b.c", "hunter22").unwrap();
    assert_eq!(new.email, "a@b.c");
    assert_eq!(new.id.len(), 36);
    assert_ne!(new.password_hash, "hunter22");
    assert!(bcrypt::verify("hunter22", &new.password_hash).unwrap());
    assert!(check_login(Some(&user(Some(new.password_hash), true)), "hunter22").is_ok());
    let failed = NewUser::with_id("id".into(), "a@b.c", None).map(|_| ());
    assert_eq!(refused(failed), "Internal error: Failed to hash password");
}

#[test]
fn session_lasts_a_day() {
    assert_eq!(SESSION_SECONDS, 24 * 60 * 60);
    assert_eq!(session_end(0), Some(86_400));
    assert_eq!(session_end(1_700_000_000), Some(1_700_086_400));
    assert_eq!(session_end(i64::MAX as u64 - 86_400), Some(i64::MAX));
    assert_eq!(session_end(i64::MAX as u64 - 86_399), None);
    assert_eq!(session_end(u64::MAX), None);
}

#[test]
fn opened_session_ends_a_day_later_in_rfc3339() {
    let s = NewSession::open("u1".into(), "tok".into(), 0).unwrap();
    assert_eq!(s.expires_at, "1970-01-02T00:00:00+00:00");
    assert_eq!((s.user_id.as_str(), s.token.as_str()), ("u1", "tok"));
    assert_eq!(s.id.len(), 36);
    let later = NewSession::open("u1".into(), "tok".into(), 1_709_586_429).unwrap();
    assert_eq!(later.expires_at, "2024-03-05T21:07:09+00:00");
    assert!(NewSession::open("u1".into(), "tok".into(), u64::MAX).is_none());
    assert!(NewSession::open("u1".into(), "tok".into(), (i64::MAX as u64) - 86_400).is_none());
    assert!(NewSession::with_id("i".into(), "u".into(), "t".into(), None).is_none());
}

#[test]
fn opened_session_is_good_for_exactly_its_day() {
    let now = 1_709_586_429u64;
    let opened = NewSession::open("u1".into(), "tok".into(), now).unwrap();
    let stored = session(&opened.expires_at);
    assert!(check_session(Some(&stored), now as i64, 0).is_ok());
    assert!(check_session(Some(&stored), (now + SESSION_SECONDS) as i64, 0).is_ok());
    assert!(check_session(Some(&stored), (now + SESSION_SECONDS) as i64, 1).is_err());
}
