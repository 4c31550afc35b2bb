//! Accounts and sessions: who may sign in, and how long a session lasts.
//!
//! Bearer tokens are made and read by the caller. What is decided here is
//! whether a password fits an account, whether an account may be used, and
//! whether a session is still good.

use crate::dates::{read_rfc3339, rfc3339_instant, rfc3339_of_seconds, write_rfc3339};
use crate::errors::{AppError, ErrorKind};
use crate::ids::fresh_id;
use vstd::prelude::*;

verus! {

/// A stored account.
#[derive(Debug)]
pub struct User {
    pub id: String,
    pub email: String,
    pub password_hash: Option<String>,
    pub is_active: bool,
    pub created_at: String,
}

/// An account that is about to be stored.
#[derive(Debug)]
pub struct NewUser {
    pub id: String,
    pub email: String,
    pub password_hash: String,
}

/// A stored session.
#[derive(Debug)]
pub struct Session {
    pub id: String,
    pub user_id: String,
    pub token: String,
    pub expires_at: String,
    pub created_at: String,
}

/// A session that is about to be stored.
#[derive(Debug)]
pub struct NewSession {
    pub id: String,
    pub user_id: String,
    pub token: String,
    pub expires_at: String,
}

/// How long a session and its token are good for, in seconds: a day.
pub const SESSION_SECONDS: u64 = 86400;

/// What bcrypt says of a password and a stored hash: whether they fit, or
/// `None` where the hash cannot be read.
pub uninterp spec fn password_matches(password: Seq<char>, hash: Seq<char>) -> Option<bool>;

/// `bcrypt::verify`. The contract claims only that the outcome depends on the
/// password and the hash alone.
#[verifier::external_body]
pub(crate) fn bcrypt_verify(password: &str, hash: &str) -> (fits: Option<bool>)
    ensures
        fits == password_matches(password@, hash@),
{
    bcrypt::verify(password, hash).ok()
}

/// `bcrypt::hash` at the crate's default cost, with a random salt. Whatever
/// hash comes back, the password fits it.
#[verifier::external_body]
pub(crate) fn bcrypt_hash(password: &str) -> (hash: Option<String>)
    ensures
        hash matches Some(h) ==> password_matches(password@, h@) == Some(true),
{
    bcrypt::hash(password, bcrypt::DEFAULT_COST).ok()
}

/// The error that refuses a sign-in with `password` to the account `user`,
/// if there is one. No account, an account without a password and a password
/// that does not fit are refused alike; a hash that cannot be read is a
/// failure of the service; a disabled account is refused last.
pub open spec fn login_refusal(user: Option<User>, password: Seq<char>) -> Option<
    (ErrorKind, Seq<char>),
> {
    match user {
        None => Some((ErrorKind::InvalidInput, "Invalid credentials"@)),
        Some(u) => match u.password_hash {
            None => Some((ErrorKind::InvalidInput, "Invalid credentials"@)),
            Some(hash) => match password_matches(password, hash@) {
                None => Some((ErrorKind::InternalError, "Failed to verify password"@)),
                Some(false) => Some((ErrorKind::InvalidInput, "Invalid credentials"@)),
                Some(true) => if u.is_active {
                    None
                } else {
                    Some((ErrorKind::InvalidInput, "Account is disabled"@))
                },
            },
        },
    }
}

/// The error that keeps the account `user`, looked up for a token, from
/// being used, if there is one.
pub open spec fn account_refusal(user: Option<User>) -> Option<(ErrorKind, Seq<char>)> {
    match user {
        None => Some((ErrorKind::InvalidInput, "User not found"@)),
        Some(u) => if u.is_active {
            None
        } else {
            Some((ErrorKind::InvalidInput, "Account is disabled"@))
        },
    }
}

/// Whether the instant `a` lies before the instant `b`, each given as seconds
/// and nanoseconds.
pub open spec fn is_before(a: (i64, u32), b: (i64, u32)) -> bool {
    a.0 < b.0 || (a.0 == b.0 && a.1 < b.1)
}

/// The error that refuses the session `session`, looked up for a token, at
/// the instant `now`, if there is one.
pub open spec fn session_refusal(session: Option<Session>, now: (i64, u32)) -> Option<
    (ErrorKind, Seq<char>),
> {
    match session {
        None => Some((ErrorKind::InvalidInput, "Invalid session"@)),
        Some(s) => match rfc3339_instant(s.expires_at@) {
            None => Some((ErrorKind::InvalidInput, "Invalid session format"@)),
            Some(end) => if is_before((end.0, end.1), now) {
                Some((ErrorKind::InvalidInput, "Session expired"@))
            } else {
                None
            },
        },
    }
}

/// Whether `r` succeeds where `refusal` is `None` and fails with just that
/// error where it is not.
pub open spec fn follows(r: Result<(), AppError>, refusal: Option<(ErrorKind, Seq<char>)>) -> bool {
    match refusal {
        None => r is Ok,
        Some((kind, message)) => r matches Err(e) && e.reports(kind, message),
    }
}

fn invalid_input(message: &str) -> (e: AppError)
    ensures
        e.reports(ErrorKind::InvalidInput, message@),
{
    AppError::InvalidInput(message.to_owned())
}

/// What a check of a password against a stored hash means for a sign-in to
/// an account that is active or not.
pub fn judge_password(fits: Option<bool>, is_active: bool) -> (r: Result<(), AppError>)
    ensures
        match fits {
            None => r matches Err(e) && e.reports(
                ErrorKind::InternalError,
                "Failed to verify password"@,
            ),
            Some(false) => r matches Err(e) && e.reports(
                ErrorKind::InvalidInput,
                "Invalid credentials"@,
            ),
            Some(true) => if is_active {
                r is Ok
            } else {
                r matches Err(e) && e.reports(ErrorKind::InvalidInput, "Account is disabled"@)
            },
        },
{
    match fits {
        None => Err(AppError::InternalError("Failed to verify password".to_owned())),
        Some(false) => Err(invalid_input("Invalid credentials")),
        Some(true) => {
            if is_active {
                Ok(())
            } else {
                Err(invalid_input("Account is disabled"))
            }
        },
    }
}

/// Decides a sign-in with `password` to the account that was found for the
/// address, if any was; see [`login_refusal`].
pub fn check_login(user: Option<&User>, password: &str) -> (r: Result<(), AppError>)
    ensures
        follows(
            r,
            login_refusal(
                match user {
                    Some(u) => Some(*u),
                    None => None,
                },
                password@,
            ),
        ),
{
    match user {
        None => Err(invalid_input("Invalid credentials")),
        Some(u) => match &u.password_hash {
            None => Err(invalid_input("Invalid credentials")),
            Some(hash) => judge_password(bcrypt_verify(password, hash.as_str()), u.is_active),
        },
    }
}

/// Decides whether the account that was found for a token, if any was, may
/// be used; see [`account_refusal`].
pub fn check_account(user: Option<&User>) -> (r: Result<(), AppError>)
    ensures
        follows(
            r,
            account_refusal(
                match user {
                    Some(u) => Some(*u),
                    None => None,
                },
            ),
        ),
{
    match user {
        None => Err(invalid_input("User not found")),
        Some(u) => {
            if u.is_active {
                Ok(())
            } else {
                Err(invalid_input("Account is disabled"))
            }
        },
    }
}

/// What a reading of a session's end means at the instant `now`: a session
/// whose end cannot be read is refused, and so is one whose end lies before
/// `now`.
pub fn judge_expiry(end: Option<(i64, u32, i32)>, now_secs: i64, now_nanos: u32) -> (r: Result<
    (),
    AppError,
>)
    ensures
        match end {
            None => r matches Err(e) && e.reports(
                ErrorKind::InvalidInput,
                "Invalid session format"@,
            ),
            Some(t) => if is_before((t.0, t.1), (now_secs, now_nanos)) {
                r matches Err(e) && e.reports(ErrorKind::InvalidInput, "Session expired"@)
            } else {
                r is Ok
            },
        },
{
    match end {
        None => Err(invalid_input("Invalid session format")),
        Some(t) => {
            if t.0 < now_secs || (t.0 == now_secs && t.1 < now_nanos) {
                Err(invalid_input("Session expired"))
            } else {
                Ok(())
            }
        },
    }
}

/// Decides whether the session that was found for a token, if any was, is
/// still good at the instant `now_secs`, `now_nanos`; see
/// [`session_refusal`].
pub fn check_session(session: Option<&Session>, now_secs: i64, now_nanos: u32) -> (r: Result<
    (),
    AppError,
>)
    ensures
        follows(
            r,
            session_refusal(
                match session {
                    Some(s) => Some(*s),
                    None => None,
                },
                (now_secs, now_nanos),
            ),
        ),
{
    match session {
        None => Err(invalid_input("Invalid session")),
        Some(s) => judge_expiry(read_rfc3339(s.expires_at.as_str()), now_secs, now_nanos),
    }
}

/// Refuses a registration for an address that has an account already, with
/// `InvalidInput`, `User already exists`.
pub fn ensure_unregistered(found: bool) -> (r: Result<(), AppError>)
    ensures
        r is Ok <==> !found,
        r matches Err(e) ==> e.reports(ErrorKind::InvalidInput, "User already exists"@),
{
    if found {
        Err(invalid_input("User already exists"))
    } else {
        Ok(())
    }
}

impl NewUser {
    /// The account with the identifier `id` for an outcome of hashing its
    /// password; where hashing failed, `InternalError`,
    /// `Failed to hash password`.
    pub fn with_id(id: String, email: &str, password_hash: Option<String>) -> (r: Result<
        NewUser,
        AppError,
    >)
        ensures
            match password_hash {
                Some(h) => r matches Ok(u) && u.id == id && u.email@ == email@ && u.password_hash
                    == h,
                None => r matches Err(e) && e.reports(
                    ErrorKind::InternalError,
                    "Failed to hash password"@,
                ),
            },
    {
        match password_hash {
            Some(h) => Ok(NewUser { id, email: email.to_owned(), password_hash: h }),
            None => Err(AppError::InternalError("Failed to hash password".to_owned())),
        }
    }

    /// The account to store for a registration, under a fresh random
    /// identifier: where hashing does not fail, an account for the address
    /// with a hash that the password fits.
    pub fn prepare(email: &str, password: &str) -> (r: Result<NewUser, AppError>)
        ensures
            match r {
                Ok(u) => u.email@ == email@ && password_matches(password@, u.password_hash@)
                    == Some(true),
                Err(e) => e.reports(ErrorKind::InternalError, "Failed to hash password"@),
            },
    {
        let hash = bcrypt_hash(password);
        NewUser::with_id(fresh_id(), email, hash)
    }
}

/// The second at which what is issued at the second `now_secs` ends to be
/// good: a day later. `None` where that is beyond what a signed 64-bit count
/// of seconds holds.
pub fn session_end(now_secs: u64) -> (end: Option<i64>)
    ensures
        match end {
            Some(t) => t == now_secs + SESSION_SECONDS,
            None => now_secs + SESSION_SECONDS > i64::MAX,
        },
{
    if now_secs > (i64::MAX as u64) - SESSION_SECONDS {
        None
    } else {
        Some((now_secs + SESSION_SECONDS) as i64)
    }
}

impl NewSession {
    /// The session with the identifier `id` for the written form of its end,
    /// where there is one.
    pub fn with_id(id: String, user_id: String, token: String, expires_at: Option<String>) -> (s:
        Option<NewSession>)
        ensures
            match expires_at {
                Some(t) => s == Some(NewSession { id, user_id, token, expires_at: t }),
                None => s is None,
            },
    {
        match expires_at {
            Some(t) => Some(NewSession { id, user_id, token, expires_at: t }),
            None => None,
        }
    }

    /// The session to store for a sign-in at the second `now_secs`, under a
    /// fresh random identifier: it ends a day later, and its end is written
    /// as RFC 3339 text. `None` where that end cannot be written.
    pub fn open(user_id: String, token: String, now_secs: u64) -> (s: Option<NewSession>)
        ensures
            match s {
                Some(session) => session.user_id == user_id && session.token == token && now_secs
                    + SESSION_SECONDS <= i64::MAX && rfc3339_of_seconds(
                    (now_secs + SESSION_SECONDS) as i64,
                ) == Some(session.expires_at@),
                None => now_secs + SESSION_SECONDS > i64::MAX || rfc3339_of_seconds(
                    (now_secs + SESSION_SECONDS) as i64,
                ) is None,
            },
    {
        match session_end(now_secs) {
            None => None,
            Some(end) => NewSession::with_id(fresh_id(), user_id, token, write_rfc3339(end)),
        }
    }
}

} // verus!
