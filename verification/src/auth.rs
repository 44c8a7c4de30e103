//! The authenticated identity handed to request handlers, and the checks
//! that gate it. Looking the user up (session cookie or token header) is
//! I/O and lives with the caller; the decisions over the looked-up values
//! are here.
use vstd::prelude::*;

verus! {

/// The account data the authentication checks read.
#[derive(Debug)]
pub struct User {
    pub id: i32,
    pub login: Vec<u8>,
    pub account_lock_reason: Option<Vec<u8>>,
    pub account_lock_until: Option<i64>,
}

/// Errors of the authentication checks.
#[derive(Debug)]
pub enum AuthError {
    /// No identity, or one that may not perform the action.
    Forbidden,
    /// The account is locked; carries the reason and the optional end of
    /// the lock (microseconds).
    AccountLocked { reason: Vec<u8>, until: Option<i64> },
}

/// A successfully authenticated user, with the id of the API token the
/// request presented, if any.
#[derive(Debug)]
pub struct AuthenticatedUser {
    user: User,
    token_id: Option<i32>,
}

impl AuthenticatedUser {
    /// The user behind this identity, in specifications.
    pub closed spec fn spec_user(&self) -> User {
        self.user
    }

    /// The token id of this identity, in specifications.
    pub closed spec fn spec_token_id(&self) -> Option<i32> {
        self.token_id
    }

    /// Packs an identity as the caller's lookup produced it.
    pub fn new(user: User, token_id: Option<i32>) -> (r: AuthenticatedUser)
        ensures
            r.spec_user() == user,
            r.spec_token_id() == token_id,
    {
        AuthenticatedUser { user, token_id }
    }

    pub fn user_id(&self) -> (r: i32)
        ensures
            r == self.spec_user().id,
    {
        self.user.id
    }

    pub fn api_token_id(&self) -> (r: Option<i32>)
        ensures
            r == self.spec_token_id(),
    {
        self.token_id
    }

    pub fn user(self) -> (r: User)
        ensures
            r == self.spec_user(),
    {
        self.user
    }

    /// Disallows token authenticated users.
    pub fn forbid_api_token_auth(self) -> (r: Result<Self, AuthError>)
        ensures
            self.spec_token_id() is None ==> r == Result::<Self, AuthError>::Ok(self),
            self.spec_token_id() is Some ==> r matches Result::<Self, AuthError>::Err(
                AuthError::Forbidden,
            ),
    {
        if self.token_id.is_none() {
            Ok(self)
        } else {
            Err(AuthError::Forbidden)
        }
    }
}

/// Whether an account lock is still in force at `now`: an open-ended lock
/// always is, a dated one until its end has passed.
pub fn still_locked(until: Option<i64>, now: i64) -> (r: bool)
    ensures
        r == match until {
            Option::Some(u) => u > now,
            Option::None => true,
        },
{
    match until {
        Some(u) => u > now,
        None => true,
    }
}

/// Implemented by request types that can authenticate the caller. The
/// lookup itself is I/O, so implementations live with the caller; they
/// are expected to refuse locked accounts using `still_locked`.
pub trait UserAuthenticationExt {
    fn authenticate(&mut self) -> Result<AuthenticatedUser, AuthError>;
}

} // verus!
