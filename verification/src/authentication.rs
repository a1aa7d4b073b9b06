//! Authentication service: users, tokens and the password scheme of the
//! built-in stub.  Times are Unix seconds and durations plain seconds.

use vstd::prelude::*;

use crate::trusted::str_eq;
use crate::CoreError;

verus! {

/// A bearer token handed out on login.
#[derive(Debug)]
pub struct AuthToken {
    pub token: String,
    pub user_id: String,
    pub expires_at: u64,
    pub permissions: Vec<String>,
    pub created_at: u64,
}

/// The outcome of an authentication attempt.
#[derive(Debug)]
pub enum AuthResult {
    Success(AuthToken),
    InvalidCredentials,
    TokenExpired,
    InsufficientPermissions,
    AccountLocked,
    RateLimited,
}

/// One registered user.
#[derive(Debug)]
pub struct User {
    pub user_id: String,
    pub email: String,
    pub password_hash: String,
    pub permissions: Vec<String>,
    pub is_active: bool,
    pub created_at: u64,
    pub last_login: Option<u64>,
    pub failed_login_attempts: u32,
    pub locked_until: Option<u64>,
}

/// Limits and secrets of the authentication service.
#[derive(Debug)]
pub struct AuthConfig {
    pub jwt_secret: String,
    pub token_expiry_secs: u64,
    pub max_failed_attempts: u32,
    pub lockout_secs: u64,
    pub rate_limit_requests: u32,
    pub rate_limit_window_secs: u64,
}

/// The hash the password stub derives: a fixed tag in front of the
/// password text.
pub open spec fn spec_password_hash(password: Seq<char>) -> Seq<char> {
    "hash_"@ + password
}

/// Manages users and their credentials.
#[derive(Debug)]
pub struct AuthenticationService {
    config: AuthConfig,
    users: Vec<User>,
}

impl AuthenticationService {
    /// The limits the service was created with.
    pub closed spec fn spec_config(self) -> AuthConfig {
        self.config
    }

    /// The registered users, in registration order.
    pub closed spec fn spec_users(self) -> Seq<User> {
        self.users@
    }

    pub fn new(config: AuthConfig) -> (r: Self)
        ensures
            r.spec_config() == config,
            r.spec_users() =~= Seq::<User>::empty(),
    {
        AuthenticationService { config, users: Vec::new() }
    }

    /// Derive the stored form of a password.
    pub fn hash_password(&self, password: &str) -> (r: Result<String, CoreError>)
        ensures
            r matches Ok(h) && h@ == spec_password_hash(password@),
    {
        Ok(String::from_str("hash_").concat(password))
    }

    /// Whether a password matches a stored hash: exactly when the hash is
    /// the derived form of the password.
    pub fn verify_password(&self, password: &str, hash: &str) -> (r: Result<bool, CoreError>)
        ensures
            r matches Ok(ok) && ok == (hash@ == spec_password_hash(password@)),
    {
        let expected = String::from_str("hash_").concat(password);
        Ok(str_eq(hash, expected.as_str()))
    }
}

} // verus!
