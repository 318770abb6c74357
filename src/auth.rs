use vstd::prelude::*;
use crate::crypto::{generate_salt, password_matches, salt_password, salted_digest};

verus! {

/// What an authenticated account may do.
#[derive(Clone, Copy, Debug, PartialEq, Eq, Structural)]
pub enum Role {
    User,
    Monitor,
    Admin,
}

/// The role stored as a number: 1 is an administrator, 2 a monitor, and
/// anything else an ordinary user.
pub open spec fn role_of_code(code: i32) -> Role {
    if code == 1 {
        Role::Admin
    } else if code == 2 {
        Role::Monitor
    } else {
        Role::User
    }
}

impl Role {
    pub fn from_code(code: i32) -> (r: Role)
        ensures
            r == role_of_code(code),
    {
        match code {
            1 => Role::Admin,
            2 => Role::Monitor,
            _ => Role::User,
        }
    }
}

/// The identity carried by a session token.
#[derive(Clone, Debug)]
pub struct UserClaims {
    pub username: String,
    pub id: String,
    pub role: Role,
}

impl UserClaims {
    pub fn new(username: &str, id: &str, role_code: i32) -> (r: UserClaims)
        ensures
            r.username@ == username@,
            r.id@ == id@,
            r.role == role_of_code(role_code),
    {
        UserClaims { username: String::from_str(username), id: String::from_str(id), role: Role::from_code(role_code) }
    }

    /// Whether the account may manage challenges and games.
    pub fn is_admin(&self) -> (r: bool)
        ensures
            r == (self.role == Role::Admin),
    {
        self.role == Role::Admin
    }
}

/// A stored account as the login needs it.
#[derive(Clone, Debug)]
pub struct StoredCredentials {
    pub user_id: String,
    pub username: String,
    pub salt: String,
    pub password: String,
    pub role: i32,
}

/// The claims of a session for an account whose password was given: the
/// account's name, identifier and role when the password matches, nothing
/// otherwise.
pub fn login_claims(account: &StoredCredentials, password: &str) -> (r: Option<UserClaims>)
    ensures
        r is Some <==> salted_digest(password@, account.salt@) == account.password@,
        r matches Some(c) ==> c.username@ == account.username@ && c.id@ == account.user_id@
            && c.role == role_of_code(account.role),
{
    if password_matches(password, account.salt.as_str(), account.password.as_str()) {
        Some(UserClaims::new(account.username.as_str(), account.user_id.as_str(), account.role))
    } else {
        None
    }
}

/// A fresh salt and the stored form of `password` under it.
pub fn new_credentials(password: &str) -> (r: (String, String))
    ensures
        r.0@.len() == 48,
        r.1@ == salted_digest(password@, r.0@),
{
    let salt = generate_salt();
    let digest = salt_password(password, salt.as_str());
    (salt, digest)
}

} // verus!
