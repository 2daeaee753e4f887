//! The user record as this layer sees it, and the privilege levels.

use vstd::prelude::*;

verus! {

/// Privilege level of a caller. `Normal` is the base level, `Developer`
/// the elevated one.
#[derive(Clone, Copy, Debug, PartialEq, Eq, Structural)]
pub enum UserRole {
    Normal,
    Developer,
}

impl UserRole {
    /// Numeric code of the level: `Normal` is 0, `Developer` is 1.
    pub open spec fn spec_code(self) -> u8 {
        match self {
            UserRole::Normal => 0,
            UserRole::Developer => 1,
        }
    }

    pub fn code(self) -> (r: u8)
        ensures
            r == self.spec_code(),
    {
        match self {
            UserRole::Normal => 0,
            UserRole::Developer => 1,
        }
    }

    /// Inverse of `code`. Only the two documented codes exist; anything
    /// else is rejected before this point.
    pub fn from_code(code: u8) -> (r: Self)
        requires
            code <= 1,
        ensures
            r.spec_code() == code,
    {
        if code == 0 {
            UserRole::Normal
        } else {
            UserRole::Developer
        }
    }

    /// True when this level grants at least the privileges of `other`.
    pub open spec fn spec_at_least(self, other: UserRole) -> bool {
        self.spec_code() >= other.spec_code()
    }

    pub fn at_least(self, other: UserRole) -> (r: bool)
        ensures
            r == self.spec_at_least(other),
    {
        self.code() >= other.code()
    }
}

/// A user record. The identifier is a UUID in its hyphenated textual form;
/// the two instants are milliseconds since the Unix epoch.
#[derive(Clone, Debug)]
pub struct User {
    pub id: String,
    pub name: String,
    pub email: String,
    pub role: UserRole,
    pub created_at: i64,
    pub updated_at: i64,
}

/// Relies on `uuid::Uuid::new_v4` and its `Display` form: a fresh random
/// identifier, rendered hyphenated, which is always 36 characters long.
#[verifier::external_body]
fn fresh_uuid() -> (r: String)
    ensures
        r@.len() == 36,
{
    uuid::Uuid::new_v4().to_string()
}

/// Relies on `chrono::Utc::now` and `DateTime::timestamp_millis` for the
/// current wall-clock time. Nothing is promised of the value.
#[verifier::external_body]
fn now_unix_millis() -> i64 {
    chrono::Utc::now().timestamp_millis()
}

impl User {
    /// Builds a record for a new user: a fresh identifier, the given
    /// profile fields, and both instants set to the same current time.
    pub fn new(name: String, email: String, role: UserRole) -> (r: Self)
        ensures
            r.name == name,
            r.email == email,
            r.role == role,
            r.created_at == r.updated_at,
            r.id@.len() == 36,
    {
        let now = now_unix_millis();
        let id = fresh_uuid();

        Self { id, name, email, role, created_at: now, updated_at: now }
    }
}

} // verus!
