//! The identity record and its break-glass authority check.

use vstd::prelude::*;

verus! {

/// A principal of the system. It references exactly one role by identifier.
/// Timestamps count microseconds since the Unix epoch.
#[derive(Debug, PartialEq, Eq)]
pub struct User {
    pub id: u128,
    pub email: String,
    pub role: u128,
    pub active: bool,
    pub mfa_enabled: bool,
    pub mfa_verified: bool,
    pub mfa_secret: String,
    pub created_at: i64,
    pub updated_at: i64,
}

impl User {
    /// Whether this user is the system administrator: the one identity whose
    /// email equals the configured administrator email. Neither the user's
    /// role nor any permission row takes part in the answer.
    pub fn is_system_admin(&self, admin_email: &String) -> (admin: bool)
        ensures
            admin == (self.email@ == admin_email@),
    {
        self.email == *admin_email
    }
}

} // verus!
