//! The user value type and its role classification.

use vstd::prelude::*;
use vstd::string::StringExecFns;

verus! {

/// A user's permission level: a closed classification with three variants.
#[derive(Debug, Clone, Copy, PartialEq, Eq, Structural)]
pub enum Role {
    Admin,
    Editor,
    Viewer,
}

/// A user record: identity, contact information, a role, and an active flag.
///
/// A freshly constructed user is active; `deactivate` clears the flag and is
/// idempotent. No other field is ever mutated.
#[derive(Debug)]
pub struct User {
    pub id: u64,
    pub name: String,
    pub email: String,
    pub role: Role,
    pub active: bool,
}

/// The value `u` turns into when it is deactivated: the same record with the
/// active flag cleared.
pub open spec fn deactivated(u: User) -> User {
    User { active: false, ..u }
}

impl User {
    /// Constructs an active user from its identity, contact data and role.
    pub fn new(id: u64, name: String, email: String, role: Role) -> (r: Self)
        ensures
            r.id == id,
            r.name == name,
            r.email == email,
            r.role == role,
            r.active,
    {
        User { id, name, email, role, active: true }
    }

    /// Clears the active flag; every other field is unchanged.
    pub fn deactivate(&mut self)
        ensures
            *final(self) == deactivated(*old(self)),
    {
        self.active = false;
    }

    /// True exactly when the user's role is `Admin`.
    pub fn is_admin(&self) -> (r: bool)
        ensures
            r == (self.role == Role::Admin),
    {
        self.role == Role::Admin
    }
}

impl Clone for User {
    /// A clone is equal to the original, field for field.
    fn clone(&self) -> (r: Self)
        ensures
            r == *self,
    {
        User {
            id: self.id,
            name: self.name.clone(),
            email: self.email.clone(),
            role: self.role,
            active: self.active,
        }
    }
}

/// The descriptive text for each role.
pub open spec fn spec_describe_role(role: Role) -> Seq<char> {
    match role {
        Role::Admin => "Administrator with full access"@,
        Role::Editor => "Editor with content management access"@,
        Role::Viewer => "Viewer with read-only access"@,
    }
}

/// Renders the descriptive text of a role.
pub fn describe_role(role: &Role) -> (r: String)
    ensures
        r@ == spec_describe_role(*role),
{
    match role {
        Role::Admin => String::from_str("Administrator with full access"),
        Role::Editor => String::from_str("Editor with content management access"),
        Role::Viewer => String::from_str("Viewer with read-only access"),
    }
}

/// Deactivating a user is idempotent: deactivating an already deactivated
/// user changes nothing, so the active flag stays false however often
/// `deactivate` is called after the first time.
pub proof fn lemma_deactivate_idempotent(u: User)
    ensures
        deactivated(deactivated(u)) == deactivated(u),
        !deactivated(u).active,
{
}

} // verus!
