//! Builders for access-control expression strings.
//!
//! A permission string pairs an action with a role: `action("role")`.
//! A role string is a colon-delimited tag naming a principal or principal
//! class. The wire format is the in-memory representation: both helpers
//! produce plain strings consumed verbatim by resource-creation calls.

use vstd::prelude::*;
use vstd::string::*;

verus! {

/// Builders for `action("role")` permission strings.
pub struct Permission;

impl Permission {
    /// Permission granting `role` read access.
    pub fn read(role: &str) -> (r: String)
        ensures
            r@ == "read(\""@ + role@ + "\")"@,
    {
        let mut s = String::from_str("read(\"");
        s.append(role);
        s.append("\")");
        s
    }

    /// Permission granting `role` write access.
    pub fn write(role: &str) -> (r: String)
        ensures
            r@ == "write(\""@ + role@ + "\")"@,
    {
        let mut s = String::from_str("write(\"");
        s.append(role);
        s.append("\")");
        s
    }

    /// Permission granting `role` create access.
    pub fn create(role: &str) -> (r: String)
        ensures
            r@ == "create(\""@ + role@ + "\")"@,
    {
        let mut s = String::from_str("create(\"");
        s.append(role);
        s.append("\")");
        s
    }

    /// Permission granting `role` update access.
    pub fn update(role: &str) -> (r: String)
        ensures
            r@ == "update(\""@ + role@ + "\")"@,
    {
        let mut s = String::from_str("update(\"");
        s.append(role);
        s.append("\")");
        s
    }

    /// Permission granting `role` delete access.
    pub fn delete(role: &str) -> (r: String)
        ensures
            r@ == "delete(\""@ + role@ + "\")"@,
    {
        let mut s = String::from_str("delete(\"");
        s.append(role);
        s.append("\")");
        s
    }
}

/// Builders for role tag strings.
pub struct Role;

impl Role {
    /// Any visitor, authenticated or not.
    pub fn any() -> (r: String)
        ensures
            r@ == "any"@,
    {
        String::from_str("any")
    }

    /// The single user with the given id.
    pub fn user(id: &str) -> (r: String)
        ensures
            r@ == "user:"@ + id@,
    {
        let mut s = String::from_str("user:");
        s.append(id);
        s
    }

    /// Any authenticated user.
    pub fn users() -> (r: String)
        ensures
            r@ == "users"@,
    {
        String::from_str("users")
    }

    /// Any unauthenticated visitor.
    pub fn guests() -> (r: String)
        ensures
            r@ == "guests"@,
    {
        String::from_str("guests")
    }

    /// Every member of the team with the given id.
    pub fn team(id: &str) -> (r: String)
        ensures
            r@ == "team:"@ + id@,
    {
        let mut s = String::from_str("team:");
        s.append(id);
        s
    }

    /// Members of the team with the given id that hold the given team role.
    pub fn team_with_role(id: &str, role: &str) -> (r: String)
        ensures
            r@ == "team:"@ + id@ + ":"@ + role@,
    {
        let mut s = String::from_str("team:");
        s.append(id);
        s.append(":");
        s.append(role);
        s
    }

    /// The team membership with the given membership id.
    pub fn member(id: &str) -> (r: String)
        ensures
            r@ == "member:"@ + id@,
    {
        let mut s = String::from_str("member:");
        s.append(id);
        s
    }

    /// Every user carrying the given label.
    pub fn label(name: &str) -> (r: String)
        ensures
            r@ == "label:"@ + name@,
    {
        let mut s = String::from_str("label:");
        s.append(name);
        s
    }
}

} // verus!
