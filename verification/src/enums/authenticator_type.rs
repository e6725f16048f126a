//! Authenticator apps a user can enroll.

use vstd::prelude::*;

verus! {

/// Authenticator apps a user can enroll.
#[derive(Clone, Copy, Debug, PartialEq, Eq, Hash, Structural)]
pub enum AuthenticatorType {
    Totp,
}

impl AuthenticatorType {
    /// The canonical wire string of each variant.
    pub open spec fn spec_str(&self) -> Seq<char> {
        match *self {
            AuthenticatorType::Totp => "totp"@,
        }
    }

    /// The canonical wire string sent to the server.
    pub fn as_ref(&self) -> (r: &'static str)
        ensures
            r@ == self.spec_str(),
    {
        match *self {
            AuthenticatorType::Totp => "totp",
        }
    }
}

} // verus!
