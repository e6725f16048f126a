//! Second factors a user can complete a challenge with.

use vstd::prelude::*;

verus! {

/// Second factors a user can complete a challenge with.
#[derive(Clone, Copy, Debug, PartialEq, Eq, Hash, Structural)]
pub enum AuthenticationFactor {
    Email,
    Phone,
    Totp,
    RecoveryCode,
}

impl AuthenticationFactor {
    /// The canonical wire string of each variant.
    pub open spec fn spec_str(&self) -> Seq<char> {
        match *self {
            AuthenticationFactor::Email => "email"@,
            AuthenticationFactor::Phone => "phone"@,
            AuthenticationFactor::Totp => "totp"@,
            AuthenticationFactor::RecoveryCode => "recoverycode"@,
        }
    }

    /// The canonical wire string sent to the server.
    pub fn as_ref(&self) -> (r: &'static str)
        ensures
            r@ == self.spec_str(),
    {
        match *self {
            AuthenticationFactor::Email => "email",
            AuthenticationFactor::Phone => "phone",
            AuthenticationFactor::Totp => "totp",
            AuthenticationFactor::RecoveryCode => "recoverycode",
        }
    }
}

} // verus!
