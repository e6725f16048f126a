//! Browsers the avatars endpoint can render an icon for.

use vstd::prelude::*;

verus! {

/// Browsers the avatars endpoint can render an icon for.
#[derive(Clone, Copy, Debug, PartialEq, Eq, Hash, Structural)]
pub enum Browser {
    Aa,
    An,
    Ch,
    Cm,
    Cr,
    Ff,
    Sf,
    Ie,
}

impl Browser {
    /// The canonical wire string of each variant.
    pub open spec fn spec_str(&self) -> Seq<char> {
        match *self {
            Browser::Aa => "aa"@,
            Browser::An => "an"@,
            Browser::Ch => "ch"@,
            Browser::Cm => "cm"@,
            Browser::Cr => "cr"@,
            Browser::Ff => "ff"@,
            Browser::Sf => "sf"@,
            Browser::Ie => "ie"@,
        }
    }

    /// The canonical wire string sent to the server.
    pub fn as_ref(&self) -> (r: &'static str)
        ensures
            r@ == self.spec_str(),
    {
        match *self {
            Browser::Aa => "aa",
            Browser::An => "an",
            Browser::Ch => "ch",
            Browser::Cm => "cm",
            Browser::Cr => "cr",
            Browser::Ff => "ff",
            Browser::Sf => "sf",
            Browser::Ie => "ie",
        }
    }
}

} // verus!
