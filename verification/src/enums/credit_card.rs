//! Credit card brands the avatars endpoint can render an icon for.

use vstd::prelude::*;

verus! {

/// Credit card brands the avatars endpoint can render an icon for.
#[derive(Clone, Copy, Debug, PartialEq, Eq, Hash, Structural)]
pub enum CreditCard {
    Amex,
    Argencard,
    Cabal,
    Censosud,
    Diners,
    Discover,
    Elo,
    Hipercard,
    Jcb,
    Mastercard,
    Naranja,
    TargetaShopping,
    UnionChinaPay,
    Visa,
    Mir,
    Maestro,
}

impl CreditCard {
    /// The canonical wire string of each variant.
    pub open spec fn spec_str(&self) -> Seq<char> {
        match *self {
            CreditCard::Amex => "amex"@,
            CreditCard::Argencard => "argencard"@,
            CreditCard::Cabal => "cabal"@,
            CreditCard::Censosud => "censosud"@,
            CreditCard::Diners => "diners"@,
            CreditCard::Discover => "discover"@,
            CreditCard::Elo => "elo"@,
            CreditCard::Hipercard => "hipercard"@,
            CreditCard::Jcb => "jcb"@,
            CreditCard::Mastercard => "mastercard"@,
            CreditCard::Naranja => "naranja"@,
            CreditCard::TargetaShopping => "targeta-shopping"@,
            CreditCard::UnionChinaPay => "union-china-pay"@,
            CreditCard::Visa => "visa"@,
            CreditCard::Mir => "mir"@,
            CreditCard::Maestro => "maestro"@,
        }
    }

    /// The canonical wire string sent to the server.
    pub fn as_ref(&self) -> (r: &'static str)
        ensures
            r@ == self.spec_str(),
    {
        match *self {
            CreditCard::Amex => "amex",
            CreditCard::Argencard => "argencard",
            CreditCard::Cabal => "cabal",
            CreditCard::Censosud => "censosud",
            CreditCard::Diners => "diners",
            CreditCard::Discover => "discover",
            CreditCard::Elo => "elo",
            CreditCard::Hipercard => "hipercard",
            CreditCard::Jcb => "jcb",
            CreditCard::Mastercard => "mastercard",
            CreditCard::Naranja => "naranja",
            CreditCard::TargetaShopping => "targeta-shopping",
            CreditCard::UnionChinaPay => "union-china-pay",
            CreditCard::Visa => "visa",
            CreditCard::Mir => "mir",
            CreditCard::Maestro => "maestro",
        }
    }
}

} // verus!
