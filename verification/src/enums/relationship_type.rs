//! Shapes a relationship attribute can take.

use vstd::prelude::*;

verus! {

/// Shapes a relationship attribute can take.
#[derive(Clone, Copy, Debug, PartialEq, Eq, Hash, Structural)]
pub enum RelationshipType {
    OneToOne,
    OneToMany,
    ManyToOne,
    ManyToMany,
}

impl RelationshipType {
    /// The canonical wire string of each variant.
    pub open spec fn spec_str(&self) -> Seq<char> {
        match *self {
            RelationshipType::OneToOne => "oneToOne"@,
            RelationshipType::OneToMany => "oneToMany"@,
            RelationshipType::ManyToOne => "manyToOne"@,
            RelationshipType::ManyToMany => "manyToMany"@,
        }
    }

    /// The canonical wire string sent to the server.
    pub fn as_ref(&self) -> (r: &'static str)
        ensures
            r@ == self.spec_str(),
    {
        match *self {
            RelationshipType::OneToOne => "oneToOne",
            RelationshipType::OneToMany => "oneToMany",
            RelationshipType::ManyToOne => "manyToOne",
            RelationshipType::ManyToMany => "manyToMany",
        }
    }
}

} // verus!
