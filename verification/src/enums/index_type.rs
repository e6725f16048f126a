//! Kinds of index a collection attribute can carry.

use vstd::prelude::*;

verus! {

/// Kinds of index a collection attribute can carry.
#[derive(Clone, Copy, Debug, PartialEq, Eq, Hash, Structural)]
pub enum IndexType {
    Key,
    Fulltext,
    Unique,
}

impl IndexType {
    /// The canonical wire string of each variant.
    pub open spec fn spec_str(&self) -> Seq<char> {
        match *self {
            IndexType::Key => "key"@,
            IndexType::Fulltext => "fulltext"@,
            IndexType::Unique => "unique"@,
        }
    }

    /// The canonical wire string sent to the server.
    pub fn as_ref(&self) -> (r: &'static str)
        ensures
            r@ == self.spec_str(),
    {
        match *self {
            IndexType::Key => "key",
            IndexType::Fulltext => "fulltext",
            IndexType::Unique => "unique",
        }
    }
}

} // verus!
