//! Compression algorithms a storage bucket can apply.

use vstd::prelude::*;

verus! {

/// Compression algorithms a storage bucket can apply.
#[derive(Clone, Copy, Debug, PartialEq, Eq, Hash, Structural)]
pub enum Compression {
    Uncompressed,
    Gzip,
    Zstd,
}

impl Compression {
    /// The canonical wire string of each variant.
    pub open spec fn spec_str(&self) -> Seq<char> {
        match *self {
            Compression::Uncompressed => "none"@,
            Compression::Gzip => "gzip"@,
            Compression::Zstd => "zstd"@,
        }
    }

    /// The canonical wire string sent to the server.
    pub fn as_ref(&self) -> (r: &'static str)
        ensures
            r@ == self.spec_str(),
    {
        match *self {
            Compression::Uncompressed => "none",
            Compression::Gzip => "gzip",
            Compression::Zstd => "zstd",
        }
    }
}

} // verus!
