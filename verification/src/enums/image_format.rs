//! Output formats of the image preview endpoint.

use vstd::prelude::*;

verus! {

/// Output formats of the image preview endpoint.
#[derive(Clone, Copy, Debug, PartialEq, Eq, Hash, Structural)]
pub enum ImageFormat {
    Jpg,
    Jpeg,
    Gif,
    Png,
    Webp,
}

impl ImageFormat {
    /// The canonical wire string of each variant.
    pub open spec fn spec_str(&self) -> Seq<char> {
        match *self {
            ImageFormat::Jpg => "jpg"@,
            ImageFormat::Jpeg => "jpeg"@,
            ImageFormat::Gif => "gif"@,
            ImageFormat::Png => "png"@,
            ImageFormat::Webp => "webp"@,
        }
    }

    /// The canonical wire string sent to the server.
    pub fn as_ref(&self) -> (r: &'static str)
        ensures
            r@ == self.spec_str(),
    {
        match *self {
            ImageFormat::Jpg => "jpg",
            ImageFormat::Jpeg => "jpeg",
            ImageFormat::Gif => "gif",
            ImageFormat::Png => "png",
            ImageFormat::Webp => "webp",
        }
    }
}

} // verus!
