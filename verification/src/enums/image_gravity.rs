//! Crop anchors of the image preview endpoint.

use vstd::prelude::*;

verus! {

/// Crop anchors of the image preview endpoint.
#[derive(Clone, Copy, Debug, PartialEq, Eq, Hash, Structural)]
pub enum ImageGravity {
    Center,
    TopLeft,
    Top,
    TopRight,
    Left,
    Right,
    BottomLeft,
    Bottom,
    BottomRight,
}

impl ImageGravity {
    /// The canonical wire string of each variant.
    pub open spec fn spec_str(&self) -> Seq<char> {
        match *self {
            ImageGravity::Center => "center"@,
            ImageGravity::TopLeft => "top-left"@,
            ImageGravity::Top => "top"@,
            ImageGravity::TopRight => "top-right"@,
            ImageGravity::Left => "left"@,
            ImageGravity::Right => "right"@,
            ImageGravity::BottomLeft => "bottom-left"@,
            ImageGravity::Bottom => "bottom"@,
            ImageGravity::BottomRight => "bottom-right"@,
        }
    }

    /// The canonical wire string sent to the server.
    pub fn as_ref(&self) -> (r: &'static str)
        ensures
            r@ == self.spec_str(),
    {
        match *self {
            ImageGravity::Center => "center",
            ImageGravity::TopLeft => "top-left",
            ImageGravity::Top => "top",
            ImageGravity::TopRight => "top-right",
            ImageGravity::Left => "left",
            ImageGravity::Right => "right",
            ImageGravity::BottomLeft => "bottom-left",
            ImageGravity::Bottom => "bottom",
            ImageGravity::BottomRight => "bottom-right",
        }
    }
}

} // verus!
