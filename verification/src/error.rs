//! The one kind of failure of this library: an input that is not valid.

use vstd::prelude::*;

verus! {

/// An input was refused. The variant tells what was wrong with it.
#[derive(Clone, Copy, Debug, PartialEq, Eq, Structural)]
pub enum InvalidInput {
    /// The rows of a grid do not all have the same length.
    Image,
    /// A column index is not below the width of the image.
    XCoordinate,
    /// A row index is not below the height of the image.
    YCoordinate,
}

impl InvalidInput {
    /// The text that describes this failure.
    pub open spec fn spec_message(self) -> Seq<char> {
        match self {
            InvalidInput::Image => "Invalid image"@,
            InvalidInput::XCoordinate => "Invalid X coordinate"@,
            InvalidInput::YCoordinate => "Invalid Y coordinate"@,
        }
    }

    /// A short description of what was wrong with the input.
    pub fn message(&self) -> (text: &'static str)
        ensures
            text@ == self.spec_message(),
    {
        match self {
            InvalidInput::Image => "Invalid image",
            InvalidInput::XCoordinate => "Invalid X coordinate",
            InvalidInput::YCoordinate => "Invalid Y coordinate",
        }
    }
}

} // verus!
