//! The visual elements of a frame.

use vstd::prelude::*;

verus! {

/// One of the four visual elements of a frame, in the order they are drawn.
#[derive(Clone, Copy, Debug, PartialEq, Eq, Structural)]
pub enum Element {
    /// The filled vector outline.
    Path,
    /// The bitmap image.
    Raster,
    /// The multi-coloured paragraph.
    Text,
    /// The vector document.
    Svg,
}

impl Element {
    /// The place of the element in the fixed drawing order, from zero.
    pub open spec fn order(self) -> int {
        match self {
            Element::Path => 0,
            Element::Raster => 1,
            Element::Text => 2,
            Element::Svg => 3,
        }
    }

    /// Whether the element is drawn even when its input cannot be read.
    /// Only text is: without its font it is set in a fallback font. Any
    /// other element is then left out.
    pub open spec fn has_fallback(self) -> bool {
        self == Element::Text
    }

    /// Decides whether the element is drawn, given whether its input could
    /// be read.
    pub fn is_drawn(self, input_read: bool) -> (drawn: bool)
        ensures
            drawn == (input_read || self.has_fallback()),
    {
        match self {
            Element::Text => true,
            _ => input_read,
        }
    }
}

} // verus!
