//! The files of a run: the inputs that the elements are read from and the
//! output that the encoded frame is written to, all by their names inside
//! the working directory.

use crate::element::Element;
use vstd::prelude::*;

verus! {

/// The bitmap of the raster stage.
pub const IMAGE_FILE: &'static str = "mars.jpg";

/// The font of the text stage.
pub const FONT_FILE: &'static str = "Adigiana_Ultra.ttf";

/// The vector document of the svg stage.
pub const SVG_FILE: &'static str = "pinocchio.svg";

/// The encoded frame.
pub const OUTPUT_FILE: &'static str = "output-rust.png";

impl Element {
    /// The name of the file the element is read from; the path element has
    /// its geometry built in and reads none.
    pub open spec fn asset(self) -> Option<Seq<char>> {
        match self {
            Element::Path => None,
            Element::Raster => Some(IMAGE_FILE@),
            Element::Text => Some(FONT_FILE@),
            Element::Svg => Some(SVG_FILE@),
        }
    }

    /// Whether the element is read from a file.
    pub open spec fn needs_asset(self) -> bool {
        self != Element::Path
    }

    /// Gives the name of the file the element is read from, if any.
    pub fn asset_file(self) -> (name: Option<&'static str>)
        ensures
            name is Some == self.needs_asset(),
            match name {
                Some(file) => self.asset() == Some(file@),
                None => self.asset() is None,
            },
    {
        match self {
            Element::Path => None,
            Element::Raster => Some(IMAGE_FILE),
            Element::Text => Some(FONT_FILE),
            Element::Svg => Some(SVG_FILE),
        }
    }
}

/// Passes on the path of a file that was found. `exists` is what the file
/// system answered for `path`; a caller that was told the file is missing
/// has nothing to pass on and stops before it gets here.
pub fn check_file_exists<P>(path: P, exists: bool) -> (checked: P)
    requires
        exists,
    ensures
        checked == path,
{
    path
}

} // verus!
