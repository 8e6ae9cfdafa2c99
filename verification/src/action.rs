//! The vocabulary shared by the planner and the driver: the actions a
//! script is made of, how the driver reports on each, and what can go
//! wrong.

use crate::element::Element;
use vstd::prelude::*;

verus! {

/// An opaque colour by its red, green and blue parts.
#[derive(Clone, Copy, Debug, PartialEq, Eq, Structural)]
pub struct Color {
    pub red: u8,
    pub green: u8,
    pub blue: u8,
}

impl Color {
    /// The colour of the cleared background.
    pub open spec fn white() -> Color {
        Color { red: 255, green: 255, blue: 255 }
    }

    /// The colour of the filled outline and of the first text run.
    pub open spec fn black() -> Color {
        Color { red: 0, green: 0, blue: 0 }
    }

    /// Builds a colour from its three parts.
    pub fn rgb(red: u8, green: u8, blue: u8) -> (color: Color)
        ensures
            color == (Color { red, green, blue }),
    {
        Color { red, green, blue }
    }
}

/// One request to the driver.
#[derive(Clone, Copy, Debug, PartialEq, Eq, Structural)]
pub enum Action {
    /// Make sure the file that the element is read from is there.
    RequireAsset(Element),
    /// Allocate a premultiplied 32-bit raster surface of this size and bind
    /// a fresh drawing context to it.
    Allocate { width: i32, height: i32 },
    /// Fill the whole surface with one colour.
    Clear(Color),
    /// Push the current coordinate transform.
    Save,
    /// Pop the transform pushed by the matching `Save`.
    Restore,
    /// Shift the coordinate system.
    Translate { dx: i32, dy: i32 },
    /// Scale the coordinate system uniformly by `numer / denom`.
    Scale { numer: u32, denom: u32 },
    /// Load the element's input and, if it can be read, draw it under the
    /// current transform.
    Render(Element),
    /// Snapshot the surface and encode it as a lossless compressed image.
    Encode,
    /// Write the encoded image to the output file, replacing what is there.
    WriteOutput,
}

/// The driver's report on one action.
#[derive(Clone, Copy, Debug, PartialEq, Eq, Structural)]
pub enum Outcome {
    /// The action was carried out.
    Done,
    /// The action could not be carried out.
    Failed,
}

impl Outcome {
    /// The report on an action that went well exactly if `success` holds.
    pub fn from_success(success: bool) -> (outcome: Outcome)
        ensures
            success ==> outcome == Outcome::Done,
            !success ==> outcome == Outcome::Failed,
    {
        if success {
            Outcome::Done
        } else {
            Outcome::Failed
        }
    }
}

/// A failure that ends the run.
#[derive(Clone, Copy, Debug, PartialEq, Eq, Structural)]
pub enum RenderError {
    /// The file that an enabled element is read from does not exist.
    MissingAsset(Element),
    /// No surface of the requested size could be allocated.
    SurfaceUnavailable { width: i32, height: i32 },
    /// The surface could not be encoded.
    EncodeFailed,
    /// The encoded image could not be written.
    WriteFailed,
}

/// A failure that only costs the frame one element.
#[derive(Clone, Copy, Debug, PartialEq, Eq, Structural)]
pub enum RenderWarning {
    /// The path definition is not valid path syntax.
    PathSyntax,
    /// The image file could not be decoded.
    ImageDecode,
    /// The font file could not be decoded; the text falls back to a default
    /// font.
    FontDecode,
    /// The vector document could not be parsed.
    SvgSyntax,
}

/// What a failed action means for the run.
#[derive(Clone, Copy, Debug, PartialEq, Eq, Structural)]
pub enum Policy {
    /// The action has no way to fail; a report of failure is read as done.
    Infallible,
    /// The failure is absorbed: the frame goes on without the element.
    Degrades(RenderWarning),
    /// The failure ends the run.
    Fatal(RenderError),
}

impl Element {
    /// The warning that stands for a failure to read the element's input.
    pub open spec fn warning(self) -> RenderWarning {
        match self {
            Element::Path => RenderWarning::PathSyntax,
            Element::Raster => RenderWarning::ImageDecode,
            Element::Text => RenderWarning::FontDecode,
            Element::Svg => RenderWarning::SvgSyntax,
        }
    }

    /// Gives the warning that stands for a failure to read the element's
    /// input.
    pub fn degraded(self) -> (warning: RenderWarning)
        ensures
            warning == self.warning(),
    {
        match self {
            Element::Path => RenderWarning::PathSyntax,
            Element::Raster => RenderWarning::ImageDecode,
            Element::Text => RenderWarning::FontDecode,
            Element::Svg => RenderWarning::SvgSyntax,
        }
    }
}

impl Action {
    /// How a failure of this action is treated: a missing asset, a surface
    /// that cannot be had and a frame that cannot be encoded or written end
    /// the run; an element that cannot be read is left out; nothing else
    /// can fail.
    pub open spec fn policy(self) -> Policy {
        match self {
            Action::RequireAsset(element) => Policy::Fatal(RenderError::MissingAsset(element)),
            Action::Allocate { width, height } => Policy::Fatal(
                RenderError::SurfaceUnavailable { width, height },
            ),
            Action::Encode => Policy::Fatal(RenderError::EncodeFailed),
            Action::WriteOutput => Policy::Fatal(RenderError::WriteFailed),
            Action::Render(element) => Policy::Degrades(element.warning()),
            _ => Policy::Infallible,
        }
    }

    /// The error that a failure of this action ends the run with, if it
    /// ends the run.
    pub open spec fn error(self) -> Option<RenderError> {
        match self.policy() {
            Policy::Fatal(error) => Some(error),
            _ => None,
        }
    }

    /// Tells how a failure of this action is treated.
    pub fn failure_policy(&self) -> (policy: Policy)
        ensures
            policy == self.policy(),
    {
        match self {
            Action::RequireAsset(element) => Policy::Fatal(RenderError::MissingAsset(*element)),
            Action::Allocate { width, height } => Policy::Fatal(
                RenderError::SurfaceUnavailable { width: *width, height: *height },
            ),
            Action::Encode => Policy::Fatal(RenderError::EncodeFailed),
            Action::WriteOutput => Policy::Fatal(RenderError::WriteFailed),
            Action::Render(element) => Policy::Degrades(element.degraded()),
            _ => Policy::Infallible,
        }
    }
}

} // verus!
