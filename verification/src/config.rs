//! The configuration of a run: which stages are enabled, the scale of the
//! output surface and the number of repetitions.

use crate::element::Element;
use crate::path::PathSource;
use vstd::prelude::*;

verus! {

/// Side length, in pixels, of the square canvas at scale one.
pub const CANVAS_SIZE: i32 = 512;

/// The stages of the pipeline that a run may enable: the four elements and
/// the final save of the encoded frame.
#[derive(Clone, Copy, Debug, PartialEq, Eq, Structural)]
pub struct StageSet {
    pub path: bool,
    pub raster: bool,
    pub text: bool,
    pub svg: bool,
    pub save: bool,
}

impl StageSet {
    /// No stage at all is selected.
    pub open spec fn is_empty(self) -> bool {
        !self.path && !self.raster && !self.text && !self.svg && !self.save
    }

    /// The set with all five stages.
    pub open spec fn full() -> StageSet {
        StageSet { path: true, raster: true, text: true, svg: true, save: true }
    }

    /// The set that only saves the cleared frame.
    pub open spec fn save_only() -> StageSet {
        StageSet { path: false, raster: false, text: false, svg: false, save: true }
    }

    /// The selection after the default rule: an empty selection stands for
    /// every stage, any other selection stands for itself.
    pub open spec fn resolved(self) -> StageSet {
        if self.is_empty() {
            StageSet::full()
        } else {
            self
        }
    }

    /// Whether the element's stage is enabled.
    pub open spec fn draws(self, element: Element) -> bool {
        match element {
            Element::Path => self.path,
            Element::Raster => self.raster,
            Element::Text => self.text,
            Element::Svg => self.svg,
        }
    }

    /// The same set with the element's stage switched off.
    pub open spec fn without(self, element: Element) -> StageSet {
        match element {
            Element::Path => StageSet { path: false, ..self },
            Element::Raster => StageSet { raster: false, ..self },
            Element::Text => StageSet { text: false, ..self },
            Element::Svg => StageSet { svg: false, ..self },
        }
    }

    /// Builds the set with all five stages.
    pub fn all() -> (stages: StageSet)
        ensures
            stages == StageSet::full(),
    {
        StageSet { path: true, raster: true, text: true, svg: true, save: true }
    }

    /// Tells whether no stage is selected.
    pub fn none_selected(&self) -> (empty: bool)
        ensures
            empty == self.is_empty(),
    {
        !(self.path || self.raster || self.text || self.svg || self.save)
    }

    /// Applies the default rule: with nothing selected, everything runs.
    pub fn resolve(self) -> (stages: StageSet)
        ensures
            stages == self.resolved(),
            !stages.is_empty(),
            !self.is_empty() ==> stages == self,
    {
        if self.none_selected() {
            StageSet::all()
        } else {
            self
        }
    }

    /// Tells whether the element's stage is enabled.
    pub fn includes(&self, element: Element) -> (enabled: bool)
        ensures
            enabled == self.draws(element),
    {
        match element {
            Element::Path => self.path,
            Element::Raster => self.raster,
            Element::Text => self.text,
            Element::Svg => self.svg,
        }
    }

    /// Switches the element's stage off and leaves the others as they are.
    pub fn disable(self, element: Element) -> (stages: StageSet)
        ensures
            stages == self.without(element),
            !stages.draws(element),
            stages.save == self.save,
            forall|other: Element| other != element ==> stages.draws(other) == self.draws(other),
    {
        match element {
            Element::Path => StageSet { path: false, ..self },
            Element::Raster => StageSet { raster: false, ..self },
            Element::Text => StageSet { text: false, ..self },
            Element::Svg => StageSet { svg: false, ..self },
        }
    }
}

/// Everything a run is parameterised by, fixed once before the first frame.
#[derive(Clone, Debug, PartialEq, Eq)]
pub struct RenderConfig {
    /// The stages to run, after the default rule.
    pub stages: StageSet,
    /// Uniform multiplier of the surface size and of all drawing.
    pub scale: u8,
    /// How many times the frame is composed.
    pub loop_count: u8,
    /// Where the outline of the path stage comes from.
    pub path: PathSource,
}

impl RenderConfig {
    /// The configuration that the given flags stand for.
    pub open spec fn of_flags(
        selection: StageSet,
        scale: u8,
        loop_count: u8,
        path: PathSource,
    ) -> RenderConfig {
        RenderConfig { stages: selection.resolved(), scale, loop_count, path }
    }

    /// Side length of the surface, in pixels.
    pub open spec fn extent(self) -> int {
        CANVAS_SIZE as int * self.scale as int
    }

    /// Builds the configuration from the stage flags as they were given:
    /// when none of them is set, all five stages are enabled.
    pub fn from_flags(
        selection: StageSet,
        scale: u8,
        loop_count: u8,
        path: PathSource,
    ) -> (config: RenderConfig)
        ensures
            config == RenderConfig::of_flags(selection, scale, loop_count, path),
            !config.stages.is_empty(),
    {
        RenderConfig { stages: selection.resolve(), scale, loop_count, path }
    }

    /// Computes the side length of the surface: the base size times the scale.
    pub fn surface_extent(&self) -> (extent: i32)
        ensures
            extent as int == self.extent(),
            0 <= extent <= 512 * 255,
    {
        let factor: i32 = self.scale as i32;
        CANVAS_SIZE * factor
    }
}

} // verus!
