//! The four element renderers. Each records, inside a transform scope of
//! its own, where its element goes and the request to draw it, and hands
//! back the plan that the request stands for: what is read, and how it is
//! drawn.

use crate::action::{Action, Color, Outcome};
use crate::assets::{FONT_FILE, IMAGE_FILE, SVG_FILE};
use crate::element::Element;
use crate::path::PathSource;
use crate::text::{paragraph, Paragraph};
use crate::model::{lemma_replay_one, lemma_replay_push, Conditions, World};
use crate::scope::{enter, exit, lemma_flat_is_well_nested, scoped, well_nested};
use vstd::prelude::*;

verus! {

/// How a shape is filled.
#[derive(Clone, Copy, Debug, PartialEq, Eq, Structural)]
pub struct Paint {
    pub color: Color,
    pub anti_alias: bool,
}

/// How pixels are picked when an image is resized.
#[derive(Clone, Copy, Debug, PartialEq, Eq, Structural)]
pub enum FilterMode {
    Nearest,
    Linear,
}

/// How the levels of a mipmap are picked when an image is shrunk.
#[derive(Clone, Copy, Debug, PartialEq, Eq, Structural)]
pub enum MipmapMode {
    /// The mipmap is not used.
    Off,
    Nearest,
    Linear,
}

/// Whether sampling may read outside the source rectangle.
#[derive(Clone, Copy, Debug, PartialEq, Eq, Structural)]
pub enum SourceConstraint {
    Strict,
    Fast,
}

/// An axis-aligned rectangle in whole pixels.
#[derive(Clone, Copy, Debug, PartialEq, Eq, Structural)]
pub struct Rect {
    pub left: i32,
    pub top: i32,
    pub right: i32,
    pub bottom: i32,
}

/// How a bitmap is sampled and painted, whatever its size.
#[derive(Clone, Copy, Debug, PartialEq, Eq, Structural)]
pub struct BitmapStyle {
    pub constraint: SourceConstraint,
    pub filter: FilterMode,
    pub mipmap: MipmapMode,
    pub paint: Paint,
}

/// Everything that says how a decoded bitmap is drawn.
#[derive(Clone, Copy, Debug, PartialEq, Eq, Structural)]
pub struct ImageDraw {
    /// The part of the bitmap that is drawn.
    pub source: Rect,
    /// Where it goes, before the transform in effect is applied.
    pub destination: Rect,
    pub style: BitmapStyle,
}

/// What a request to render an element stands for: the input that is read
/// and the way it is drawn once it is read.
#[derive(Clone, Debug)]
pub enum RenderPlan<'a> {
    /// Parse the definition as a path and fill it.
    Outline { definition: &'a str, paint: Paint },
    /// Decode the file as a bitmap and draw all of it, as `image_draw` says
    /// for its size.
    Bitmap { file: &'static str, style: BitmapStyle },
    /// Decode the file as a font, register it under the paragraph's family
    /// if it decodes, then shape, lay out and paint the paragraph.
    Text { font_file: &'static str, paragraph: Paragraph },
    /// Parse the file as a vector document and render it.
    Document { file: &'static str },
}

impl Paint {
    /// The paint of the outline: solid black, anti-aliased.
    pub open spec fn outline() -> Paint {
        Paint { color: Color::black(), anti_alias: true }
    }
}

impl BitmapStyle {
    /// The style of the raster stage: linear filtering over a linear
    /// mipmap, so that shrinking is smooth, anti-aliased.
    pub open spec fn smooth() -> BitmapStyle {
        BitmapStyle {
            constraint: SourceConstraint::Fast,
            filter: FilterMode::Linear,
            mipmap: MipmapMode::Linear,
            paint: Paint::outline(),
        }
    }
}

impl<'a> RenderPlan<'a> {
    /// The plan is the one that the request to render `element` stands
    /// for, the outline coming from `source`.
    pub open spec fn stands_for(&self, element: Element, source: PathSource) -> bool {
        match self {
            RenderPlan::Outline { definition, paint } => {
                &&& element == Element::Path
                &&& definition@ == source.definition()
                &&& *paint == Paint::outline()
            },
            RenderPlan::Bitmap { file, style } => {
                &&& element == Element::Raster
                &&& file@ == IMAGE_FILE@
                &&& *style == BitmapStyle::smooth()
            },
            RenderPlan::Text { font_file, paragraph } => {
                &&& element == Element::Text
                &&& font_file@ == FONT_FILE@
                &&& paragraph.is_fixed()
            },
            RenderPlan::Document { file } => element == Element::Svg && file@ == SVG_FILE@,
        }
    }
}

impl Rect {
    /// The rectangle of the given size with its corner at the origin.
    pub open spec fn of_size(width: i32, height: i32) -> Rect {
        Rect { left: 0, top: 0, right: width, bottom: height }
    }
}

impl ImageDraw {
    /// The way the raster stage draws a bitmap of the given size: all of
    /// it, into a rectangle of its own size, so that only the transform in
    /// effect resizes it, smoothly.
    pub open spec fn of_bitmap(width: i32, height: i32) -> ImageDraw {
        ImageDraw {
            source: Rect::of_size(width, height),
            destination: Rect::of_size(width, height),
            style: BitmapStyle::smooth(),
        }
    }
}

/// Gives the paint of the outline: solid black, anti-aliased.
pub fn path_paint() -> (paint: Paint)
    ensures
        paint == Paint::outline(),
{
    Paint { color: Color::rgb(0, 0, 0), anti_alias: true }
}

/// Gives the style that the bitmap is drawn in.
pub fn bitmap_style() -> (style: BitmapStyle)
    ensures
        style == BitmapStyle::smooth(),
{
    BitmapStyle {
        constraint: SourceConstraint::Fast,
        filter: FilterMode::Linear,
        mipmap: MipmapMode::Linear,
        paint: path_paint(),
    }
}

/// Says how a decoded bitmap of the given size is drawn.
pub fn image_draw(width: i32, height: i32) -> (draw: ImageDraw)
    ensures
        draw == ImageDraw::of_bitmap(width, height),
        draw.source == draw.destination,
{
    let extent = Rect { left: 0, top: 0, right: width, bottom: height };
    ImageDraw { source: extent, destination: extent, style: bitmap_style() }
}

impl Element {
    /// The local transform of the element: a shift and a uniform scale. The
    /// paragraph has none; it is painted at an offset of its own.
    pub open spec fn placement(self) -> Seq<Action> {
        match self {
            Element::Path => seq![
                Action::Translate { dx: 12, dy: 12 },
                Action::Scale { numer: 45, denom: 100 },
            ],
            Element::Raster => seq![
                Action::Translate { dx: 250, dy: 0 },
                Action::Scale { numer: 5, denom: 100 },
            ],
            Element::Text => Seq::empty(),
            Element::Svg => seq![
                Action::Translate { dx: 350, dy: 275 },
                Action::Scale { numer: 22, denom: 100 },
            ],
        }
    }

    /// What stands inside the element's scope: its placement, then the
    /// request to draw it.
    pub open spec fn body(self) -> Seq<Action> {
        self.placement().push(Action::Render(self))
    }

    /// All that the element's renderer records.
    pub open spec fn block(self) -> Seq<Action> {
        scoped(self.body())
    }
}

/// Says what the request to render `element` stands for, the outline
/// coming from `source`.
pub fn render_plan<'a>(element: Element, source: &'a PathSource) -> (plan: RenderPlan<'a>)
    ensures
        plan.stands_for(element, *source),
{
    match element {
        Element::Path => RenderPlan::Outline { definition: source.text(), paint: path_paint() },
        Element::Raster => RenderPlan::Bitmap { file: IMAGE_FILE, style: bitmap_style() },
        Element::Text => RenderPlan::Text { font_file: FONT_FILE, paragraph: paragraph() },
        Element::Svg => RenderPlan::Document { file: SVG_FILE },
    }
}

/// Records the path stage, and hands back its plan: the definition of
/// `source`, filled in anti-aliased black.
pub fn draw_path<'a>(script: &mut Vec<Action>, source: &'a PathSource) -> (plan: RenderPlan<'a>)
    ensures
        final(script)@ == old(script)@ + Element::Path.block(),
        plan.stands_for(Element::Path, *source),
        plan matches RenderPlan::Outline { definition, paint } && definition@
            == source.definition() && paint == Paint::outline(),
{
    enter(script);
    script.push(Action::Translate { dx: 12, dy: 12 });
    script.push(Action::Scale { numer: 45, denom: 100 });
    script.push(Action::Render(Element::Path));
    exit(script);
    assert(script@ =~= old(script)@ + Element::Path.block());
    render_plan(Element::Path, source)
}

/// Records the raster stage, and hands back its plan: the image file,
/// drawn smoothly.
pub fn draw_raster(script: &mut Vec<Action>) -> (plan: RenderPlan<'static>)
    ensures
        final(script)@ == old(script)@ + Element::Raster.block(),
        plan matches RenderPlan::Bitmap { file, style } && file@ == IMAGE_FILE@ && style
            == BitmapStyle::smooth(),
{
    enter(script);
    script.push(Action::Translate { dx: 250, dy: 0 });
    script.push(Action::Scale { numer: 5, denom: 100 });
    script.push(Action::Render(Element::Raster));
    exit(script);
    assert(script@ =~= old(script)@ + Element::Raster.block());
    RenderPlan::Bitmap { file: IMAGE_FILE, style: bitmap_style() }
}

/// Records the text stage, and hands back its plan: the font file and the
/// paragraph.
pub fn draw_text(script: &mut Vec<Action>) -> (plan: RenderPlan<'static>)
    ensures
        final(script)@ == old(script)@ + Element::Text.block(),
        plan matches RenderPlan::Text { font_file, paragraph } && font_file@ == FONT_FILE@
            && paragraph.is_fixed(),
{
    enter(script);
    script.push(Action::Render(Element::Text));
    exit(script);
    assert(script@ =~= old(script)@ + Element::Text.block());
    RenderPlan::Text { font_file: FONT_FILE, paragraph: paragraph() }
}

/// Records the svg stage, and hands back its plan: the vector document.
pub fn draw_svg(script: &mut Vec<Action>) -> (plan: RenderPlan<'static>)
    ensures
        final(script)@ == old(script)@ + Element::Svg.block(),
        plan matches RenderPlan::Document { file } && file@ == SVG_FILE@,
{
    enter(script);
    script.push(Action::Translate { dx: 350, dy: 275 });
    script.push(Action::Scale { numer: 22, denom: 100 });
    script.push(Action::Render(Element::Svg));
    exit(script);
    assert(script@ =~= old(script)@ + Element::Svg.block());
    RenderPlan::Document { file: SVG_FILE }
}

/// Records the stage of any one element, and hands back its plan.
pub fn draw_element<'a>(
    script: &mut Vec<Action>,
    element: Element,
    source: &'a PathSource,
) -> (plan: RenderPlan<'a>)
    ensures
        final(script)@ == old(script)@ + element.block(),
        plan.stands_for(element, *source),
{
    match element {
        Element::Path => draw_path(script, source),
        Element::Raster => draw_raster(script),
        Element::Text => draw_text(script),
        Element::Svg => draw_svg(script),
    }
}

/// What stands inside an element's scope is well nested, so the scope
/// brings the transform back.
pub proof fn lemma_body_is_well_nested(element: Element)
    ensures
        well_nested(element.body()),
{
    lemma_flat_is_well_nested(element.body());
}

/// The whole effect of an element's renderer: the element drawn under its
/// placement if its input could be read or it has a fallback, and nothing
/// else changed. In particular the transform and the saved transforms are
/// afterwards what they were, whether the element could be drawn or not.
pub proof fn lemma_block_effect(world: World, element: Element, conditions: Conditions)
    ensures
        world.replay(element.block(), conditions) == world.drawn(
            element,
            element.placement(),
            conditions(Action::Render(element)),
        ),
        world.replay(element.block(), conditions).transform == world.transform,
        world.replay(element.block(), conditions).saved == world.saved,
        world.replay(element.block(), conditions).encoded == world.encoded,
        world.replay(element.block(), conditions).output == world.output,
{
    let render = Action::Render(element);
    let outcome = conditions(render);
    let placement = element.placement();
    let opened = world.after(Action::Save, conditions(Action::Save));
    lemma_replay_one(world, Action::Save, conditions);
    let placed = if element == Element::Text {
        opened
    } else {
        opened.after(placement[0], conditions(placement[0])).after(
            placement[1],
            conditions(placement[1]),
        )
    };
    let start = seq![Action::Save];
    if element == Element::Text {
        assert(start + placement =~= start);
    } else {
        lemma_replay_push(world, start, placement[0], conditions);
        lemma_replay_push(world, start.push(placement[0]), placement[1], conditions);
        assert(start + placement =~= start.push(placement[0]).push(placement[1]));
    }
    assert(world.replay(start + placement, conditions) == placed);
    assert(placed.transform =~= world.transform + placement);
    assert(placed.saved == world.saved.push(world.transform));
    lemma_replay_push(world, start + placement, render, conditions);
    let rendered = placed.after(render, outcome);
    lemma_replay_push(world, (start + placement).push(render), Action::Restore, conditions);
    assert(element.block() =~= (start + placement).push(render).push(Action::Restore));
    let closed = rendered.after(Action::Restore, conditions(Action::Restore));
    assert(world.replay(element.block(), conditions) == closed);
    assert(closed.saved =~= world.saved);
    assert(closed.transform == world.transform);
    let expected = world.drawn(element, placement, outcome);
    assert(closed.surface == expected.surface);
}

/// An element whose input cannot be read is skipped without a trace: after
/// its renderer the world is exactly what it was before. An element with a
/// fallback is the exception.
pub proof fn lemma_unreadable_element_leaves_no_trace(
    world: World,
    element: Element,
    conditions: Conditions,
)
    requires
        !element.has_fallback(),
        conditions(Action::Render(element)) == Outcome::Failed,
    ensures
        world.replay(element.block(), conditions) == world,
{
    lemma_block_effect(world, element, conditions);
}

} // verus!
