//! The frame composer: the script of one frame, and of a whole run.
//!
//! A frame first makes sure that the files of its enabled elements are
//! there, then allocates and clears the surface, then draws the enabled
//! elements in their fixed order, each in a scope of its own, and last
//! encodes and writes the result if that is asked for. A run is the same
//! frame as many times as the configuration says.

use crate::action::{Action, Color};
use crate::config::{RenderConfig, StageSet};
use crate::element::Element;
use crate::renderers::draw_element;
use vstd::prelude::*;

verus! {

/// The check that an element's file is there, if the element is enabled and
/// reads one.
pub open spec fn check(stages: StageSet, element: Element) -> Seq<Action> {
    if stages.draws(element) && element.needs_asset() {
        seq![Action::RequireAsset(element)]
    } else {
        Seq::empty()
    }
}

/// The checks of a frame, in the order of the elements.
pub open spec fn checks(stages: StageSet) -> Seq<Action> {
    check(stages, Element::Path) + check(stages, Element::Raster) + check(stages, Element::Text)
        + check(stages, Element::Svg)
}

/// The start of every frame: a square surface of the scaled size, cleared
/// to white, and the scale applied to all that follows.
pub open spec fn head(config: RenderConfig) -> Seq<Action> {
    seq![
        Action::Allocate { width: config.extent() as i32, height: config.extent() as i32 },
        Action::Clear(Color::white()),
        Action::Scale { numer: config.scale as u32, denom: 1 },
    ]
}

/// What an element contributes to a frame: its block if it is enabled.
pub open spec fn stage(stages: StageSet, element: Element) -> Seq<Action> {
    if stages.draws(element) {
        element.block()
    } else {
        Seq::empty()
    }
}

/// The drawing of a frame: the enabled elements in their fixed order.
pub open spec fn stages_of(stages: StageSet) -> Seq<Action> {
    stage(stages, Element::Path) + stage(stages, Element::Raster) + stage(stages, Element::Text)
        + stage(stages, Element::Svg)
}

/// The encoder's part: a snapshot encoded, then written out.
pub open spec fn encoding() -> Seq<Action> {
    seq![Action::Encode, Action::WriteOutput]
}

/// The end of a frame: the encoder's part if saving is enabled.
pub open spec fn tail(stages: StageSet) -> Seq<Action> {
    if stages.save {
        encoding()
    } else {
        Seq::empty()
    }
}

/// The script of one frame.
pub open spec fn frame(config: RenderConfig) -> Seq<Action> {
    checks(config.stages) + head(config) + stages_of(config.stages) + tail(config.stages)
}

/// `actions`, `count` times in a row.
pub open spec fn repeated(actions: Seq<Action>, count: nat) -> Seq<Action>
    decreases count,
{
    if count == 0 {
        Seq::empty()
    } else {
        actions + repeated(actions, (count - 1) as nat)
    }
}

/// The script of a whole run: the frame, once for each repetition.
pub open spec fn script(config: RenderConfig) -> Seq<Action> {
    repeated(frame(config), config.loop_count as nat)
}

/// Records the checks of a frame.
pub fn require_assets(script: &mut Vec<Action>, stages: &StageSet)
    ensures
        final(script)@ == old(script)@ + checks(*stages),
{
    if stages.raster {
        script.push(Action::RequireAsset(Element::Raster));
    }
    if stages.text {
        script.push(Action::RequireAsset(Element::Text));
    }
    if stages.svg {
        script.push(Action::RequireAsset(Element::Svg));
    }
    assert(script@ =~= old(script)@ + checks(*stages));
}

/// Records the start of a frame.
pub fn begin_frame(script: &mut Vec<Action>, config: &RenderConfig)
    ensures
        final(script)@ == old(script)@ + head(*config),
{
    let extent = config.surface_extent();
    script.push(Action::Allocate { width: extent, height: extent });
    script.push(Action::Clear(Color::rgb(255, 255, 255)));
    script.push(Action::Scale { numer: config.scale as u32, denom: 1 });
    assert(script@ =~= old(script)@ + head(*config));
}

/// Records the enabled elements in their fixed order.
pub fn draw_stages(script: &mut Vec<Action>, config: &RenderConfig)
    ensures
        final(script)@ == old(script)@ + stages_of(config.stages),
{
    if config.stages.path {
        let _ = draw_element(script, Element::Path, &config.path);
    }
    if config.stages.raster {
        let _ = draw_element(script, Element::Raster, &config.path);
    }
    if config.stages.text {
        let _ = draw_element(script, Element::Text, &config.path);
    }
    if config.stages.svg {
        let _ = draw_element(script, Element::Svg, &config.path);
    }
    assert(script@ =~= old(script)@ + stages_of(config.stages));
}

/// Records the encoder's part: the surface is encoded and written out.
pub fn save_to_png(script: &mut Vec<Action>)
    ensures
        final(script)@ == old(script)@ + encoding(),
{
    script.push(Action::Encode);
    script.push(Action::WriteOutput);
    assert(script@ =~= old(script)@ + encoding());
}

/// Records one frame.
pub fn compose_frame(script: &mut Vec<Action>, config: &RenderConfig)
    ensures
        final(script)@ == old(script)@ + frame(*config),
{
    require_assets(script, &config.stages);
    begin_frame(script, config);
    draw_stages(script, config);
    if config.stages.save {
        save_to_png(script);
    }
    assert(script@ =~= old(script)@ + frame(*config));
}

/// Repeating once more is appending once more.
pub proof fn lemma_repeated_append(actions: Seq<Action>, count: nat)
    ensures
        repeated(actions, count + 1) == repeated(actions, count) + actions,
    decreases count,
{
    if count == 0 {
        assert(repeated(actions, 1) =~= actions + repeated(actions, 0));
        assert(actions + Seq::<Action>::empty() =~= Seq::<Action>::empty() + actions);
    } else {
        lemma_repeated_append(actions, (count - 1) as nat);
        assert(actions + (repeated(actions, (count - 1) as nat) + actions) =~= (actions + repeated(
            actions,
            (count - 1) as nat,
        )) + actions);
    }
}

/// Builds the script of a whole run.
pub fn run_script(config: &RenderConfig) -> (actions: Vec<Action>)
    ensures
        actions@ == script(*config),
{
    let mut actions: Vec<Action> = Vec::new();
    let mut round: u8 = 0;
    assert(actions@ =~= repeated(frame(*config), 0));
    while round < config.loop_count
        invariant
            round <= config.loop_count,
            actions@ == repeated(frame(*config), round as nat),
        decreases config.loop_count - round,
    {
        compose_frame(&mut actions, config);
        proof {
            lemma_repeated_append(frame(*config), round as nat);
        }
        round = round + 1;
    }
    actions
}

} // verus!
