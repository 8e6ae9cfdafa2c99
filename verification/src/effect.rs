//! The effect of a frame in closed form: what the surface, the transform
//! and the output file are after a frame that nothing ended early.

use crate::action::{Action, Color, Outcome};
use crate::composer::{check, checks, encoding, frame, head, stage, stages_of, tail};
use crate::config::{RenderConfig, StageSet};
use crate::element::Element;
use crate::model::{
    lemma_replay_concat, lemma_replay_one, lemma_replay_push, Conditions, Mark, Picture, World,
};
use crate::renderers::lemma_block_effect;
use crate::run::aborts;
use vstd::prelude::*;

verus! {

/// The transform that every element of a frame is placed under: the scale
/// of the run.
pub open spec fn frame_transform(config: RenderConfig) -> Seq<Action> {
    seq![Action::Scale { numer: config.scale as u32, denom: 1 }]
}

/// The world once a frame is set up: a cleared surface of the scaled size,
/// the scale in effect, nothing saved.
pub open spec fn prepared(world: World, config: RenderConfig) -> World {
    World {
        surface: Some(Picture::blank(config.extent(), config.extent()).cleared(Color::white())),
        transform: frame_transform(config),
        saved: Seq::empty(),
        ..world
    }
}

/// The world after an element's stage: the element drawn if it is enabled.
pub open spec fn staged(
    world: World,
    stages: StageSet,
    element: Element,
    conditions: Conditions,
) -> World {
    if stages.draws(element) {
        world.drawn(element, element.placement(), conditions(Action::Render(element)))
    } else {
        world
    }
}

/// The world after the four stages, in their order.
pub open spec fn painted(world: World, stages: StageSet, conditions: Conditions) -> World {
    let path = staged(world, stages, Element::Path, conditions);
    let raster = staged(path, stages, Element::Raster, conditions);
    let text = staged(raster, stages, Element::Text, conditions);
    staged(text, stages, Element::Svg, conditions)
}

/// The world after the encoder's part, if saving is enabled: the output
/// file holds what is on the surface.
pub open spec fn kept(world: World, stages: StageSet) -> World {
    if stages.save {
        World { encoded: world.surface, output: world.surface, ..world }
    } else {
        world
    }
}

/// The world after a whole frame that nothing ended early.
pub open spec fn composed(world: World, config: RenderConfig, conditions: Conditions) -> World {
    kept(painted(prepared(world, config), config.stages, conditions), config.stages)
}

/// Checking for one file changes nothing.
pub proof fn lemma_check_effect(
    world: World,
    stages: StageSet,
    element: Element,
    conditions: Conditions,
)
    ensures
        world.replay(check(stages, element), conditions) == world,
{
    if stages.draws(element) && element.needs_asset() {
        lemma_replay_one(world, Action::RequireAsset(element), conditions);
    }
}

/// Checking for a file changes nothing.
pub proof fn lemma_checks_effect(world: World, stages: StageSet, conditions: Conditions)
    ensures
        world.replay(checks(stages), conditions) == world,
{
    let path = check(stages, Element::Path);
    let raster = check(stages, Element::Raster);
    let text = check(stages, Element::Text);
    let svg = check(stages, Element::Svg);
    assert(path =~= Seq::<Action>::empty());
    lemma_check_effect(world, stages, Element::Raster, conditions);
    lemma_check_effect(world, stages, Element::Text, conditions);
    lemma_check_effect(world, stages, Element::Svg, conditions);
    lemma_replay_concat(world, path, raster, conditions);
    lemma_replay_concat(world, path + raster, text, conditions);
    lemma_replay_concat(world, path + raster + text, svg, conditions);
}

/// The start of a frame, once the surface could be had, sets the frame up.
pub proof fn lemma_head_effect(world: World, config: RenderConfig, conditions: Conditions)
    requires
        !aborts(head(config)[0], conditions),
    ensures
        world.replay(head(config), conditions) == prepared(world, config),
{
    let actions = head(config);
    let none = Seq::<Action>::empty();
    lemma_replay_push(world, none, actions[0], conditions);
    lemma_replay_push(world, none.push(actions[0]), actions[1], conditions);
    lemma_replay_push(world, none.push(actions[0]).push(actions[1]), actions[2], conditions);
    assert(actions =~= none.push(actions[0]).push(actions[1]).push(actions[2]));
    let allocated = world.after(actions[0], conditions(actions[0]));
    let cleared = allocated.after(actions[1], conditions(actions[1]));
    let scaled = cleared.after(actions[2], conditions(actions[2]));
    assert(world.replay(actions, conditions) == scaled);
    assert(scaled.transform =~= prepared(world, config).transform);
    assert(scaled.surface == prepared(world, config).surface);
}

/// One element's part of a frame draws the element if it is enabled, and
/// leaves the transform as it found it.
pub proof fn lemma_stage_effect(
    world: World,
    stages: StageSet,
    element: Element,
    conditions: Conditions,
)
    ensures
        world.replay(stage(stages, element), conditions) == staged(
            world,
            stages,
            element,
            conditions,
        ),
        staged(world, stages, element, conditions).transform == world.transform,
        staged(world, stages, element, conditions).saved == world.saved,
{
    if stages.draws(element) {
        lemma_block_effect(world, element, conditions);
    }
}

/// The drawing of a frame draws the enabled elements in their order.
pub proof fn lemma_stages_effect(world: World, stages: StageSet, conditions: Conditions)
    ensures
        world.replay(stages_of(stages), conditions) == painted(world, stages, conditions),
        painted(world, stages, conditions).transform == world.transform,
        painted(world, stages, conditions).saved == world.saved,
        painted(world, stages, conditions).encoded == world.encoded,
        painted(world, stages, conditions).output == world.output,
{
    let path = stage(stages, Element::Path);
    let raster = stage(stages, Element::Raster);
    let text = stage(stages, Element::Text);
    let svg = stage(stages, Element::Svg);
    let first = staged(world, stages, Element::Path, conditions);
    let second = staged(first, stages, Element::Raster, conditions);
    let third = staged(second, stages, Element::Text, conditions);
    lemma_stage_effect(world, stages, Element::Path, conditions);
    lemma_stage_effect(first, stages, Element::Raster, conditions);
    lemma_stage_effect(second, stages, Element::Text, conditions);
    lemma_stage_effect(third, stages, Element::Svg, conditions);
    lemma_replay_concat(world, path, raster, conditions);
    lemma_replay_concat(world, path + raster, text, conditions);
    lemma_replay_concat(world, path + raster + text, svg, conditions);
}

/// The end of a frame, once the frame could be encoded and written, puts
/// what is on the surface into the output file.
pub proof fn lemma_tail_effect(world: World, stages: StageSet, conditions: Conditions)
    requires
        stages.save ==> !aborts(Action::Encode, conditions) && !aborts(
            Action::WriteOutput,
            conditions,
        ),
    ensures
        world.replay(tail(stages), conditions) == kept(world, stages),
{
    if stages.save {
        let none = Seq::<Action>::empty();
        lemma_replay_push(world, none, Action::Encode, conditions);
        lemma_replay_push(world, none.push(Action::Encode), Action::WriteOutput, conditions);
        assert(encoding() =~= none.push(Action::Encode).push(Action::WriteOutput));
    }
}

/// The surface could be had and, where the frame is saved, it could be
/// encoded and written.
pub open spec fn frame_succeeds(config: RenderConfig, conditions: Conditions) -> bool {
    &&& !aborts(head(config)[0], conditions)
    &&& config.stages.save ==> !aborts(Action::Encode, conditions) && !aborts(
        Action::WriteOutput,
        conditions,
    )
}

/// The effect of a whole frame in closed form.
pub proof fn lemma_frame_effect(world: World, config: RenderConfig, conditions: Conditions)
    requires
        frame_succeeds(config, conditions),
    ensures
        world.replay(frame(config), conditions) == composed(world, config, conditions),
{
    let stages = config.stages;
    lemma_checks_effect(world, stages, conditions);
    lemma_head_effect(world, config, conditions);
    let ready = prepared(world, config);
    lemma_stages_effect(ready, stages, conditions);
    let drawn = painted(ready, stages, conditions);
    lemma_tail_effect(drawn, stages, conditions);
    lemma_replay_concat(world, checks(stages), head(config), conditions);
    lemma_replay_concat(world, checks(stages) + head(config), stages_of(stages), conditions);
    lemma_replay_concat(
        world,
        checks(stages) + head(config) + stages_of(stages),
        tail(stages),
        conditions,
    );
}

/// What the drawing of a frame puts on the surface depends on nothing but
/// the surface and the transform that it starts from.
pub proof fn lemma_drawing_depends_on_canvas(
    first: World,
    second: World,
    stages: StageSet,
    conditions: Conditions,
)
    requires
        first.surface == second.surface,
        first.transform == second.transform,
    ensures
        painted(first, stages, conditions).surface == painted(second, stages, conditions).surface,
{
}

/// A frame wipes out what the frame before it left on the surface and in
/// the output file, so composing it once more changes nothing.
pub proof fn lemma_frame_is_idempotent(world: World, config: RenderConfig, conditions: Conditions)
    ensures
        composed(composed(world, config, conditions), config, conditions) == composed(
            world,
            config,
            conditions,
        ),
{
    let once = composed(world, config, conditions);
    lemma_drawing_depends_on_canvas(
        prepared(world, config),
        prepared(once, config),
        config.stages,
        conditions,
    );
    lemma_stages_effect(prepared(world, config), config.stages, conditions);
    lemma_stages_effect(prepared(once, config), config.stages, conditions);
}

/// The element is on the picture of a frame: its stage is enabled, and its
/// input could be read or it has a fallback.
pub open spec fn is_visible(stages: StageSet, element: Element, conditions: Conditions) -> bool {
    stages.draws(element) && (conditions(Action::Render(element)) == Outcome::Done
        || element.has_fallback())
}

/// The mark is that of a visible element, drawn under the scale of the run
/// followed by its own placement and by nothing else.
pub open spec fn is_mark_of_frame(
    mark: Mark,
    config: RenderConfig,
    conditions: Conditions,
) -> bool {
    &&& is_visible(config.stages, mark.element, conditions)
    &&& mark.transform == frame_transform(config) + mark.element.placement()
    &&& mark.asset_read == (conditions(Action::Render(mark.element)) == Outcome::Done)
}

/// The picture shows, on a white background, each visible element among
/// the first `drawn` of the drawing order once, in that order, and each
/// under its own placement alone.
pub open spec fn shows(
    picture: Picture,
    config: RenderConfig,
    conditions: Conditions,
    drawn: int,
) -> bool {
    &&& picture.width == config.extent()
    &&& picture.height == config.extent()
    &&& picture.background == Some(Color::white())
    &&& forall|i: int|
        0 <= i < picture.marks.len() ==> is_mark_of_frame(
            #[trigger] picture.marks[i],
            config,
            conditions,
        ) && picture.marks[i].element.order() < drawn
    &&& forall|i: int, j: int|
        0 <= i < j < picture.marks.len() ==> (#[trigger] picture.marks[i]).element.order() < (
        #[trigger] picture.marks[j]).element.order()
    &&& forall|element: Element|
        is_visible(config.stages, element, conditions) && element.order() < drawn
            ==> exists|i: int|
            0 <= i < picture.marks.len() && (#[trigger] picture.marks[i]).element == element
}

/// One more stage keeps the picture in order: the stage of the element
/// that is next in the drawing order adds that element if it is visible,
/// after all that is there, and changes nothing else.
#[verifier::rlimit(40)]
pub proof fn lemma_stage_keeps_order(
    world: World,
    config: RenderConfig,
    element: Element,
    conditions: Conditions,
)
    requires
        world.transform == frame_transform(config),
        world.surface matches Some(picture) && shows(picture, config, conditions, element.order()),
    ensures
        staged(world, config.stages, element, conditions).surface matches Some(picture) && shows(
            picture,
            config,
            conditions,
            element.order() + 1,
        ),
{
    let before = world.surface->0;
    let after = staged(world, config.stages, element, conditions).surface->0;
    if is_visible(config.stages, element, conditions) {
        assert(after.marks == before.marks.push(after.marks.last()));
        assert(after.marks.last().element == element);
        assert forall|other: Element|
            is_visible(config.stages, other, conditions) && other.order() < element.order()
                + 1 implies exists|i: int|
            0 <= i < after.marks.len() && (#[trigger] after.marks[i]).element == other by {
            if other == element {
                assert(after.marks[after.marks.len() - 1].element == other);
            } else {
                let i = choose|i: int|
                    0 <= i < before.marks.len() && (#[trigger] before.marks[i]).element == other;
                assert(after.marks[i].element == other);
            }
        }
    } else {
        assert(after == before);
        assert forall|other: Element|
            is_visible(config.stages, other, conditions) && other.order() < element.order()
                + 1 implies exists|i: int|
            0 <= i < after.marks.len() && (#[trigger] after.marks[i]).element == other by {
            let i = choose|i: int|
                0 <= i < before.marks.len() && (#[trigger] before.marks[i]).element == other;
            assert(after.marks[i].element == other);
        }
    }
}

/// What is on the picture of a frame: on a white background of the scaled
/// size, each visible element once, in the fixed drawing order, and each
/// under the scale of the run followed by its own placement and by nothing
/// else. No element's placement reaches another element.
#[verifier::rlimit(40)]
pub proof fn lemma_frame_picture(world: World, config: RenderConfig, conditions: Conditions)
    ensures
        ({
            let after = painted(prepared(world, config), config.stages, conditions);
            &&& after.transform == frame_transform(config)
            &&& after.saved == Seq::<Seq<Action>>::empty()
            &&& after.surface matches Some(picture)
            &&& shows(picture, config, conditions, 4)
        }),
{
    let stages = config.stages;
    let ready = prepared(world, config);
    let path = staged(ready, stages, Element::Path, conditions);
    let raster = staged(path, stages, Element::Raster, conditions);
    let text = staged(raster, stages, Element::Text, conditions);
    lemma_stage_effect(ready, stages, Element::Path, conditions);
    lemma_stage_effect(path, stages, Element::Raster, conditions);
    lemma_stage_effect(raster, stages, Element::Text, conditions);
    lemma_stage_effect(text, stages, Element::Svg, conditions);
    lemma_stage_keeps_order(ready, config, Element::Path, conditions);
    lemma_stage_keeps_order(path, config, Element::Raster, conditions);
    lemma_stage_keeps_order(raster, config, Element::Text, conditions);
    lemma_stage_keeps_order(text, config, Element::Svg, conditions);
}

} // verus!
