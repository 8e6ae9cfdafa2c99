//! The laws of whole runs: what a driver that follows the pipeline leaves
//! behind, from the first action of a run to its last.

use crate::action::{Action, Color, Outcome, RenderError};
use crate::composer::{
    check, checks, encoding, frame, head, repeated, script, stage, stages_of, tail,
};
use crate::config::{RenderConfig, StageSet, CANVAS_SIZE};
use crate::effect::{
    composed, frame_succeeds, kept, lemma_checks_effect, lemma_frame_effect,
    lemma_frame_is_idempotent, lemma_head_effect, lemma_stages_effect, lemma_tail_effect, painted,
    prepared, staged,
};
use crate::element::Element;
use crate::model::{lemma_replay_concat, lemma_replay_push, Conditions, Picture, World};
use crate::renderers::RenderPlan;
use crate::run::{
    aborts, carried_out, lemma_carried_out_all, lemma_carried_out_before,
    lemma_carried_out_concat, lemma_carried_out_stops, lemma_drive_follows_script,
    Run,
};
use vstd::prelude::*;

verus! {

/// No action of the drawing of a frame can end the run.
pub proof fn lemma_stages_never_abort(stages: StageSet, conditions: Conditions)
    ensures
        forall|i: int|
            0 <= i < stages_of(stages).len() ==> !aborts(
                #[trigger] stages_of(stages)[i],
                conditions,
            ),
{
    let path = stage(stages, Element::Path);
    let raster = stage(stages, Element::Raster);
    let text = stage(stages, Element::Text);
    let svg = stage(stages, Element::Svg);
    let all = stages_of(stages);
    assert forall|i: int| 0 <= i < all.len() implies !aborts(#[trigger] all[i], conditions) by {
        if i < path.len() {
            assert(all[i] == path[i]);
        } else if i < path.len() + raster.len() {
            assert(all[i] == raster[i - path.len()]);
        } else if i < path.len() + raster.len() + text.len() {
            assert(all[i] == text[i - path.len() - raster.len()]);
        } else {
            assert(all[i] == svg[i - path.len() - raster.len() - text.len()]);
        }
    }
}

/// A frame that is carried out in full had its surface, and was encoded
/// and written if it was to be saved; and the other way round.
pub proof fn lemma_full_frame_succeeds(config: RenderConfig, conditions: Conditions)
    ensures
        carried_out(frame(config), conditions) == frame(config).len() ==> frame_succeeds(
            config,
            conditions,
        ),
        frame_succeeds(config, conditions) && carried_out(checks(config.stages), conditions)
            == checks(config.stages).len() ==> carried_out(frame(config), conditions) == frame(
            config,
        ).len(),
{
    let stages = config.stages;
    let actions = frame(config);
    let before = checks(stages);
    let drawing = stages_of(stages);
    lemma_carried_out_stops(actions, conditions);
    if carried_out(actions, conditions) == actions.len() {
        assert(actions[before.len() as int] == head(config)[0]);
        if stages.save {
            assert(actions[actions.len() - 2] == Action::Encode);
            assert(actions[actions.len() - 1] == Action::WriteOutput);
        }
    }
    if frame_succeeds(config, conditions) && carried_out(before, conditions) == before.len() {
        lemma_carried_out_stops(before, conditions);
        lemma_stages_never_abort(stages, conditions);
        assert forall|i: int| 0 <= i < actions.len() implies !aborts(
            #[trigger] actions[i],
            conditions,
        ) by {
            if i < before.len() {
                assert(actions[i] == before[i]);
            } else if i < before.len() + 3 {
                assert(actions[i] == head(config)[i - before.len()]);
            } else if i < before.len() + 3 + drawing.len() {
                assert(actions[i] == drawing[i - before.len() - 3]);
            } else {
                assert(actions[i] == tail(stages)[i - before.len() - 3 - drawing.len()]);
            }
        }
        lemma_carried_out_all(actions, conditions);
    }
}

/// A run of one or more frames that are all carried out in full leaves
/// behind what a single frame leaves behind.
pub proof fn lemma_whole_frames(
    world: World,
    config: RenderConfig,
    conditions: Conditions,
    count: nat,
)
    requires
        count >= 1,
        carried_out(frame(config), conditions) == frame(config).len(),
    ensures
        carried_out(repeated(frame(config), count), conditions) == repeated(
            frame(config),
            count,
        ).len(),
        world.replay(repeated(frame(config), count), conditions) == composed(
            world,
            config,
            conditions,
        ),
    decreases count,
{
    let one = frame(config);
    let rest = repeated(one, (count - 1) as nat);
    lemma_full_frame_succeeds(config, conditions);
    lemma_frame_effect(world, config, conditions);
    lemma_carried_out_concat(one, rest, conditions);
    lemma_replay_concat(world, one, rest, conditions);
    if count == 1 {
        assert(rest =~= Seq::<Action>::empty());
    } else {
        let once = composed(world, config, conditions);
        lemma_whole_frames(once, config, conditions, (count - 1) as nat);
        lemma_frame_is_idempotent(world, config, conditions);
    }
}

/// A run whose first frame is ended early carries out what a single frame
/// carries out, however many frames it was to have.
pub proof fn lemma_aborted_frames(config: RenderConfig, conditions: Conditions, count: nat)
    requires
        count >= 1,
        carried_out(frame(config), conditions) < frame(config).len(),
    ensures
        carried_out(repeated(frame(config), count), conditions) == carried_out(
            frame(config),
            conditions,
        ),
        repeated(frame(config), count).take(carried_out(frame(config), conditions) as int)
            == frame(config).take(carried_out(frame(config), conditions) as int),
        repeated(frame(config), count)[carried_out(frame(config), conditions) as int] == frame(
            config,
        )[carried_out(frame(config), conditions) as int],
{
    let one = frame(config);
    let rest = repeated(one, (count - 1) as nat);
    let reached = carried_out(one, conditions) as int;
    lemma_carried_out_concat(one, rest, conditions);
    assert((one + rest).take(reached) =~= one.take(reached));
}

/// Where a driven run ends: the script was carried out up to its first
/// aborting action, the run has failed with that action's error, or has
/// finished if there is none.
pub proof fn lemma_complete_run(config: RenderConfig, conditions: Conditions, world: World)
    ensures
        ({
            let actions = script(config);
            let count = carried_out(actions, conditions);
            let end = Run::launch(config, world).complete(conditions);
            &&& count <= actions.len()
            &&& end.world == world.replay(actions.take(count as int), conditions)
            &&& end.pipeline.failure == (if count < actions.len() {
                actions[count as int].error()
            } else {
                None
            })
            &&& count < actions.len() ==> aborts(actions[count as int], conditions)
            &&& end.pipeline.finished() == (count == actions.len())
            &&& end.pipeline.current() is None
        }),
{
    let actions = script(config);
    let start = Run::launch(config, world);
    lemma_drive_follows_script(start, conditions, actions.len());
    assert(actions.skip(0) =~= actions);
}

/// The element is enabled and is read from a file, so a frame checks for
/// that file.
pub open spec fn is_required(stages: StageSet, element: Element) -> bool {
    stages.draws(element) && element.needs_asset()
}

/// Where the check of a required file stands among the checks of a frame:
/// after the checks of the required files of the elements drawn earlier.
pub open spec fn check_position(stages: StageSet, element: Element) -> int {
    if element == Element::Raster {
        0
    } else if element == Element::Text {
        check(stages, Element::Raster).len() as int
    } else {
        (check(stages, Element::Raster).len() + check(stages, Element::Text).len()) as int
    }
}

/// The action is the check of a required file and stands at `position`.
pub open spec fn is_check_at(stages: StageSet, action: Action, position: int) -> bool {
    &&& action matches Action::RequireAsset(element)
    &&& is_required(stages, element)
    &&& check_position(stages, element) == position
}

/// Every check of a frame asks for a required file, every required file
/// has its check, and the checks stand in the drawing order of their
/// elements.
pub proof fn lemma_checks_members(stages: StageSet)
    ensures
        forall|i: int|
            0 <= i < checks(stages).len() ==> is_check_at(stages, #[trigger] checks(stages)[i], i),
        forall|element: Element|
            is_required(stages, element) ==> {
                let position = #[trigger] check_position(stages, element);
                &&& 0 <= position < checks(stages).len()
                &&& checks(stages)[position] == Action::RequireAsset(element)
            },
        forall|first: Element, second: Element|
            is_required(stages, first) && is_required(stages, second) && first.order()
                < second.order() ==> #[trigger] check_position(stages, first)
                < #[trigger] check_position(stages, second),
{
    let raster = check(stages, Element::Raster);
    let text = check(stages, Element::Text);
    let svg = check(stages, Element::Svg);
    let all = checks(stages);
    assert(check(stages, Element::Path) =~= Seq::<Action>::empty());
    assert forall|i: int| 0 <= i < all.len() implies is_check_at(stages, #[trigger] all[i], i) by {
        if i < raster.len() {
            assert(all[i] == raster[i]);
        } else if i < raster.len() + text.len() {
            assert(all[i] == text[i - raster.len()]);
        } else {
            assert(all[i] == svg[i - raster.len() - text.len()]);
        }
    }
    assert forall|element: Element| is_required(stages, element) implies {
        let position = #[trigger] check_position(stages, element);
        &&& 0 <= position < all.len()
        &&& all[position] == Action::RequireAsset(element)
    } by {
        let position = check_position(stages, element);
        if element == Element::Raster {
            assert(all[position] == raster[0]);
        } else if element == Element::Text {
            assert(all[position] == text[0]);
        } else {
            assert(all[position] == svg[0]);
        }
    }
}

/// Checks alone leave the world as it is, however they turn out.
pub proof fn lemma_requirements_change_nothing(
    world: World,
    actions: Seq<Action>,
    conditions: Conditions,
)
    requires
        forall|i: int| 0 <= i < actions.len() ==> #[trigger] actions[i] is RequireAsset,
    ensures
        world.replay(actions, conditions) == world,
    decreases actions.len(),
{
    if actions.len() > 0 {
        let rest = actions.drop_first();
        assert(actions[0] is RequireAsset);
        assert forall|i: int| 0 <= i < rest.len() implies #[trigger] rest[i] is RequireAsset by {
            assert(rest[i] == actions[i + 1]);
        }
        lemma_requirements_change_nothing(world, rest, conditions);
    }
}

/// The file of the element is required and is not there.
pub open spec fn is_missing(stages: StageSet, element: Element, conditions: Conditions) -> bool {
    is_required(stages, element) && conditions(Action::RequireAsset(element)) == Outcome::Failed
}

/// The first element in drawing order whose required file is not there.
pub open spec fn first_missing(stages: StageSet, conditions: Conditions) -> Option<Element> {
    if is_missing(stages, Element::Raster, conditions) {
        Some(Element::Raster)
    } else if is_missing(stages, Element::Text, conditions) {
        Some(Element::Text)
    } else if is_missing(stages, Element::Svg, conditions) {
        Some(Element::Svg)
    } else {
        None
    }
}

/// The files of all enabled elements are there.
pub open spec fn assets_present(stages: StageSet, conditions: Conditions) -> bool {
    first_missing(stages, conditions) is None
}

/// The failure that ends a frame, if one does: the first missing file, else
/// a surface that cannot be had, else, where the frame is saved, a frame
/// that cannot be encoded or cannot be written.
pub open spec fn frame_failure(config: RenderConfig, conditions: Conditions) -> Option<
    RenderError,
> {
    match first_missing(config.stages, conditions) {
        Some(element) => Some(RenderError::MissingAsset(element)),
        None => if aborts(head(config)[0], conditions) {
            head(config)[0].error()
        } else if config.stages.save && aborts(Action::Encode, conditions) {
            Some(RenderError::EncodeFailed)
        } else if config.stages.save && aborts(Action::WriteOutput, conditions) {
            Some(RenderError::WriteFailed)
        } else {
            None
        },
    }
}

/// The world at the end of a frame, however it ends: untouched if a file
/// is missing or no surface can be had; else with the frame drawn, and
/// with the output file replaced only if the frame could be encoded and
/// written.
pub open spec fn frame_end(world: World, config: RenderConfig, conditions: Conditions) -> World {
    if first_missing(config.stages, conditions) is Some || aborts(head(config)[0], conditions) {
        world
    } else {
        let drawn = painted(prepared(world, config), config.stages, conditions);
        if !config.stages.save || aborts(Action::Encode, conditions) {
            drawn
        } else if aborts(Action::WriteOutput, conditions) {
            World { encoded: drawn.surface, ..drawn }
        } else {
            kept(drawn, config.stages)
        }
    }
}

/// The checks of a frame are carried out in full exactly when no required
/// file is missing; else they stop at the check of the first missing one.
pub proof fn lemma_checks_outcome(stages: StageSet, conditions: Conditions)
    ensures
        ({
            let count = carried_out(checks(stages), conditions) as int;
            match first_missing(stages, conditions) {
                Some(element) => count < checks(stages).len() && checks(stages)[count]
                    == Action::RequireAsset(element),
                None => count == checks(stages).len(),
            }
        }),
{
    let all = checks(stages);
    let count = carried_out(all, conditions) as int;
    lemma_checks_members(stages);
    lemma_carried_out_stops(all, conditions);
    match first_missing(stages, conditions) {
        Some(element) => {
            let place = check_position(stages, element);
            assert(aborts(all[place], conditions));
            assert(count <= place);
            assert(is_check_at(stages, all[count], count));
            let found = all[count]->RequireAsset_0;
            assert(aborts(all[count], conditions));
            assert(is_missing(stages, found, conditions));
            if found != element {
                assert(check_position(stages, found) < place);
            }
        },
        None => {
            if count < all.len() {
                assert(is_check_at(stages, all[count], count));
                assert(is_missing(stages, all[count]->RequireAsset_0, conditions));
            }
        },
    }
}

/// What `lemma_frame_outcome` states of a frame.
pub open spec fn ends_as_stated(
    world: World,
    config: RenderConfig,
    conditions: Conditions,
) -> bool {
    let actions = frame(config);
    let count = carried_out(actions, conditions) as int;
    &&& count <= actions.len()
    &&& world.replay(actions.take(count), conditions) == frame_end(world, config, conditions)
    &&& (count == actions.len()) == (frame_failure(config, conditions) is None)
    &&& count < actions.len() ==> actions[count].error() == frame_failure(config, conditions)
}

/// A frame with a missing file stops at the check of the first missing
/// one, the world untouched.
proof fn lemma_frame_stops_at_check(world: World, config: RenderConfig, conditions: Conditions)
    requires
        first_missing(config.stages, conditions) is Some,
    ensures
        ends_as_stated(world, config, conditions),
{
    let stages = config.stages;
    let before = checks(stages);
    let actions = frame(config);
    lemma_checks_outcome(stages, conditions);
    lemma_checks_members(stages);
    lemma_carried_out_concat(before, head(config), conditions);
    lemma_carried_out_concat(before + head(config), stages_of(stages), conditions);
    lemma_carried_out_concat(before + head(config) + stages_of(stages), tail(stages), conditions);
    let count = carried_out(before, conditions) as int;
    assert(carried_out(actions, conditions) == count);
    assert(actions.take(count) =~= before.take(count));
    assert(actions[count] == before[count]);
    lemma_requirements_change_nothing(world, before.take(count), conditions);
}

/// A frame whose files are there carries out its checks, and stops at the
/// allocation if no surface can be had, the world untouched.
proof fn lemma_frame_stops_at_allocation(
    world: World,
    config: RenderConfig,
    conditions: Conditions,
)
    requires
        first_missing(config.stages, conditions) is None,
        aborts(head(config)[0], conditions),
    ensures
        ends_as_stated(world, config, conditions),
{
    let stages = config.stages;
    let before = checks(stages);
    let start = head(config);
    let actions = frame(config);
    lemma_checks_outcome(stages, conditions);
    lemma_checks_effect(world, stages, conditions);
    lemma_carried_out_concat(before, start, conditions);
    lemma_carried_out_concat(before + start, stages_of(stages), conditions);
    lemma_carried_out_concat(before + start + stages_of(stages), tail(stages), conditions);
    assert(start.first() == start[0]);
    assert(carried_out(start, conditions) == 0);
    let count = before.len() as int;
    assert(carried_out(actions, conditions) == count);
    assert(actions.take(count) =~= before);
    assert(actions[count] == start[0]);
}

/// A frame whose files are there and whose surface can be had is carried
/// out up to its end part, and the frame is then drawn.
#[verifier::rlimit(40)]
proof fn lemma_frame_reaches_its_end(world: World, config: RenderConfig, conditions: Conditions)
    requires
        first_missing(config.stages, conditions) is None,
        !aborts(head(config)[0], conditions),
    ensures
        ({
            let shown = checks(config.stages) + head(config) + stages_of(config.stages);
            &&& carried_out(shown, conditions) == shown.len()
            &&& world.replay(shown, conditions) == painted(
                prepared(world, config),
                config.stages,
                conditions,
            )
        }),
{
    let stages = config.stages;
    let before = checks(stages);
    let start = head(config);
    let drawing = stages_of(stages);
    lemma_checks_outcome(stages, conditions);
    lemma_checks_effect(world, stages, conditions);
    lemma_carried_out_all(start, conditions);
    lemma_head_effect(world, config, conditions);
    lemma_stages_never_abort(stages, conditions);
    lemma_carried_out_all(drawing, conditions);
    lemma_stages_effect(prepared(world, config), stages, conditions);
    lemma_carried_out_concat(before, start, conditions);
    lemma_carried_out_concat(before + start, drawing, conditions);
    lemma_replay_concat(world, before, start, conditions);
    lemma_replay_concat(world, before + start, drawing, conditions);
}

/// The end part of a frame that is saved: how far it is carried out and
/// what it leaves.
proof fn lemma_encoding_outcome(world: World, conditions: Conditions)
    ensures
        ({
            let count = carried_out(encoding(), conditions) as int;
            let left = world.replay(encoding().take(count), conditions);
            if aborts(Action::Encode, conditions) {
                count == 0 && left == world
            } else if aborts(Action::WriteOutput, conditions) {
                count == 1 && left == (World { encoded: world.surface, ..world })
            } else {
                count == 2 && left == (World {
                    encoded: world.surface,
                    output: world.surface,
                    ..world
                })
            }
        }),
{
    let end = encoding();
    let none = Seq::<Action>::empty();
    let rest = end.drop_first();
    assert(end.first() == Action::Encode);
    assert(rest.first() == Action::WriteOutput);
    assert(rest.drop_first() =~= none);
    assert(carried_out(rest.drop_first(), conditions) == 0);
    lemma_replay_push(world, none, Action::Encode, conditions);
    lemma_replay_push(world, none.push(Action::Encode), Action::WriteOutput, conditions);
    assert(end.take(0) =~= none);
    assert(end.take(1) =~= none.push(Action::Encode));
    assert(end.take(2) =~= none.push(Action::Encode).push(Action::WriteOutput));
    assert(world.replay(none, conditions) == world);
    if aborts(Action::Encode, conditions) {
        assert(carried_out(end, conditions) == 0);
    } else {
        assert(carried_out(end, conditions) == 1 + carried_out(rest, conditions));
        assert(conditions(Action::Encode) == Outcome::Done);
        if aborts(Action::WriteOutput, conditions) {
            assert(carried_out(rest, conditions) == 0);
        } else {
            assert(carried_out(rest, conditions) == 1 + carried_out(rest.drop_first(), conditions));
            assert(conditions(Action::WriteOutput) == Outcome::Done);
        }
    }
}

/// How a frame ends, in full: the actions carried out leave the world as
/// `frame_end` says, the frame is carried out to its last action exactly
/// when `frame_failure` names no failure, and else it stops at the action
/// with that failure.
#[verifier::rlimit(40)]
pub proof fn lemma_frame_outcome(world: World, config: RenderConfig, conditions: Conditions)
    ensures
        ends_as_stated(world, config, conditions),
{
    let stages = config.stages;
    if first_missing(stages, conditions) is Some {
        lemma_frame_stops_at_check(world, config, conditions);
    } else if aborts(head(config)[0], conditions) {
        lemma_frame_stops_at_allocation(world, config, conditions);
    } else {
        let shown = checks(stages) + head(config) + stages_of(stages);
        let end = tail(stages);
        let actions = frame(config);
        let drawn = painted(prepared(world, config), stages, conditions);
        lemma_frame_reaches_its_end(world, config, conditions);
        lemma_carried_out_concat(shown, end, conditions);
        let count = carried_out(actions, conditions) as int;
        if stages.save {
            lemma_encoding_outcome(drawn, conditions);
            let more = carried_out(end, conditions) as int;
            assert(count == shown.len() + more);
            assert(actions.take(count) =~= shown + end.take(more));
            lemma_replay_concat(world, shown, end.take(more), conditions);
            if more < 2 {
                assert(actions[count] == end[more]);
            }
        } else {
            assert(actions =~= shown);
            assert(actions.take(count) =~= shown);
        }
    }
}

/// How a run ends, in full, whatever the conditions: it ends the way its
/// first frame ends. It finishes exactly when the files of all enabled
/// elements are there, a surface can be had and, where the frame is saved,
/// the frame can be encoded and written; else it has failed with the
/// first of these that does not hold, a missing file before all else. The
/// world is then what the frame left: untouched if the run failed before
/// drawing.
#[verifier::rlimit(40)]
pub proof fn lemma_run_outcome(config: RenderConfig, conditions: Conditions, world: World)
    requires
        config.loop_count >= 1,
    ensures
        ({
            let end = Run::launch(config, world).complete(conditions);
            &&& end.pipeline.current() is None
            &&& end.pipeline.failure == frame_failure(config, conditions)
            &&& end.pipeline.finished() == (frame_failure(config, conditions) is None)
            &&& end.world == frame_end(world, config, conditions)
        }),
{
    let one = frame(config);
    let actions = script(config);
    lemma_complete_run(config, conditions, world);
    lemma_frame_outcome(world, config, conditions);
    assert(actions =~= one + repeated(one, (config.loop_count - 1) as nat));
    if carried_out(one, conditions) == one.len() {
        lemma_whole_frames(world, config, conditions, config.loop_count as nat);
        lemma_full_frame_succeeds(config, conditions);
        lemma_frame_effect(world, config, conditions);
        assert(actions.take(actions.len() as int) =~= actions);
        assert(one.take(one.len() as int) =~= one);
    } else {
        lemma_aborted_frames(config, conditions, config.loop_count as nat);
    }
}

/// A run fails with a missing asset exactly when the file of an enabled
/// element is not there, and it finishes when all files are there, a
/// surface can be had and the frame can be encoded and written.
pub proof fn lemma_run_fails_exactly_on_missing_asset(
    config: RenderConfig,
    conditions: Conditions,
    world: World,
)
    requires
        config.loop_count >= 1,
    ensures
        ({
            let end = Run::launch(config, world).complete(conditions);
            &&& (end.pipeline.failure matches Some(RenderError::MissingAsset(_))) == (exists|
                element: Element,
            | #[trigger] is_missing(config.stages, element, conditions))
            &&& assets_present(config.stages, conditions) && frame_succeeds(config, conditions)
                ==> end.pipeline.finished()
        }),
{
    lemma_run_outcome(config, conditions, world);
    match first_missing(config.stages, conditions) {
        Some(element) => {
            assert(is_missing(config.stages, element, conditions));
        },
        None => {},
    }
}

/// With the files of its enabled elements in place, a surface to be had
/// and a frame that can be encoded and written, a run that saves its frame
/// finishes, and the output file then holds a picture whose width and
/// height are the base size times the scale.
pub proof fn lemma_output_has_scaled_size(
    config: RenderConfig,
    conditions: Conditions,
    world: World,
)
    requires
        assets_present(config.stages, conditions),
        frame_succeeds(config, conditions),
        config.stages.save,
        config.loop_count >= 1,
    ensures
        ({
            let end = Run::launch(config, world).complete(conditions);
            &&& end.pipeline.finished()
            &&& end.world.output matches Some(picture)
            &&& picture.width == CANVAS_SIZE * config.scale
            &&& picture.height == CANVAS_SIZE * config.scale
        }),
{
    lemma_run_outcome(config, conditions, world);
}

/// With every stage but the save switched off, the output file holds the
/// cleared background and nothing else, whether or not any input file is
/// there: none is read.
pub proof fn lemma_save_only_shows_background(
    config: RenderConfig,
    conditions: Conditions,
    world: World,
)
    requires
        frame_succeeds(config, conditions),
        config.stages == StageSet::save_only(),
        config.loop_count >= 1,
    ensures
        ({
            let end = Run::launch(config, world).complete(conditions);
            &&& end.pipeline.finished()
            &&& end.world.output == Some(
                Picture::blank(config.extent(), config.extent()).cleared(Color::white()),
            )
        }),
{
    lemma_run_outcome(config, conditions, world);
}

/// The drawing of a frame with an element that cannot be read is the
/// drawing of the frame without that element, unless it has a fallback.
pub proof fn lemma_painted_without(
    world: World,
    stages: StageSet,
    element: Element,
    conditions: Conditions,
)
    requires
        !element.has_fallback(),
        conditions(Action::Render(element)) == Outcome::Failed,
    ensures
        painted(world, stages, conditions) == painted(world, stages.without(element), conditions),
{
    let without = stages.without(element);
    let first = staged(world, stages, Element::Path, conditions);
    let second = staged(first, stages, Element::Raster, conditions);
    let third = staged(second, stages, Element::Text, conditions);
    assert(first == staged(world, without, Element::Path, conditions));
    assert(second == staged(first, without, Element::Raster, conditions));
    assert(third == staged(second, without, Element::Text, conditions));
    assert(staged(third, stages, Element::Svg, conditions) == staged(
        third,
        without,
        Element::Svg,
        conditions,
    ));
}

/// An element whose file is there but cannot be read does not end the
/// run: the run ends as it ends with that element's stage switched off,
/// and leaves behind exactly what it leaves behind then, whatever else
/// happens. An element with a fallback is left out: it is drawn all the
/// same.
#[verifier::rlimit(40)]
pub proof fn lemma_unreadable_asset_is_as_disabled(
    config: RenderConfig,
    element: Element,
    conditions: Conditions,
    world: World,
)
    requires
        !element.has_fallback(),
        !is_missing(config.stages, element, conditions),
        conditions(Action::Render(element)) == Outcome::Failed,
    ensures
        ({
            let without = RenderConfig { stages: config.stages.without(element), ..config };
            let end = Run::launch(config, world).complete(conditions);
            let other = Run::launch(without, world).complete(conditions);
            &&& end.pipeline.failure == other.pipeline.failure
            &&& end.pipeline.finished() == other.pipeline.finished()
            &&& end.world == other.world
        }),
{
    let without = RenderConfig { stages: config.stages.without(element), ..config };
    if config.loop_count >= 1 {
        lemma_run_outcome(config, conditions, world);
        lemma_run_outcome(without, conditions, world);
        assert(head(config) == head(without));
        assert(is_missing(config.stages, Element::Raster, conditions) == is_missing(
            without.stages,
            Element::Raster,
            conditions,
        ));
        assert(is_missing(config.stages, Element::Text, conditions) == is_missing(
            without.stages,
            Element::Text,
            conditions,
        ));
        assert(is_missing(config.stages, Element::Svg, conditions) == is_missing(
            without.stages,
            Element::Svg,
            conditions,
        ));
        assert(first_missing(config.stages, conditions) == first_missing(
            without.stages,
            conditions,
        ));
        assert(prepared(world, config) == prepared(world, without));
        lemma_painted_without(prepared(world, config), config.stages, element, conditions);
        assert(frame_failure(config, conditions) == frame_failure(without, conditions));
        assert(frame_end(world, config, conditions) == frame_end(world, without, conditions));
    } else {
        lemma_complete_run(config, conditions, world);
        lemma_complete_run(without, conditions, world);
        assert(script(config).take(0) =~= Seq::<Action>::empty());
        assert(script(without).take(0) =~= Seq::<Action>::empty());
    }
}

/// Two runs that differ only in where the outline comes from, the two
/// sources giving the same definition, have the same script, and every
/// render request stands for the same plan in both: the path parser is
/// handed the same text.
pub proof fn lemma_equal_outlines_equal_runs(config: RenderConfig, other: RenderConfig)
    requires
        config.stages == other.stages,
        config.scale == other.scale,
        config.loop_count == other.loop_count,
        config.path.definition() == other.path.definition(),
    ensures
        script(config) == script(other),
        forall|plan: RenderPlan, element: Element| #[trigger]
            plan.stands_for(element, config.path) == plan.stands_for(element, other.path),
{
    assert(head(config) == head(other));
    assert(frame(config) == frame(other));
}

/// Composing the frame again and again leaves behind what composing it
/// once leaves behind, and ends the same way, whatever the conditions:
/// each frame starts on a new surface and replaces the output file.
pub proof fn lemma_repetition_changes_nothing(
    config: RenderConfig,
    conditions: Conditions,
    world: World,
)
    requires
        config.loop_count >= 1,
    ensures
        ({
            let once = RenderConfig { loop_count: 1, ..config };
            let end = Run::launch(config, world).complete(conditions);
            let single = Run::launch(once, world).complete(conditions);
            &&& end.world == single.world
            &&& end.pipeline.failure == single.pipeline.failure
        }),
{
    let once = RenderConfig { loop_count: 1, ..config };
    let one = frame(config);
    assert(frame(once) == one);
    lemma_complete_run(config, conditions, world);
    lemma_complete_run(once, conditions, world);
    lemma_carried_out_stops(one, conditions);
    if carried_out(one, conditions) == one.len() {
        lemma_whole_frames(world, config, conditions, config.loop_count as nat);
        lemma_whole_frames(world, once, conditions, 1);
        assert(script(config).take(script(config).len() as int) =~= script(config));
        assert(script(once).take(script(once).len() as int) =~= script(once));
    } else {
        lemma_aborted_frames(config, conditions, config.loop_count as nat);
        lemma_aborted_frames(once, conditions, 1);
        assert(script(once).len() >= one.len()) by {
            assert(script(once) =~= one + repeated(one, 0));
        }
        assert(script(config).len() >= one.len()) by {
            assert(script(config) =~= one + repeated(one, (config.loop_count - 1) as nat));
        }
    }
}

/// A missing file of an enabled element ends the run before anything is
/// allocated, drawn or written: the run fails with a missing asset, which
/// is that of the first enabled element in drawing order whose file is not
/// there, and the world, the output file with it, is untouched.
#[verifier::rlimit(40)]
pub proof fn lemma_missing_asset_aborts(
    config: RenderConfig,
    element: Element,
    conditions: Conditions,
    world: World,
)
    requires
        config.loop_count >= 1,
        is_required(config.stages, element),
        conditions(Action::RequireAsset(element)) == Outcome::Failed,
    ensures
        ({
            let end = Run::launch(config, world).complete(conditions);
            &&& !end.pipeline.finished()
            &&& end.pipeline.current() is None
            &&& end.world == world
            &&& end.pipeline.failure matches Some(RenderError::MissingAsset(missing))
            &&& config.stages.draws(missing)
            &&& conditions(Action::RequireAsset(missing)) == Outcome::Failed
            &&& forall|earlier: Element|
                is_required(config.stages, earlier) && earlier.order() < missing.order()
                    ==> #[trigger] conditions(Action::RequireAsset(earlier)) == Outcome::Done
        }),
{
    let stages = config.stages;
    let before = checks(stages);
    let one = frame(config);
    lemma_checks_members(stages);
    let position = check_position(stages, element);
    lemma_carried_out_before(before, conditions, position);
    lemma_carried_out_stops(before, conditions);
    let reached = carried_out(before, conditions) as int;
    lemma_carried_out_concat(before, head(config), conditions);
    lemma_carried_out_concat(before + head(config), stages_of(stages), conditions);
    lemma_carried_out_concat(before + head(config) + stages_of(stages), tail(stages), conditions);
    assert(carried_out(one, conditions) == reached);
    lemma_aborted_frames(config, conditions, config.loop_count as nat);
    lemma_complete_run(config, conditions, world);
    assert(one.take(reached) =~= before.take(reached));
    assert(one[reached] == before[reached]);
    lemma_requirements_change_nothing(world, before.take(reached), conditions);
    assert(script(config).len() >= one.len()) by {
        assert(script(config) =~= one + repeated(one, (config.loop_count - 1) as nat));
    }
    let missing = before[reached]->RequireAsset_0;
    assert forall|earlier: Element|
        is_required(stages, earlier) && earlier.order() < missing.order() implies #[trigger] conditions(
            Action::RequireAsset(earlier),
        ) == Outcome::Done by {
        let place = check_position(stages, earlier);
        assert(place < check_position(stages, missing));
        assert(!aborts(before[place], conditions));
    }
}

} // verus!
