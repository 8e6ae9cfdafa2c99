//! A run as a whole: the pipeline together with the world that the driver
//! acts on, from the first action to the last.
//!
//! This ties the pipeline to plain scripts: a driver that does what the
//! pipeline says carries out the script up to the first action whose
//! failure is fatal, and no further.

use crate::action::{Action, Outcome, Policy, RenderWarning};
use crate::composer::script;
use crate::config::RenderConfig;
use crate::model::{Conditions, World};
use crate::pipeline::PipelineView;
use vstd::prelude::*;

verus! {

/// Under `conditions`, attempting `action` ends the run.
pub open spec fn aborts(action: Action, conditions: Conditions) -> bool {
    action.policy() is Fatal && conditions(action) == Outcome::Failed
}

/// How many actions from the start of `actions` are carried out before one
/// ends the run: the position of the first action that aborts, or the
/// length if none does.
pub open spec fn carried_out(actions: Seq<Action>, conditions: Conditions) -> nat
    decreases actions.len(),
{
    if actions.len() == 0 || aborts(actions.first(), conditions) {
        0
    } else {
        1 + carried_out(actions.drop_first(), conditions)
    }
}

/// The warnings that `actions` leave behind when all of them are attempted.
pub open spec fn warnings_of(actions: Seq<Action>, conditions: Conditions) -> Seq<RenderWarning>
    decreases actions.len(),
{
    if actions.len() == 0 {
        Seq::empty()
    } else {
        let rest = warnings_of(actions.drop_first(), conditions);
        match actions.first().policy() {
            Policy::Degrades(warning) => if conditions(actions.first()) == Outcome::Failed {
                seq![warning] + rest
            } else {
                rest
            },
            _ => rest,
        }
    }
}

/// The count of actions carried out is the position of the first action
/// that aborts: nothing before it aborts, and it does if it is there.
pub proof fn lemma_carried_out_stops(actions: Seq<Action>, conditions: Conditions)
    ensures
        carried_out(actions, conditions) <= actions.len(),
        carried_out(actions, conditions) < actions.len() ==> aborts(
            actions[carried_out(actions, conditions) as int],
            conditions,
        ),
        forall|i: int|
            0 <= i < carried_out(actions, conditions) ==> !aborts(
                #[trigger] actions[i],
                conditions,
            ),
    decreases actions.len(),
{
    if actions.len() > 0 && !aborts(actions.first(), conditions) {
        let rest = actions.drop_first();
        lemma_carried_out_stops(rest, conditions);
        assert forall|i: int| 0 <= i < carried_out(actions, conditions) implies !aborts(
            #[trigger] actions[i],
            conditions,
        ) by {
            if i > 0 {
                assert(actions[i] == rest[i - 1]);
            }
        }
    }
}

/// An action that aborts bounds the count of actions carried out.
pub proof fn lemma_carried_out_before(actions: Seq<Action>, conditions: Conditions, position: int)
    requires
        0 <= position < actions.len(),
        aborts(actions[position], conditions),
    ensures
        carried_out(actions, conditions) <= position,
{
    lemma_carried_out_stops(actions, conditions);
}

/// Where nothing aborts, everything is carried out.
pub proof fn lemma_carried_out_all(actions: Seq<Action>, conditions: Conditions)
    requires
        forall|i: int| 0 <= i < actions.len() ==> !aborts(#[trigger] actions[i], conditions),
    ensures
        carried_out(actions, conditions) == actions.len(),
{
    lemma_carried_out_stops(actions, conditions);
}

/// Of two scripts in a row, the second is reached only if the first is
/// carried out in full.
pub proof fn lemma_carried_out_concat(
    first: Seq<Action>,
    second: Seq<Action>,
    conditions: Conditions,
)
    ensures
        carried_out(first + second, conditions) == (if carried_out(first, conditions)
            < first.len() {
            carried_out(first, conditions)
        } else {
            first.len() + carried_out(second, conditions)
        }),
    decreases first.len(),
{
    if first.len() == 0 {
        assert(first + second =~= second);
    } else {
        assert((first + second).first() == first.first());
        assert((first + second).drop_first() =~= first.drop_first() + second);
        lemma_carried_out_concat(first.drop_first(), second, conditions);
    }
}

/// A pipeline and the world its driver acts on.
pub struct Run {
    pub pipeline: PipelineView,
    pub world: World,
}

impl Run {
    /// The run that `config` describes, before its first action.
    pub open spec fn launch(config: RenderConfig, world: World) -> Run {
        Run { pipeline: PipelineView::initial(script(config)), world }
    }

    /// One turn of the driver: it attempts the action that is due and
    /// reports how it went.
    pub open spec fn turn(self, conditions: Conditions) -> Run {
        match self.pipeline.current() {
            None => self,
            Some(action) => Run {
                pipeline: self.pipeline.step(conditions(action)),
                world: self.world.after(action, conditions(action)),
            },
        }
    }

    /// As many turns of the driver as `turns` says.
    pub open spec fn drive(self, conditions: Conditions, turns: nat) -> Run
        decreases turns,
    {
        if turns == 0 {
            self
        } else {
            self.turn(conditions).drive(conditions, (turns - 1) as nat)
        }
    }

    /// The run driven until no action is due any more.
    pub open spec fn complete(self, conditions: Conditions) -> Run {
        self.drive(conditions, self.pipeline.script.len())
    }
}

/// Once no action is due, further turns change nothing.
pub proof fn lemma_drive_at_rest(run: Run, conditions: Conditions, turns: nat)
    requires
        run.pipeline.current() is None,
    ensures
        run.drive(conditions, turns) == run,
    decreases turns,
{
    if turns > 0 {
        lemma_drive_at_rest(run, conditions, (turns - 1) as nat);
    }
}

/// The driver and the pipeline together carry out the script from where
/// the pipeline stands up to the first action that aborts, and no further:
/// the world is then what replaying those actions gives, the warnings are
/// theirs, and the run has failed with the aborting action's error, or
/// not at all if none aborts.
pub proof fn lemma_drive_follows_script(run: Run, conditions: Conditions, turns: nat)
    requires
        run.pipeline.failure is None,
        0 <= run.pipeline.cursor <= run.pipeline.script.len(),
        turns >= run.pipeline.script.len() - run.pipeline.cursor,
    ensures
        ({
            let rest = run.pipeline.script.skip(run.pipeline.cursor);
            let count = carried_out(rest, conditions);
            let end = run.drive(conditions, turns);
            &&& count <= rest.len()
            &&& end.pipeline.script == run.pipeline.script
            &&& end.pipeline.cursor == run.pipeline.cursor + count
            &&& end.pipeline.failure == (if count < rest.len() {
                rest[count as int].error()
            } else {
                None
            })
            &&& count < rest.len() ==> aborts(rest[count as int], conditions)
            &&& end.pipeline.warnings == run.pipeline.warnings + warnings_of(
                rest.take(count as int),
                conditions,
            )
            &&& end.world == run.world.replay(rest.take(count as int), conditions)
            &&& end.pipeline.current() is None
        }),
    decreases turns,
{
    let pipeline = run.pipeline;
    let rest = pipeline.script.skip(pipeline.cursor);
    let count = carried_out(rest, conditions);
    let end = run.drive(conditions, turns);
    if pipeline.cursor == pipeline.script.len() {
        lemma_drive_at_rest(run, conditions, turns);
        assert(rest.take(0) =~= Seq::<Action>::empty());
        assert(pipeline.warnings + Seq::<RenderWarning>::empty() =~= pipeline.warnings);
    } else {
        let action = pipeline.script[pipeline.cursor];
        assert(rest.first() == action);
        let next = run.turn(conditions);
        assert(end == next.drive(conditions, (turns - 1) as nat));
        if aborts(action, conditions) {
            lemma_drive_at_rest(next, conditions, (turns - 1) as nat);
            assert(rest.take(0) =~= Seq::<Action>::empty());
            assert(pipeline.warnings + Seq::<RenderWarning>::empty() =~= pipeline.warnings);
        } else {
            lemma_drive_follows_script(next, conditions, (turns - 1) as nat);
            let later = pipeline.script.skip(pipeline.cursor + 1);
            assert(later =~= rest.drop_first());
            let more = carried_out(later, conditions);
            assert(count == 1 + more);
            let done = rest.take(count as int);
            assert(done.first() == action);
            assert(done.drop_first() =~= later.take(more as int));
            assert(next.pipeline.warnings + warnings_of(later.take(more as int), conditions)
                =~= pipeline.warnings + warnings_of(done, conditions));
            if more < later.len() {
                assert(rest[count as int] == later[more as int]);
            }
        }
    }
}

} // verus!
