//! The pipeline: a small machine that walks a script. It hands the driver
//! one action at a time, takes the driver's report on it and decides what
//! follows: the next action, or the end of the run.

use crate::action::{Action, Outcome, Policy, RenderError, RenderWarning};
use crate::composer::{run_script, script};
use crate::config::RenderConfig;
use vstd::prelude::*;

verus! {

/// The state of a pipeline.
pub struct PipelineView {
    /// The script that is walked.
    pub script: Seq<Action>,
    /// How many actions are behind.
    pub cursor: int,
    /// The failures that were absorbed, oldest first.
    pub warnings: Seq<RenderWarning>,
    /// The failure that ended the run, if one did.
    pub failure: Option<RenderError>,
}

impl PipelineView {
    /// The state before the first action of `script`.
    pub open spec fn initial(script: Seq<Action>) -> PipelineView {
        PipelineView { script, cursor: 0, warnings: Seq::empty(), failure: None }
    }

    /// The action that is due, while the run is neither over nor aborted.
    pub open spec fn current(self) -> Option<Action> {
        if self.failure is None && 0 <= self.cursor < self.script.len() {
            Some(self.script[self.cursor])
        } else {
            None
        }
    }

    /// The whole script is behind and nothing ended the run early.
    pub open spec fn finished(self) -> bool {
        self.failure is None && self.cursor >= self.script.len()
    }

    /// The state after the driver reported `outcome` for the action that
    /// was due. A failure that is fatal for the action ends the run there;
    /// any other report moves on to the next action, a failed element
    /// leaving a warning behind. With no action due, nothing changes.
    pub open spec fn step(self, outcome: Outcome) -> PipelineView {
        match self.current() {
            None => self,
            Some(action) => match (outcome, action.policy()) {
                (Outcome::Failed, Policy::Fatal(error)) => PipelineView {
                    failure: Some(error),
                    ..self
                },
                (Outcome::Failed, Policy::Degrades(warning)) => PipelineView {
                    cursor: self.cursor + 1,
                    warnings: self.warnings.push(warning),
                    ..self
                },
                _ => PipelineView { cursor: self.cursor + 1, ..self },
            },
        }
    }
}

/// Walks a script under the reports of a driver.
pub struct Pipeline {
    script: Vec<Action>,
    cursor: usize,
    warnings: Vec<RenderWarning>,
    failure: Option<RenderError>,
}

impl View for Pipeline {
    type V = PipelineView;

    closed spec fn view(&self) -> PipelineView {
        PipelineView {
            script: self.script@,
            cursor: self.cursor as int,
            warnings: self.warnings@,
            failure: self.failure,
        }
    }
}

impl Pipeline {
    /// Sets out on the run that `config` describes.
    pub fn start(config: &RenderConfig) -> (pipeline: Pipeline)
        ensures
            pipeline@ == PipelineView::initial(script(*config)),
    {
        Pipeline::over(run_script(config))
    }

    /// Sets out on a given script.
    pub fn over(actions: Vec<Action>) -> (pipeline: Pipeline)
        ensures
            pipeline@ == PipelineView::initial(actions@),
    {
        Pipeline { script: actions, cursor: 0, warnings: Vec::new(), failure: None }
    }

    /// Gives the action that is due, or `None` once the run is over or
    /// aborted.
    pub fn next_action(&self) -> (action: Option<Action>)
        ensures
            action == self@.current(),
    {
        if self.failure.is_none() && self.cursor < self.script.len() {
            Some(self.script[self.cursor])
        } else {
            None
        }
    }

    /// Takes the driver's report on the action that was due.
    pub fn advance(&mut self, outcome: Outcome)
        ensures
            final(self)@ == old(self)@.step(outcome),
    {
        let length = self.script.len();
        match self.next_action() {
            None => {},
            Some(action) => {
                assert(self.cursor < length);
                match (outcome, action.failure_policy()) {
                    (Outcome::Failed, Policy::Fatal(error)) => {
                        self.failure = Some(error);
                    },
                    (Outcome::Failed, Policy::Degrades(warning)) => {
                        self.cursor = self.cursor + 1;
                        self.warnings.push(warning);
                    },
                    _ => {
                        self.cursor = self.cursor + 1;
                    },
                }
            },
        }
    }

    /// Tells whether the whole script was carried out.
    pub fn is_finished(&self) -> (finished: bool)
        ensures
            finished == self@.finished(),
    {
        self.failure.is_none() && self.cursor >= self.script.len()
    }

    /// Gives the failure that ended the run, if one did.
    pub fn failure(&self) -> (failure: Option<RenderError>)
        ensures
            failure == self@.failure,
    {
        self.failure
    }

    /// Gives the failures that were absorbed so far, oldest first.
    pub fn warnings(&self) -> (warnings: &Vec<RenderWarning>)
        ensures
            warnings@ == self@.warnings,
    {
        &self.warnings
    }
}

} // verus!
