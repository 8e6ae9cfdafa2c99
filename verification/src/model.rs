//! What a script means: a small mathematical model of the surface, of the
//! stack of coordinate transforms and of the output file, and the effect
//! that each action has on them.
//!
//! A transform is kept as the list of translations and scalings that are in
//! effect, oldest first. Two equal lists are the same transform whatever the
//! rasteriser makes of them, so "the transform is restored exactly" is the
//! equality of two such lists.

use crate::action::{Action, Color, Outcome, Policy};
use crate::element::Element;
use vstd::prelude::*;

verus! {

/// One element drawn onto the surface.
pub struct Mark {
    /// Which element it is.
    pub element: Element,
    /// The transform it was drawn under.
    pub transform: Seq<Action>,
    /// Whether its input could be read. Only an element with a fallback is
    /// drawn without.
    pub asset_read: bool,
}

/// What is on a surface.
pub struct Picture {
    pub width: int,
    pub height: int,
    /// The colour the surface was last cleared to, if it ever was.
    pub background: Option<Color>,
    /// What was drawn since, oldest first.
    pub marks: Seq<Mark>,
}

/// Everything that the actions of a script act on.
pub struct World {
    /// The surface of the frame at hand, once one is allocated.
    pub surface: Option<Picture>,
    /// The coordinate transform in effect.
    pub transform: Seq<Action>,
    /// The transforms pushed and not yet popped, oldest first.
    pub saved: Seq<Seq<Action>>,
    /// The last encoded snapshot.
    pub encoded: Option<Picture>,
    /// What the output file holds.
    pub output: Option<Picture>,
}

/// The answers of the outside to a run: for each action, whether it can be
/// carried out.
pub type Conditions = spec_fn(Action) -> Outcome;

impl Picture {
    /// A newly allocated surface: nothing on it yet.
    pub open spec fn blank(width: int, height: int) -> Picture {
        Picture { width, height, background: None, marks: Seq::empty() }
    }

    /// The surface filled with one colour.
    pub open spec fn cleared(self, color: Color) -> Picture {
        Picture { background: Some(color), marks: Seq::empty(), ..self }
    }

    /// The surface with one more element on it.
    pub open spec fn with_mark(self, mark: Mark) -> Picture {
        Picture { marks: self.marks.push(mark), ..self }
    }
}

impl World {
    /// The world after an element was drawn under the current transform.
    pub open spec fn marked(self, element: Element, asset_read: bool) -> World {
        match self.surface {
            Some(picture) => World {
                surface: Some(
                    picture.with_mark(Mark { element, transform: self.transform, asset_read }),
                ),
                ..self
            },
            None => self,
        }
    }

    /// The world after `action` was attempted with the given outcome.
    ///
    /// A failed action leaves everything as it was, with one exception: an
    /// element with a fallback is drawn even if its input could not be read.
    pub open spec fn after(self, action: Action, outcome: Outcome) -> World {
        if outcome == Outcome::Failed && action.policy() != Policy::Infallible {
            match action {
                Action::Render(element) => if element.has_fallback() {
                    self.marked(element, false)
                } else {
                    self
                },
                _ => self,
            }
        } else {
            match action {
                Action::RequireAsset(_) => self,
                Action::Allocate { width, height } => World {
                    surface: Some(Picture::blank(width as int, height as int)),
                    transform: Seq::empty(),
                    saved: Seq::empty(),
                    ..self
                },
                Action::Clear(color) => match self.surface {
                    Some(picture) => World { surface: Some(picture.cleared(color)), ..self },
                    None => self,
                },
                Action::Save => World { saved: self.saved.push(self.transform), ..self },
                Action::Restore => if self.saved.len() > 0 {
                    World { transform: self.saved.last(), saved: self.saved.drop_last(), ..self }
                } else {
                    self
                },
                Action::Translate { .. } | Action::Scale { .. } => World {
                    transform: self.transform.push(action),
                    ..self
                },
                Action::Render(element) => self.marked(element, true),
                Action::Encode => World { encoded: self.surface, ..self },
                Action::WriteOutput => World { output: self.encoded, ..self },
            }
        }
    }

    /// The world after an element's renderer ran with the given outcome,
    /// the element placed by `placement` on top of the current transform:
    /// an element whose input could not be read leaves no trace, unless it
    /// has a fallback.
    pub open spec fn drawn(
        self,
        element: Element,
        placement: Seq<Action>,
        outcome: Outcome,
    ) -> World {
        if outcome == Outcome::Failed && !element.has_fallback() {
            self
        } else {
            match self.surface {
                Some(picture) => World {
                    surface: Some(
                        picture.with_mark(
                            Mark {
                                element,
                                transform: self.transform + placement,
                                asset_read: outcome == Outcome::Done,
                            },
                        ),
                    ),
                    ..self
                },
                None => self,
            }
        }
    }

    /// The world after all of `actions` were attempted in order, each with
    /// the outcome that `conditions` give it.
    pub open spec fn replay(self, actions: Seq<Action>, conditions: Conditions) -> World
        decreases actions.len(),
    {
        if actions.len() == 0 {
            self
        } else {
            self.after(actions.first(), conditions(actions.first())).replay(
                actions.drop_first(),
                conditions,
            )
        }
    }
}

/// Clearing is idempotent: a surface cleared twice to a colour is the
/// surface cleared once to it, whatever was on it before.
pub proof fn lemma_clear_is_idempotent(world: World, color: Color, conditions: Conditions)
    ensures
        world.replay(seq![Action::Clear(color), Action::Clear(color)], conditions) == world.replay(
            seq![Action::Clear(color)],
            conditions,
        ),
{
    let clear = Action::Clear(color);
    lemma_replay_one(world, clear, conditions);
    lemma_replay_push(world, seq![clear], clear, conditions);
    assert(seq![clear, clear] =~= seq![clear].push(clear));
}

/// Replaying one action is attempting it.
pub proof fn lemma_replay_one(world: World, action: Action, conditions: Conditions)
    ensures
        world.replay(seq![action], conditions) == world.after(action, conditions(action)),
{
    let rest = seq![action].drop_first();
    assert(rest.len() == 0);
    assert(world.after(action, conditions(action)).replay(rest, conditions) == world.after(
        action,
        conditions(action),
    ));
}

/// Replaying a script with one more action at its end is replaying the
/// script and then attempting the action.
pub proof fn lemma_replay_push(
    world: World,
    actions: Seq<Action>,
    action: Action,
    conditions: Conditions,
)
    ensures
        world.replay(actions.push(action), conditions) == world.replay(actions, conditions).after(
            action,
            conditions(action),
        ),
{
    assert(actions.push(action) =~= actions + seq![action]);
    lemma_replay_concat(world, actions, seq![action], conditions);
    lemma_replay_one(world.replay(actions, conditions), action, conditions);
}

/// Replaying two scripts one after the other is replaying their
/// concatenation.
pub proof fn lemma_replay_concat(
    world: World,
    first: Seq<Action>,
    second: Seq<Action>,
    conditions: Conditions,
)
    ensures
        world.replay(first + second, conditions) == world.replay(first, conditions).replay(
            second,
            conditions,
        ),
    decreases first.len(),
{
    if first.len() == 0 {
        assert(first + second =~= second);
    } else {
        let next = world.after(first.first(), conditions(first.first()));
        assert((first + second).first() == first.first());
        assert((first + second).drop_first() =~= first.drop_first() + second);
        lemma_replay_concat(next, first.drop_first(), second, conditions);
    }
}

} // verus!
