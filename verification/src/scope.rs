//! The transform scope: a save before an element is placed and a restore
//! after it, so that no element's placement reaches the next one.
//!
//! Scopes nest to any depth. Whatever is recorded between `enter` and
//! `exit`, and however it turns out when the script is carried out, the
//! transform and the stack of saved transforms are afterwards what they
//! were before, provided only that the scopes inside are themselves
//! closed.

use crate::action::Action;
use crate::model::{lemma_replay_concat, lemma_replay_one, Conditions, World};
use vstd::prelude::*;

verus! {

/// Opens a scope: records the push of the current transform.
pub fn enter(script: &mut Vec<Action>)
    ensures
        final(script)@ == old(script)@.push(Action::Save),
{
    script.push(Action::Save);
}

/// Closes the innermost open scope: records the pop that brings back the
/// transform of the matching `enter`.
pub fn exit(script: &mut Vec<Action>)
    ensures
        final(script)@ == old(script)@.push(Action::Restore),
{
    script.push(Action::Restore);
}

/// `inner` in a scope of its own.
pub open spec fn scoped(inner: Seq<Action>) -> Seq<Action> {
    seq![Action::Save] + inner + seq![Action::Restore]
}

/// By how much an action changes the number of open scopes.
pub open spec fn depth_change(action: Action) -> int {
    match action {
        Action::Save => 1,
        Action::Restore => -1,
        _ => 0,
    }
}

/// The number of scopes that `actions` open and leave open; negative if
/// they close more than they open.
pub open spec fn depth(actions: Seq<Action>) -> int
    decreases actions.len(),
{
    if actions.len() == 0 {
        0
    } else {
        depth(actions.drop_last()) + depth_change(actions.last())
    }
}

/// The actions close no scope but their own and start no new surface.
pub open spec fn stays_inside(actions: Seq<Action>) -> bool {
    &&& forall|k: int| 0 <= k <= actions.len() ==> #[trigger] depth(actions.take(k)) >= 0
    &&& forall|i: int| 0 <= i < actions.len() ==> !(#[trigger] actions[i] is Allocate)
}

/// The actions stay inside and close every scope that they open.
pub open spec fn well_nested(actions: Seq<Action>) -> bool {
    stays_inside(actions) && depth(actions) == 0
}

/// The depth of two scripts in a row is the sum of their depths.
pub proof fn lemma_depth_concat(first: Seq<Action>, second: Seq<Action>)
    ensures
        depth(first + second) == depth(first) + depth(second),
    decreases second.len(),
{
    if second.len() == 0 {
        assert(first + second =~= first);
    } else {
        assert((first + second).drop_last() =~= first + second.drop_last());
        assert((first + second).last() == second.last());
        lemma_depth_concat(first, second.drop_last());
    }
}

/// Actions that open and close no scope and start no surface are well
/// nested.
pub proof fn lemma_flat_is_well_nested(actions: Seq<Action>)
    requires
        forall|i: int| 0 <= i < actions.len() ==> depth_change(#[trigger] actions[i]) == 0,
        forall|i: int| 0 <= i < actions.len() ==> !(#[trigger] actions[i] is Allocate),
    ensures
        well_nested(actions),
        forall|k: int| 0 <= k <= actions.len() ==> #[trigger] depth(actions.take(k)) == 0,
    decreases actions.len(),
{
    if actions.len() == 0 {
        assert forall|k: int| 0 <= k <= actions.len() implies #[trigger] depth(actions.take(k))
            == 0 by {
            assert(actions.take(k) =~= actions);
        }
    } else {
        let init = actions.drop_last();
        lemma_flat_is_well_nested(init);
        assert(init.take(init.len() as int) =~= init);
        assert(depth_change(actions[actions.len() - 1]) == 0);
        assert forall|k: int| 0 <= k <= actions.len() implies #[trigger] depth(actions.take(k))
            == 0 by {
            if k < actions.len() {
                assert(actions.take(k) =~= init.take(k));
            } else {
                assert(actions.take(k) =~= actions);
            }
        }
        assert(actions.take(actions.len() as int) =~= actions);
    }
}

/// Actions that stay inside leave the transforms saved before them alone:
/// afterwards the stack holds what it held, and on top of it one transform
/// for each scope still open.
pub proof fn lemma_inside_keeps_saved(world: World, actions: Seq<Action>, conditions: Conditions)
    requires
        stays_inside(actions),
    ensures
        world.replay(actions, conditions).saved.len() == world.saved.len() + depth(actions),
        world.replay(actions, conditions).saved.take(world.saved.len() as int) == world.saved,
    decreases actions.len(),
{
    if actions.len() == 0 {
        assert(world.saved.take(world.saved.len() as int) =~= world.saved);
    } else {
        let init = actions.drop_last();
        let last = actions.last();
        assert(stays_inside(init)) by {
            assert forall|k: int| 0 <= k <= init.len() implies #[trigger] depth(init.take(k))
                >= 0 by {
                assert(init.take(k) =~= actions.take(k));
            }
            assert forall|i: int| 0 <= i < init.len() implies !(#[trigger] init[i] is Allocate) by {
                assert(init[i] == actions[i]);
            }
        }
        lemma_inside_keeps_saved(world, init, conditions);
        assert(actions =~= init + seq![last]);
        lemma_replay_concat(world, init, seq![last], conditions);
        let before = world.replay(init, conditions);
        lemma_replay_one(before, last, conditions);
        let after = before.after(last, conditions(last));
        assert(world.replay(actions, conditions) == after);
        assert(actions.take(actions.len() as int) =~= actions);
        assert(depth(actions) >= 0);
        assert(!(actions[actions.len() - 1] is Allocate));
        assert(after.saved.take(world.saved.len() as int) =~= world.saved);
    }
}

/// The law of the transform scope: after a scope is entered, anything that
/// is well nested is done inside it, and it is left again, the transform
/// and the saved transforms are exactly what they were, whatever was drawn
/// in between and whether it succeeded.
pub proof fn lemma_scope_restores(world: World, inner: Seq<Action>, conditions: Conditions)
    requires
        well_nested(inner),
    ensures
        world.replay(scoped(inner), conditions).transform == world.transform,
        world.replay(scoped(inner), conditions).saved == world.saved,
{
    let opened = world.after(Action::Save, conditions(Action::Save));
    lemma_replay_one(world, Action::Save, conditions);
    lemma_replay_concat(world, seq![Action::Save], inner, conditions);
    lemma_replay_concat(world, seq![Action::Save] + inner, seq![Action::Restore], conditions);
    let done = opened.replay(inner, conditions);
    lemma_inside_keeps_saved(opened, inner, conditions);
    lemma_replay_one(done, Action::Restore, conditions);
    assert(done.saved =~= done.saved.take(opened.saved.len() as int));
    assert(done.saved == world.saved.push(world.transform));
    let closed = done.after(Action::Restore, conditions(Action::Restore));
    assert(closed.saved =~= world.saved);
}

/// A scope around well-nested actions is itself well nested, so scopes may
/// stand inside scopes to any depth.
pub proof fn lemma_scoped_is_well_nested(inner: Seq<Action>)
    requires
        well_nested(inner),
    ensures
        well_nested(scoped(inner)),
{
    let open = seq![Action::Save];
    let close = seq![Action::Restore];
    let whole = scoped(inner);
    assert(depth(open) == 1) by {
        assert(open.drop_last() =~= Seq::<Action>::empty());
        assert(depth(open.drop_last()) == 0);
    }
    assert(depth(close) == -1) by {
        assert(close.drop_last() =~= Seq::<Action>::empty());
        assert(depth(close.drop_last()) == 0);
    }
    lemma_depth_concat(open, inner);
    lemma_depth_concat(open + inner, close);
    assert forall|k: int| 0 <= k <= whole.len() implies #[trigger] depth(whole.take(k)) >= 0 by {
        if k == 0 {
            assert(whole.take(k) =~= Seq::<Action>::empty());
        } else if k <= inner.len() + 1 {
            assert(whole.take(k) =~= open + inner.take(k - 1));
            lemma_depth_concat(open, inner.take(k - 1));
        } else {
            assert(whole.take(k) =~= whole);
        }
    }
    assert forall|i: int| 0 <= i < whole.len() implies !(#[trigger] whole[i] is Allocate) by {
        if 1 <= i <= inner.len() {
            assert(whole[i] == inner[i - 1]);
        }
    }
}

/// Well-nested actions followed by well-nested actions are well nested.
pub proof fn lemma_well_nested_concat(first: Seq<Action>, second: Seq<Action>)
    requires
        well_nested(first),
        well_nested(second),
    ensures
        well_nested(first + second),
{
    let whole = first + second;
    lemma_depth_concat(first, second);
    assert forall|k: int| 0 <= k <= whole.len() implies #[trigger] depth(whole.take(k)) >= 0 by {
        if k <= first.len() {
            assert(whole.take(k) =~= first.take(k));
        } else {
            assert(whole.take(k) =~= first + second.take(k - first.len()));
            lemma_depth_concat(first, second.take(k - first.len()));
        }
    }
    assert forall|i: int| 0 <= i < whole.len() implies !(#[trigger] whole[i] is Allocate) by {
        if i < first.len() {
            assert(whole[i] == first[i]);
        } else {
            assert(whole[i] == second[i - first.len()]);
        }
    }
}

} // verus!
