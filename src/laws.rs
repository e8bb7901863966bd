//! Properties of the state machine that span several transitions.

use crate::state_machine::{
    apply_step, new_depth, same_bottom, stop_all, transition_hooks, untouched, Hook, StateMachine,
    TransKind,
};
use vstd::prelude::*;

verus! {

/// The depth reached from depth `d` by the transitions `ks`, in order.
pub open spec fn depth_after(d: nat, ks: Seq<TransKind>) -> nat
    decreases ks.len(),
{
    if ks.len() == 0 {
        d
    } else {
        new_depth(depth_after(d, ks.drop_last()), ks.last())
    }
}

/// Pushes minus pops among the transitions `ks`.
pub open spec fn net_pushes(ks: Seq<TransKind>) -> int
    decreases ks.len(),
{
    if ks.len() == 0 {
        0
    } else {
        net_pushes(ks.drop_last()) + match ks.last() {
            TransKind::Push => 1int,
            TransKind::Pop => -1int,
            _ => 0int,
        }
    }
}

/// Every transition in `ks` is a push, a pop or a switch.
pub open spec fn stack_ops_only(ks: Seq<TransKind>) -> bool {
    forall|i: int|
        0 <= i < ks.len() ==> ks[i] == TransKind::Push || ks[i] == TransKind::Pop || ks[i]
            == TransKind::Switch
}

/// Starting from one state, every transition of `ks` meets a non-empty stack.
pub open spec fn stays_running(ks: Seq<TransKind>) -> bool {
    forall|i: int| 0 <= i < ks.len() ==> depth_after(1, ks.subrange(0, i)) > 0
}

/// From one state, a run of pushes, pops and switches that never meets an
/// empty stack ends at depth one plus the pushes minus the pops; a switch
/// counts as a pop and a push, so it leaves the depth as it was.
pub proof fn lemma_depth_counts(ks: Seq<TransKind>)
    requires
        stack_ops_only(ks),
        stays_running(ks),
    ensures
        depth_after(1, ks) == 1 + net_pushes(ks),
    decreases ks.len(),
{
    if ks.len() > 0 {
        let p = ks.drop_last();
        assert forall|i: int| 0 <= i < p.len() implies depth_after(1, p.subrange(0, i)) > 0 by {
            assert(p.subrange(0, i) =~= ks.subrange(0, i));
        }
        assert forall|i: int|
            0 <= i < p.len() implies p[i] == TransKind::Push || p[i] == TransKind::Pop || p[i]
            == TransKind::Switch by {
            assert(p[i] == ks[i]);
        }
        lemma_depth_counts(p);
        assert(ks.subrange(0, ks.len() - 1) =~= p);
    }
}

/// Quitting at depth `d` empties the stack with exactly `d` calls of
/// `on_stop`, one per state, from the top down, and nothing else.
pub proof fn lemma_quit_stops_every_state<S>(before: StateMachine<S>, after: StateMachine<S>)
    requires
        before.started(),
        apply_step(before, after, TransKind::Quit),
    ensures
        after.stack().len() == 0,
        after.history() == before.history() + stop_all(before.stack().len()),
        stop_all(before.stack().len()).len() == before.stack().len(),
        forall|i: int|
            0 <= i < before.stack().len() ==> #[trigger] stop_all(before.stack().len())[i] == (
                Hook::Stop,
                (before.stack().len() - 1 - i) as nat,
            ),
{
    let d = before.stack().len();
    if d == 0 {
        assert(after.history() =~= before.history() + stop_all(d));
    }
}

/// A push followed at once by a pop brings back the depth and the states
/// beneath the pushed one; the state that was on top is paused, then resumed
/// exactly once, and the pushed state is started and stopped with no update
/// in between.
pub proof fn lemma_push_then_pop<S>(
    first: StateMachine<S>,
    second: StateMachine<S>,
    third: StateMachine<S>,
)
    requires
        first.started(),
        first.stack().len() > 0,
        apply_step(first, second, TransKind::Push),
        apply_step(second, third, TransKind::Pop),
    ensures
        third.stack().len() == first.stack().len(),
        same_bottom(third.stack(), first.stack(), (first.stack().len() - 1) as nat),
        third.history() == first.history() + seq![
            (Hook::Pause, (first.stack().len() - 1) as nat),
            (Hook::Start, first.stack().len() as nat),
            (Hook::Stop, first.stack().len() as nat),
            (Hook::Resume, (first.stack().len() - 1) as nat),
        ],
{
    let d = first.stack().len();
    let n = (d - 1) as nat;
    assert(untouched(d + 1, TransKind::Pop) == n);
    assert(third.stack().subrange(0, n as int) =~= second.stack().subrange(0, n as int));
    assert(second.stack().subrange(0, n as int) =~= first.stack().subrange(0, n as int));
    assert(third.history() =~= first.history() + seq![
        (Hook::Pause, n),
        (Hook::Start, d as nat),
        (Hook::Stop, d as nat),
        (Hook::Resume, n),
    ]);
}

/// A switch never resumes a state, whatever the depth, and so in particular
/// not on a stack of one state, where nothing lies beneath.
pub proof fn lemma_switch_never_resumes<S>(before: StateMachine<S>, after: StateMachine<S>)
    requires
        apply_step(before, after, TransKind::Switch),
    ensures
        forall|i: int|
            before.history().len() <= i < after.history().len() ==> after.history()[i].0
                != Hook::Resume,
{
}

} // verus!
