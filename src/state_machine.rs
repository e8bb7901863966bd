//! A pushdown automaton of game states: only the top state is live, the ones
//! beneath it are paused until they become the top again.

use plank_ecs::{Dispatcher, World};
use vstd::prelude::*;

verus! {

/// A lifecycle hook, or the per-frame update call, delivered to a state.
#[derive(Clone, Copy, PartialEq, Eq, Debug, Structural)]
pub enum Hook {
    Start,
    Stop,
    Pause,
    Resume,
    Update,
}

/// The shape of a transition, without the state it may carry.
#[derive(Clone, Copy, PartialEq, Eq, Debug, Structural)]
pub enum TransKind {
    Continue,
    Pop,
    Push,
    Switch,
    Quit,
}

/// What a state asks of the machine at the end of its update.
pub enum Trans<S> {
    /// Keep going.
    Continue,
    /// Stop and remove the top state, resuming the one beneath.
    Pop,
    /// Pause the top state and start the given one above it.
    Push(S),
    /// Stop and remove the top state, then start the given one in its place.
    Switch(S),
    /// Stop every state, top to bottom, and halt.
    Quit,
}

impl<S> Trans<S> {
    pub open spec fn kind(&self) -> TransKind {
        match self {
            Trans::Continue => TransKind::Continue,
            Trans::Pop => TransKind::Pop,
            Trans::Push(_) => TransKind::Push,
            Trans::Switch(_) => TransKind::Switch,
            Trans::Quit => TransKind::Quit,
        }
    }

    /// The shape of this transition.
    pub fn trans_kind(&self) -> (r: TransKind)
        ensures
            r == self.kind(),
    {
        match self {
            Trans::Continue => TransKind::Continue,
            Trans::Pop => TransKind::Pop,
            Trans::Push(_) => TransKind::Push,
            Trans::Switch(_) => TransKind::Switch,
            Trans::Quit => TransKind::Quit,
        }
    }
}

/// A game state. Every call gets the shared world, the system dispatcher and
/// the rendering context `T` for its duration only.
pub trait State<T>: Sized {
    fn on_start(&mut self, world: &mut World, dispatcher: &mut Dispatcher, ctx: &mut T);

    fn on_stop(&mut self, world: &mut World, dispatcher: &mut Dispatcher, ctx: &mut T);

    fn on_pause(&mut self, world: &mut World, dispatcher: &mut Dispatcher, ctx: &mut T);

    fn on_resume(&mut self, world: &mut World, dispatcher: &mut Dispatcher, ctx: &mut T);

    fn update(&mut self, world: &mut World, dispatcher: &mut Dispatcher, ctx: &mut T) -> Trans<Self>;
}

/// A hook delivered to the state at the given stack index (0 is the bottom).
pub type HookCall = (Hook, nat);

/// The stack depth after a transition of kind `k` at depth `d`.
pub open spec fn new_depth(d: nat, k: TransKind) -> nat {
    match k {
        TransKind::Continue => d,
        TransKind::Pop => (d - 1) as nat,
        TransKind::Push => d + 1,
        TransKind::Switch => d,
        TransKind::Quit => 0,
    }
}

/// How many states at the bottom of a stack of depth `d` a transition of
/// kind `k` leaves untouched.
pub open spec fn untouched(d: nat, k: TransKind) -> nat {
    match k {
        TransKind::Continue => d,
        TransKind::Pop => if d >= 2 { (d - 2) as nat } else { 0 },
        TransKind::Push => (d - 1) as nat,
        TransKind::Switch => (d - 1) as nat,
        TransKind::Quit => 0,
    }
}

/// `on_stop` on every state of a stack of depth `d`, top to bottom.
pub open spec fn stop_all(d: nat) -> Seq<HookCall> {
    Seq::new(d, |i: int| (Hook::Stop, (d - 1 - i) as nat))
}

/// The hooks that a transition of kind `k` delivers on a stack of depth `d`.
pub open spec fn transition_hooks(d: nat, k: TransKind) -> Seq<HookCall> {
    match k {
        TransKind::Continue => seq![],
        TransKind::Pop => if d > 1 {
            seq![(Hook::Stop, (d - 1) as nat), (Hook::Resume, (d - 2) as nat)]
        } else {
            seq![(Hook::Stop, (d - 1) as nat)]
        },
        TransKind::Push => seq![(Hook::Pause, (d - 1) as nat), (Hook::Start, d)],
        TransKind::Switch => seq![(Hook::Stop, (d - 1) as nat), (Hook::Start, (d - 1) as nat)],
        TransKind::Quit => stop_all(d),
    }
}

/// The first `n` entries of both stacks are the same states.
pub open spec fn same_bottom<S>(a: Seq<S>, b: Seq<S>, n: nat) -> bool {
    n <= a.len() && n <= b.len() && a.subrange(0, n as int) == b.subrange(0, n as int)
}

/// `after` is `before` once `apply` has run on a transition of kind `k`.
pub open spec fn apply_step<S>(before: StateMachine<S>, after: StateMachine<S>, k: TransKind) -> bool {
    &&& after.wf()
    &&& after.started() == before.started()
    &&& if before.started() && before.stack().len() > 0 {
        let d = before.stack().len();
        &&& after.stack().len() == new_depth(d, k)
        &&& same_bottom(after.stack(), before.stack(), untouched(d, k))
        &&& after.history() == before.history() + transition_hooks(d, k)
    } else {
        after == before
    }
}

/// `after` is `before` once `update` has run and applied a transition of
/// kind `k`: the top state got its update, then the hooks of the transition.
pub open spec fn update_step<S>(before: StateMachine<S>, after: StateMachine<S>, k: TransKind) -> bool {
    &&& after.wf()
    &&& after.started() == before.started()
    &&& if before.started() && before.stack().len() > 0 {
        let d = before.stack().len();
        &&& after.stack().len() == new_depth(d, k)
        &&& same_bottom(
            after.stack(),
            before.stack(),
            if k == TransKind::Continue { (d - 1) as nat } else { untouched(d, k) },
        )
        &&& after.history() == before.history().push((Hook::Update, (d - 1) as nat))
            + transition_hooks(d, k)
    } else {
        after == before && k == TransKind::Continue
    }
}

/// `after` is `before` once `stop` has run: every state stopped, top first.
pub open spec fn stop_step<S>(before: StateMachine<S>, after: StateMachine<S>) -> bool {
    &&& after.wf()
    &&& after.started() == before.started()
    &&& if before.started() {
        &&& after.stack().len() == 0
        &&& after.history() == before.history() + stop_all(before.stack().len())
    } else {
        after == before
    }
}

/// A stack of game states and the record of every hook it delivered.
pub struct StateMachine<S> {
    stack: Vec<S>,
    started: bool,
    history: Ghost<Seq<HookCall>>,
}

impl<S> StateMachine<S> {
    /// The states, bottom first.
    pub closed spec fn stack(&self) -> Seq<S> {
        self.stack@
    }

    /// Whether `start` has run.
    pub closed spec fn started(&self) -> bool {
        self.started
    }

    /// Every hook delivered so far, in order.
    pub closed spec fn history(&self) -> Seq<HookCall> {
        self.history@
    }

    /// Before `start` the machine holds exactly its initial state.
    pub closed spec fn wf(&self) -> bool {
        !self.started ==> self.stack@.len() == 1 && self.history@.len() == 0
    }

    /// A machine holding `initial_state`, not yet started.
    pub fn new(initial_state: S) -> (r: Self)
        ensures
            r.wf(),
            !r.started(),
            r.stack() == seq![initial_state],
            r.history() == Seq::<HookCall>::empty(),
    {
        let mut stack: Vec<S> = Vec::new();
        stack.push(initial_state);
        StateMachine { stack, started: false, history: Ghost(Seq::empty()) }
    }

    /// Whether any state is left on the stack.
    pub fn is_running(&self) -> (r: bool)
        ensures
            r == (self.stack().len() > 0),
    {
        self.stack.len() > 0
    }

    /// The number of states on the stack.
    pub fn depth(&self) -> (r: usize)
        ensures
            r == self.stack().len(),
    {
        self.stack.len()
    }

    /// Delivers `hook` to the top state.
    fn call_top<T>(&mut self, hook: Hook, world: &mut World, dispatcher: &mut Dispatcher, ctx: &mut T)
        where S: State<T>,
        requires
            old(self).stack@.len() > 0,
            hook != Hook::Update,
        ensures
            final(self).stack@.len() == old(self).stack@.len(),
            same_bottom(final(self).stack@, old(self).stack@, (old(self).stack@.len() - 1) as nat),
            final(self).started == old(self).started,
            final(self).history@ == old(self).history@.push((hook, (old(self).stack@.len() - 1) as nat)),
    {
        let mut top = self.stack.pop().unwrap();
        match hook {
            Hook::Start => top.on_start(world, dispatcher, ctx),
            Hook::Stop => top.on_stop(world, dispatcher, ctx),
            Hook::Pause => top.on_pause(world, dispatcher, ctx),
            Hook::Resume => top.on_resume(world, dispatcher, ctx),
            Hook::Update => {},
        }
        self.stack.push(top);
        self.history = Ghost(self.history@.push((hook, (self.stack@.len() - 1) as nat)));
        proof {
            assert(self.stack@.subrange(0, self.stack@.len() - 1) =~= old(self).stack@.subrange(
                0,
                old(self).stack@.len() - 1,
            ));
        }
    }

    /// Starts the initial state; does nothing once the machine has started.
    pub fn start<T>(&mut self, world: &mut World, dispatcher: &mut Dispatcher, ctx: &mut T)
        where S: State<T>,
        requires
            old(self).wf(),
        ensures
            final(self).wf(),
            final(self).started(),
            old(self).started() ==> *final(self) == *old(self),
            !old(self).started() ==> {
                &&& final(self).stack().len() == 1
                &&& final(self).history() == seq![(Hook::Start, 0nat)]
            },
    {
        if !self.started {
            self.call_top(Hook::Start, world, dispatcher, ctx);
            self.started = true;
            proof {
                assert(self.history@ =~= seq![(Hook::Start, 0nat)]);
            }
        }
    }

    /// Applies a transition to a started, running machine; does nothing
    /// otherwise. The hooks it delivers are those of `transition_hooks`, in
    /// that order, and only the states it names are touched.
    pub fn apply<T>(&mut self, trans: Trans<S>, world: &mut World, dispatcher: &mut Dispatcher, ctx: &mut T)
        where S: State<T>,
        requires
            old(self).wf(),
        ensures
            apply_step(*old(self), *final(self), trans.kind()),
    {
        if !self.started || self.stack.len() == 0 {
            return;
        }
        let ghost d = self.stack@.len();
        let ghost k = trans.kind();
        match trans {
            Trans::Continue => {
                assert(self.history@ =~= old(self).history@ + transition_hooks(d, k));
                assert(self.stack@.subrange(0, d as int) =~= old(self).stack@.subrange(0, d as int));
            },
            Trans::Pop => {
                self.call_top(Hook::Stop, world, dispatcher, ctx);
                let _ = self.stack.pop();
                if self.stack.len() > 0 {
                    self.call_top(Hook::Resume, world, dispatcher, ctx);
                }
                assert(self.history@ =~= old(self).history@ + transition_hooks(d, k));
                assert(self.stack@.subrange(0, untouched(d, k) as int) =~= old(self).stack@.subrange(
                    0,
                    untouched(d, k) as int,
                ));
            },
            Trans::Push(state) => {
                self.call_top(Hook::Pause, world, dispatcher, ctx);
                self.stack.push(state);
                self.call_top(Hook::Start, world, dispatcher, ctx);
                assert(self.history@ =~= old(self).history@ + transition_hooks(d, k));
                assert(self.stack@.subrange(0, untouched(d, k) as int) =~= old(self).stack@.subrange(
                    0,
                    untouched(d, k) as int,
                ));
            },
            Trans::Switch(state) => {
                self.call_top(Hook::Stop, world, dispatcher, ctx);
                let _ = self.stack.pop();
                self.stack.push(state);
                self.call_top(Hook::Start, world, dispatcher, ctx);
                assert(self.history@ =~= old(self).history@ + transition_hooks(d, k));
                assert(self.stack@.subrange(0, untouched(d, k) as int) =~= old(self).stack@.subrange(
                    0,
                    untouched(d, k) as int,
                ));
            },
            Trans::Quit => {
                self.stop(world, dispatcher, ctx);
                assert(self.stack@.subrange(0, 0) =~= old(self).stack@.subrange(0, 0));
            },
        }
    }

    /// Delivers one `update` to the top state of a started, running machine
    /// and applies the transition it returns, whose kind is the result.
    /// Does nothing otherwise.
    pub fn update<T>(&mut self, world: &mut World, dispatcher: &mut Dispatcher, ctx: &mut T) -> (r: TransKind)
        where S: State<T>,
        requires
            old(self).wf(),
        ensures
            update_step(*old(self), *final(self), r),
    {
        if !self.started || self.stack.len() == 0 {
            return TransKind::Continue;
        }
        let ghost d = self.stack@.len();
        let mut top = self.stack.pop().unwrap();
        let trans = top.update(world, dispatcher, ctx);
        self.stack.push(top);
        self.history = Ghost(self.history@.push((Hook::Update, (self.stack@.len() - 1) as nat)));
        let ghost mid = self.stack@;
        assert(mid.subrange(0, d - 1) =~= old(self).stack@.subrange(0, d - 1));
        let k = trans.trans_kind();
        self.apply(trans, world, dispatcher, ctx);
        proof {
            let n = if k == TransKind::Continue { (d - 1) as nat } else { untouched(d, k) };
            assert(self.stack@.subrange(0, n as int) =~= mid.subrange(0, n as int));
            assert(mid.subrange(0, n as int) =~= old(self).stack@.subrange(0, n as int));
        }
        k
    }

    /// Removes every state, calling `on_stop` on each from the top down.
    /// Does nothing before `start`.
    pub fn stop<T>(&mut self, world: &mut World, dispatcher: &mut Dispatcher, ctx: &mut T)
        where S: State<T>,
        requires
            old(self).wf(),
        ensures
            stop_step(*old(self), *final(self)),
    {
        if self.started {
            let ghost d = self.stack@.len();
            while self.stack.len() > 0
                invariant
                    self.started == old(self).started,
                    self.stack@.len() <= d,
                    d == old(self).stack@.len(),
                    self.history@ == old(self).history@ + stop_all(d).subrange(
                        0,
                        d - self.stack@.len(),
                    ),
                decreases self.stack@.len(),
            {
                let ghost before = self.stack@.len();
                let mut top = self.stack.pop().unwrap();
                top.on_stop(world, dispatcher, ctx);
                self.history = Ghost(self.history@.push((Hook::Stop, self.stack@.len() as nat)));
                proof {
                    assert(stop_all(d).subrange(0, d - self.stack@.len()) =~= stop_all(d).subrange(
                        0,
                        d - before,
                    ).push((Hook::Stop, self.stack@.len() as nat)));
                }
            }
            proof {
                assert(stop_all(d).subrange(0, d as int) =~= stop_all(d));
            }
        }
    }
}

} // verus!
