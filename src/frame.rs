//! One frame of the game loop: drain the input, run the systems, advance the
//! state machine, apply the deferred world changes.

use crate::ecs::{maintain, push_char};
use crate::state_machine::{stop_step, update_step, State, StateMachine, TransKind};
use plank_ecs::{Dispatcher, EcsError, World};
use vstd::prelude::*;

verus! {

/// An input event, as drained from the input queue.
#[derive(Clone, Copy, PartialEq, Eq, Debug, Structural)]
pub enum InputEvent {
    Character(char),
    CloseRequested,
    Other,
}

/// Whether a close request is among the events.
pub open spec fn has_close(events: Seq<InputEvent>) -> bool {
    exists|i: int| 0 <= i < events.len() && events[i] == InputEvent::CloseRequested
}

/// The characters typed before the first close request, in order.
pub open spec fn chars_before_close(events: Seq<InputEvent>) -> Seq<char>
    decreases events.len(),
{
    if events.len() == 0 {
        Seq::empty()
    } else {
        match events[0] {
            InputEvent::Character(c) => seq![c] + chars_before_close(events.drop_first()),
            InputEvent::CloseRequested => Seq::empty(),
            InputEvent::Other => chars_before_close(events.drop_first()),
        }
    }
}

/// Classifies one frame's events: the characters typed before the first
/// close request, and whether a close was requested. Events after a close
/// request are not looked at.
pub fn drain_input(events: &Vec<InputEvent>) -> (r: (Vec<char>, bool))
    ensures
        r.0@ == chars_before_close(events@),
        r.1 == has_close(events@),
{
    let mut chars: Vec<char> = Vec::new();
    let mut i: usize = 0;
    assert(events@.subrange(0, events@.len() as int) =~= events@);
    assert(chars@ + chars_before_close(events@) =~= chars_before_close(events@));
    while i < events.len()
        invariant
            i <= events@.len(),
            chars_before_close(events@) == chars@ + chars_before_close(
                events@.subrange(i as int, events@.len() as int),
            ),
            forall|j: int| 0 <= j < i ==> events@[j] != InputEvent::CloseRequested,
        decreases events@.len() - i,
    {
        let ghost rest = events@.subrange(i as int, events@.len() as int);
        assert(rest.drop_first() =~= events@.subrange(i + 1, events@.len() as int));
        assert(rest[0] == events@[i as int]);
        match events[i] {
            InputEvent::Character(c) => {
                chars.push(c);
                assert(chars_before_close(events@) == chars@ + chars_before_close(
                    events@.subrange(i + 1, events@.len() as int),
                ));
            },
            InputEvent::CloseRequested => {
                assert(chars@ + Seq::<char>::empty() =~= chars@);
                return (chars, true);
            },
            InputEvent::Other => {},
        }
        i += 1;
    }
    assert(events@.subrange(i as int, events@.len() as int) =~= Seq::<InputEvent>::empty());
    assert(chars@ + Seq::<char>::empty() =~= chars@);
    (chars, false)
}

/// How a frame that did not fail ended.
#[derive(Clone, Copy, PartialEq, Eq, Debug, Structural)]
pub enum FrameEnd {
    /// A close request stopped the state machine; nothing else ran.
    Closed,
    /// The systems ran and the state machine applied a transition of this kind.
    Ticked(TransKind),
}

/// Why a frame failed.
pub enum FrameError {
    /// The character buffer resource could not be borrowed.
    CharBuffer(EcsError),
    /// A system failed while the dispatcher ran.
    Dispatch(EcsError),
}

impl FrameError {
    pub open spec fn is_char_buffer(&self) -> bool {
        self is CharBuffer
    }

    pub open spec fn is_dispatch(&self) -> bool {
        self is Dispatch
    }
}

/// The rest of a frame once the systems have run with outcome `systems`: a
/// failure ends the frame and leaves the state machine as it was; on success
/// the state machine gets one update and the world's deferred changes are
/// applied.
pub fn after_systems<S, T>(
    systems: Result<(), EcsError>,
    world: &mut World,
    dispatcher: &mut Dispatcher,
    ctx: &mut T,
    state_machine: &mut StateMachine<S>,
) -> (r: Result<TransKind, FrameError>)
    where S: State<T>,
    requires
        old(state_machine).wf(),
    ensures
        final(state_machine).wf(),
        systems matches Err(e) ==> {
            &&& r == Err::<TransKind, FrameError>(FrameError::Dispatch(e))
            &&& *final(state_machine) == *old(state_machine)
        },
        systems is Ok ==> (r matches Ok(k) && update_step(
            *old(state_machine),
            *final(state_machine),
            k,
        )),
{
    match systems {
        Ok(()) => {
            let k = state_machine.update(world, dispatcher, ctx);
            maintain(world);
            Ok(k)
        },
        Err(e) => Err(FrameError::Dispatch(e)),
    }
}

/// Runs one frame. The characters typed before any close request go to the
/// world's character buffer, in order. A close request then stops the state
/// machine, and neither the systems nor the states' update run. Otherwise
/// the systems run once; if they succeed, the state machine gets one update
/// and the world's deferred changes are applied. Every failure ends the frame
/// and leaves the state machine as it was.
pub fn mini_frame<S, T>(
    world: &mut World,
    dispatcher: &mut Dispatcher,
    ctx: &mut T,
    events: &Vec<InputEvent>,
    state_machine: &mut StateMachine<S>,
) -> (r: Result<FrameEnd, FrameError>)
    where S: State<T>,
    requires
        old(state_machine).wf(),
    ensures
        final(state_machine).wf(),
        r is Err ==> *final(state_machine) == *old(state_machine),
        r matches Err(e) && e.is_char_buffer() ==> chars_before_close(events@).len() > 0,
        r matches Err(e) && e.is_dispatch() ==> !has_close(events@),
        has_close(events@) && r is Ok ==> r == Ok::<FrameEnd, FrameError>(FrameEnd::Closed),
        r == Ok::<FrameEnd, FrameError>(FrameEnd::Closed) ==> {
            &&& has_close(events@)
            &&& stop_step(*old(state_machine), *final(state_machine))
        },
        r matches Ok(FrameEnd::Ticked(k)) ==> {
            &&& !has_close(events@)
            &&& update_step(*old(state_machine), *final(state_machine), k)
        },
{
    let (chars, close) = drain_input(events);
    let mut i: usize = 0;
    while i < chars.len()
        invariant
            i <= chars@.len(),
            chars@ == chars_before_close(events@),
            close == has_close(events@),
            *state_machine == *old(state_machine),
            state_machine.wf(),
        decreases chars@.len() - i,
    {
        match push_char(world, chars[i]) {
            Ok(()) => {},
            Err(e) => {
                return Err(FrameError::CharBuffer(e));
            },
        }
        i += 1;
    }
    if close {
        state_machine.stop(world, dispatcher, ctx);
        return Ok(FrameEnd::Closed);
    }
    let systems = dispatcher.run_seq(world);
    match after_systems(systems, world, dispatcher, ctx, state_machine) {
        Ok(k) => Ok(FrameEnd::Ticked(k)),
        Err(e) => Err(e),
    }
}

} // verus!
