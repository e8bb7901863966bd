//! A small frame-driven game runtime: a pushdown state machine for game
//! states and a per-frame driver that drains input, runs the ECS systems and
//! advances the active state.

pub mod ecs;
pub mod frame;
pub mod laws;
pub mod state_machine;

pub use frame::{after_systems, chars_before_close, drain_input, has_close, mini_frame, FrameEnd, FrameError, InputEvent};
pub use state_machine::{Hook, State, StateMachine, Trans, TransKind};
