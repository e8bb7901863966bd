//! The parts of plank_ecs that the frame driver calls.

use plank_ecs::{Dispatcher, EcsError, World, WorldExt};
use vstd::prelude::*;

verus! {

/// plank_ecs's resource store, carried through opaquely.
#[verifier::external_type_specification]
#[verifier::external_body]
pub struct ExWorld(World);

/// plank_ecs's system dispatcher, carried through opaquely.
#[verifier::external_type_specification]
#[verifier::external_body]
pub struct ExDispatcher(Dispatcher);

/// plank_ecs's error type, carried through opaquely.
#[verifier::external_type_specification]
#[verifier::external_body]
pub struct ExEcsError(EcsError);

/// Relies on `Dispatcher::run_seq`: runs every registered system once, one
/// after the other, and reports the failures of a stage as an error.
pub assume_specification[ Dispatcher::run_seq ](
    dispatcher: &mut Dispatcher,
    world: &World,
) -> Result<(), EcsError>;

/// Relies on `World::get_mut::<Vec<char>>`: borrows the character buffer
/// resource, which fails when it was never initialised or is already
/// borrowed; on success the character is appended to it.
#[verifier::external_body]
pub(crate) fn push_char(world: &World, c: char) -> (r: Result<(), EcsError>) {
    match world.get_mut::<Vec<char>>() {
        Ok(mut buffer) => {
            buffer.push(c);
            Ok(())
        },
        Err(e) => Err(e),
    }
}

/// Relies on `WorldExt::maintain`: removes the entities killed during the
/// frame from every registered storage.
#[verifier::external_body]
pub(crate) fn maintain(world: &mut World) {
    world.maintain()
}

} // verus!
