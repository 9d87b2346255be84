//! The fixed-tick scheduler: it runs update passes and owns no state.

use crate::rules::generation_after;
use crate::world::Automaton;
use vstd::prelude::*;

verus! {

/// The number of ticks in one second: the time step is a sixtieth of a
/// second, whatever the frame rate.
pub const TICKS_PER_SECOND: u32 = 60;

/// Runs `ticks` update passes on `world`, one after the other.
pub fn run(world: &mut Automaton, ticks: u32)
    ensures
        final(world)@ == generation_after(old(world)@, ticks as nat),
        final(world).spec_width() == old(world).spec_width(),
        final(world).spec_height() == old(world).spec_height(),
{
    let ghost start = world@;
    let ghost width = world.spec_width();
    let ghost height = world.spec_height();
    let mut done: u32 = 0;
    while done < ticks
        invariant
            done <= ticks,
            world@ == generation_after(start, done as nat),
            world.spec_width() == width,
            world.spec_height() == height,
        decreases ticks - done,
    {
        world.tick();
        done += 1;
    }
}

} // verus!
