//! Spawning rules of the particle demo: a capped population and a xorshift offset generator.
use vstd::prelude::*;
use crate::life::{xorshift64, xorshift_spec};

verus! {

/// Most particles alive at once.
pub const MAX_PARTICLES: usize = 1000;

/// Particles added per frame while the mouse button is held.
pub const SPAWN_PER_FRAME: usize = 3;

/// How many particles to add this frame: three while the button is held, fewer when that
/// would pass the cap, none when the button is up or the cap is reached.
pub fn particles_to_spawn(count: usize, mouse_down: bool) -> (n: usize)
    ensures
        n == if mouse_down && count < MAX_PARTICLES {
            if MAX_PARTICLES - count < SPAWN_PER_FRAME {
                (MAX_PARTICLES - count) as int
            } else {
                SPAWN_PER_FRAME as int
            }
        } else {
            0
        },
        count <= MAX_PARTICLES ==> count + n <= MAX_PARTICLES,
{
    if !mouse_down || count >= MAX_PARTICLES {
        return 0;
    }
    let room = MAX_PARTICLES - count;
    if room < SPAWN_PER_FRAME {
        room
    } else {
        SPAWN_PER_FRAME
    }
}

/// Advances the offset generator and returns its low byte, which the caller scales to an
/// offset in `[-1, 1]`.
pub fn pseudo_offset_byte(seed: &mut u64) -> (b: u8)
    ensures
        *final(seed) == xorshift_spec(*old(seed)),
        b == *final(seed) % 256,
{
    *seed = xorshift64(*seed);
    (*seed % 256) as u8
}

} // verus!
