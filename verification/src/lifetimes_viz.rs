//! Scene selection of the lifetimes screen.
use vstd::prelude::*;

verus! {

/// Number of scenes.
pub const NUM_SCENES: usize = 4;

/// The scene after one frame of input: SPACE goes to the next scene (wrapping around), and a
/// digit key picks scene `digit` directly, overriding SPACE (`digit` is the highest digit key
/// pressed, counted from 0).
pub fn select_scene(scene: usize, space: bool, digit: Option<usize>) -> (next: usize)
    requires
        scene < NUM_SCENES,
        digit matches Some(d) ==> d < NUM_SCENES,
    ensures
        next == match digit {
            Some(d) => d as int,
            None => if space {
                (scene + 1) % NUM_SCENES as int
            } else {
                scene as int
            },
        },
        next < NUM_SCENES,
{
    let mut s = scene;
    if space {
        s = (s + 1) % NUM_SCENES;
    }
    match digit {
        Some(d) => d,
        None => s,
    }
}

} // verus!
