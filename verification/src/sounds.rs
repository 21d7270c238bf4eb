//! Strategies that turn a group of cubes into sound emitters.
use vstd::prelude::*;

verus! {

/// Turns the positions of a group's cubes into the positions of its sound
/// emitters, given the camera's position.
pub trait SoundStrategy<P> {
    fn compute_emitters(&self, cubes: &[P], camera_pos: P) -> Vec<P>;
}

/// The simplest strategy: one emitter, at the first cube, at full volume
/// (volume 1), wherever the camera is.
pub struct SingleCubeStrategy;

impl<P: Copy> SoundStrategy<P> for SingleCubeStrategy {
    /// The first cube alone, or no emitter when there is no cube.
    fn compute_emitters(&self, cubes: &[P], camera_pos: P) -> (r: Vec<P>)
        ensures
            cubes@.len() == 0 ==> r@.len() == 0,
            cubes@.len() > 0 ==> r@ == seq![cubes@[0]],
    {
        let mut v: Vec<P> = Vec::new();
        if cubes.len() > 0 {
            v.push(cubes[0]);
            assert(v@ =~= seq![cubes@[0]]);
        }
        v
    }
}

} // verus!
