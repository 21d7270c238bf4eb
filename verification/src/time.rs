//! Frame counting for the frames-per-second display.
use vstd::prelude::*;

verus! {

/// Frames counted since the last frames-per-second update.
pub struct FrameCounter {
    pub frame_count: u32,
}

impl FrameCounter {
    /// No frame counted yet.
    pub fn new() -> (r: Self)
        ensures
            r.frame_count == 0,
    {
        FrameCounter { frame_count: 0 }
    }

    /// Counts one frame. When the measuring window has elapsed (half a
    /// second in the engine), returns the frames counted in it, this one
    /// included, and starts a new window; otherwise returns `None`.
    pub fn tick(&mut self, window_elapsed: bool) -> (r: Option<u32>)
        requires
            old(self).frame_count < u32::MAX,
        ensures
            window_elapsed ==> r == Some((old(self).frame_count + 1) as u32) && final(self).frame_count == 0,
            !window_elapsed ==> r is None && final(self).frame_count == old(self).frame_count + 1,
    {
        self.frame_count = self.frame_count + 1;
        if window_elapsed {
            let n = self.frame_count;
            self.frame_count = 0;
            Some(n)
        } else {
            None
        }
    }
}

} // verus!
