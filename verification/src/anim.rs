//! A frame-cycling animation: steps through a list of frames at a fixed
//! number of ticks per frame, looping or stopping on the last frame.

use vstd::prelude::*;

verus! {

/// Ticks per frame used when a non-positive rate is requested.
pub const DEFAULT_TICKS_PER_FRAME: i64 = 120;

/// A frame animation over integer tick times.
pub struct Animation {
    pub frames: Vec<usize>,
    pub should_loop: bool,
    /// Ticks each frame is shown for; always positive.
    pub spf: i64,
    pub index: usize,
    /// Ticks accumulated since the last frame step.
    pub time: i64,
}

impl Animation {
    /// A usable animation: at least one frame, a positive rate, the current
    /// index inside the frame list, and a non-negative clock.
    pub open spec fn wf(&self) -> bool {
        &&& self.frames@.len() > 0
        &&& self.spf > 0
        &&& (self.index as int) < self.frames@.len()
        &&& self.time >= 0
    }

    /// Creates an animation over the given frames; a non-positive `spf`
    /// falls back to `DEFAULT_TICKS_PER_FRAME`.
    pub fn new(frames: Vec<usize>, should_loop: bool, spf: i64) -> (r: Animation)
        requires
            frames@.len() > 0,
        ensures
            r.wf(),
            r.frames == frames,
            r.should_loop == should_loop,
            r.spf == (if spf <= 0 {
                DEFAULT_TICKS_PER_FRAME as int
            } else {
                spf as int
            }),
            r.index == 0,
            r.time == 0,
    {
        let spf = if spf <= 0 {
            DEFAULT_TICKS_PER_FRAME
        } else {
            spf
        };
        Animation { frames, should_loop, spf, index: 0, time: 0 }
    }

    /// Where `update` takes the frame index once a frame's time is up: the
    /// next frame, wrapping to the first when looping and resting on the
    /// last when not.
    pub open spec fn spec_next_index(&self) -> int {
        if self.index + 1 >= self.frames@.len() {
            if self.should_loop {
                0
            } else {
                self.frames@.len() - 1
            }
        } else {
            self.index + 1
        }
    }

    /// Advances the animation clock by `dt` ticks; when a frame's time is
    /// up, steps to the next frame and resets the clock.
    pub fn update(&mut self, dt: i64)
        requires
            old(self).wf(),
            dt >= 0,
            old(self).time + dt <= i64::MAX,
        ensures
            final(self).wf(),
            final(self).frames == old(self).frames,
            final(self).should_loop == old(self).should_loop,
            final(self).spf == old(self).spf,
            old(self).time + dt >= old(self).spf ==> final(self).index
                == old(self).spec_next_index() && final(self).time == 0,
            old(self).time + dt < old(self).spf ==> final(self).index == old(self).index
                && final(self).time == old(self).time + dt,
    {
        self.time = self.time + dt;
        if self.time >= self.spf {
            let n = self.frames.len();
            let next = self.index + 1;
            self.time = 0;
            if next >= n {
                if self.should_loop {
                    self.index = 0;
                } else {
                    self.index = n - 1;
                }
            } else {
                self.index = next;
            }
        }
    }

    /// Replaces the frame list, pulling the current index back into range.
    pub fn set_frames(&mut self, frames: Vec<usize>)
        requires
            old(self).wf(),
            frames@.len() > 0,
        ensures
            final(self).wf(),
            final(self).frames == frames,
            final(self).should_loop == old(self).should_loop,
            final(self).spf == old(self).spf,
            final(self).time == old(self).time,
            final(self).index == (if (old(self).index as int) < frames@.len() - 1 {
                old(self).index as int
            } else {
                frames@.len() - 1
            }),
    {
        self.frames = frames;
        let last = self.frames.len() - 1;
        if self.index > last {
            self.index = last;
        }
    }

    /// The frame currently shown.
    pub fn frame(&self) -> (r: usize)
        requires
            self.wf(),
        ensures
            r == self.frames@[self.index as int],
    {
        self.frames[self.index]
    }

    /// Whether a non-looping animation has reached its last frame.
    pub fn is_finished(&self) -> (r: bool)
        requires
            self.wf(),
        ensures
            r == (!self.should_loop && self.index as int == self.frames@.len() - 1),
    {
        !self.should_loop && self.index == self.frames.len() - 1
    }
}

} // verus!
