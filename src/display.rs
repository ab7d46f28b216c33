//! Placeholder display backend: shows frames unless paused.

use vstd::prelude::*;

use crate::error::Result;
use crate::VideoFrame;

verus! {

/// Placeholder display backend, for testing.
pub struct DummyDisplay {
    paused: bool,
    resolution: (u32, u32),
}

impl DummyDisplay {
    pub closed spec fn spec_paused(&self) -> bool {
        self.paused
    }

    pub closed spec fn spec_resolution(&self) -> (u32, u32) {
        self.resolution
    }

    /// A running display of 1920x1080.
    pub fn new() -> (r: Result<Self>)
        ensures
            r matches Ok(d) && d.spec_resolution() == (1920u32, 1080u32) && !d.spec_paused(),
    {
        Ok(DummyDisplay { paused: false, resolution: (1920, 1080) })
    }

    /// Shows a frame; while paused the frame is dropped, and that succeeds too.
    pub fn display(&mut self, frame: &VideoFrame) -> (r: Result<()>)
        ensures
            r is Ok,
            *final(self) == *old(self),
    {
        Ok(())
    }

    /// Display resolution.
    pub fn resolution(&self) -> (r: (u32, u32))
        ensures
            r == self.spec_resolution(),
    {
        self.resolution
    }

    /// Pauses the display: frames shown from now on are dropped.
    pub fn pause(&mut self) -> (r: Result<()>)
        ensures
            r is Ok,
            final(self).spec_paused(),
            final(self).spec_resolution() == old(self).spec_resolution(),
    {
        self.paused = true;
        Ok(())
    }

    /// Resumes the display.
    pub fn resume(&mut self) -> (r: Result<()>)
        ensures
            r is Ok,
            !final(self).spec_paused(),
            final(self).spec_resolution() == old(self).spec_resolution(),
    {
        self.paused = false;
        Ok(())
    }

    /// Whether the display is paused.
    pub fn is_paused(&self) -> (r: bool)
        ensures
            r == self.spec_paused(),
    {
        self.paused
    }
}

} // verus!
