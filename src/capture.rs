//! Screen capture backends: resolution, capture region, pause and resume.
//!
//! Producing frames is asynchronous and lives with the caller's runtime; the
//! state that decides what is produced lives here.

use vstd::prelude::*;

use crate::error::Result;

verus! {

/// Screen capture backend.
pub trait ScreenCapture {
    /// The resolution that the backend currently captures at.
    spec fn spec_resolution(&self) -> (u32, u32);

    /// Whether capture is paused.
    spec fn spec_paused(&self) -> bool;

    /// Current capture resolution.
    fn resolution(&self) -> (r: (u32, u32))
        ensures
            r == self.spec_resolution(),
    ;

    /// Sets the capture region; the next resolution reported is the region's size.
    fn set_region(&mut self, x: u32, y: u32, width: u32, height: u32) -> (r: Result<()>)
        ensures
            r is Ok ==> final(self).spec_resolution() == (width, height),
            r is Ok ==> final(self).spec_paused() == old(self).spec_paused(),
    ;

    /// Pauses capture.
    fn pause(&mut self) -> (r: Result<()>)
        ensures
            r is Ok ==> final(self).spec_paused(),
            r is Ok ==> final(self).spec_resolution() == old(self).spec_resolution(),
    ;

    /// Resumes capture.
    fn resume(&mut self) -> (r: Result<()>)
        ensures
            r is Ok ==> !final(self).spec_paused(),
            r is Ok ==> final(self).spec_resolution() == old(self).spec_resolution(),
    ;
}

/// Placeholder capture backend, for testing; its operations always succeed.
pub struct DummyCapture {
    paused: bool,
    resolution: (u32, u32),
    _buffer: Vec<u8>,
}

impl DummyCapture {
    /// A running capture of a 1920x1080 screen.
    pub fn new() -> (r: Result<Self>)
        ensures
            r matches Ok(c) && c.spec_resolution() == (1920u32, 1080u32) && !c.spec_paused(),
    {
        let resolution: (u32, u32) = (1920, 1080);
        let _buffer: Vec<u8> = Vec::with_capacity(1920 * 1080 * 4);
        Ok(DummyCapture { paused: false, resolution, _buffer })
    }

    /// Whether capture is paused.
    pub fn is_paused(&self) -> (r: bool)
        ensures
            r == self.spec_paused(),
    {
        self.paused
    }
}

impl ScreenCapture for DummyCapture {
    closed spec fn spec_resolution(&self) -> (u32, u32) {
        self.resolution
    }

    closed spec fn spec_paused(&self) -> bool {
        self.paused
    }

    fn resolution(&self) -> (r: (u32, u32)) {
        self.resolution
    }

    fn set_region(&mut self, x: u32, y: u32, width: u32, height: u32) -> (r: Result<()>)
        ensures
            r is Ok,
    {
        self.resolution = (width, height);
        Ok(())
    }

    fn pause(&mut self) -> (r: Result<()>)
        ensures
            r is Ok,
    {
        self.paused = true;
        Ok(())
    }

    fn resume(&mut self) -> (r: Result<()>)
        ensures
            r is Ok,
    {
        self.paused = false;
        Ok(())
    }
}

} // verus!
