//! Screen sharing for a software KVM switch: the video-frame wire protocol
//! (fragmentation into size-bounded messages and reassembly), the capture,
//! encoder and display backends, and the screen-mode state machine that the
//! hotkeys drive.

use vstd::prelude::*;

use crate::buffer::bytes_content;

pub mod buffer;
pub mod capture;
pub mod controller;
pub mod display;
pub mod encoder;
pub mod error;
pub mod protocol;
pub mod reassembly;

pub use error::{Result, ScreenShareError};

verus! {

/// Screen sharing mode.
#[derive(Clone, Copy, Debug, PartialEq, Eq, Structural)]
pub enum ScreenMode {
    /// Only send mouse/keyboard events (default KVM behavior).
    InputOnly,
    /// Share the local screen to remote clients.
    ShareScreen,
    /// Display a remote screen locally (video switching mode).
    DisplayRemote,
}

impl Default for ScreenMode {
    fn default() -> (r: Self)
        ensures
            r == ScreenMode::InputOnly,
    {
        ScreenMode::InputOnly
    }
}

/// Video frame type.
#[derive(Clone, Copy, Debug, PartialEq, Eq, Structural)]
pub enum FrameType {
    /// Keyframe (I-frame): a complete image.
    Keyframe,
    /// Inter frame (P-frame): differences from the previous frame.
    Inter,
    /// Bidirectional frame (B-frame): differences from past and future frames.
    Bidirectional,
}

impl Default for FrameType {
    fn default() -> (r: Self)
        ensures
            r == FrameType::Inter,
    {
        FrameType::Inter
    }
}

/// A frame as it flows through the pipeline: raw or encoded pixel data in a
/// shared, reference-counted buffer, and what describes it.
#[derive(Clone)]
pub struct VideoFrame {
    /// Frame data (raw or encoded), shared rather than copied.
    pub data: bytes::Bytes,
    /// Frame width in pixels.
    pub width: u32,
    /// Frame height in pixels.
    pub height: u32,
    /// Milliseconds since the start of the stream.
    pub timestamp_ms: u64,
    /// Frame type (I/P/B frame).
    pub frame_type: FrameType,
    /// Sequence number (wraps on overflow).
    pub sequence: u64,
}

/// What a frame holds, with its payload as a sequence of bytes.
pub struct FrameView {
    pub data: Seq<u8>,
    pub width: u32,
    pub height: u32,
    pub timestamp_ms: u64,
    pub frame_type: FrameType,
    pub sequence: u64,
}

impl View for VideoFrame {
    type V = FrameView;

    open spec fn view(&self) -> FrameView {
        FrameView {
            data: bytes_content(self.data),
            width: self.width,
            height: self.height,
            timestamp_ms: self.timestamp_ms,
            frame_type: self.frame_type,
            sequence: self.sequence,
        }
    }
}

/// Screen sharing configuration.
#[derive(Clone, Debug)]
pub struct ScreenConfig {
    /// Initial screen sharing mode.
    pub mode: ScreenMode,
    /// Target frame rate (fps, above zero).
    pub fps: u32,
    /// Video quality (1 to 100).
    pub quality: u8,
    /// Hardware acceleration requested (a hint only).
    pub hardware_accel: bool,
    /// Maximum bitrate (Mbps, above zero).
    pub max_bitrate: u32,
}

impl Default for ScreenConfig {
    fn default() -> (r: Self)
        ensures
            r.mode == ScreenMode::InputOnly,
            r.fps == 30,
            r.quality == 80,
            r.hardware_accel,
            r.max_bitrate == 50,
    {
        ScreenConfig {
            mode: ScreenMode::InputOnly,
            fps: 30,
            quality: 80,
            hardware_accel: true,
            max_bitrate: 50,
        }
    }
}

/// Screen hotkey for switching screens.
#[derive(Clone, Copy, Debug, PartialEq, Eq, Structural)]
pub enum ScreenHotkey {
    /// Switch to the local screen.
    Local,
    /// Switch to the screen of the given client.
    Remote(u32),
    /// Cycle through remote screens.
    Cycle,
    /// Toggle screen sharing.
    Toggle,
}

} // verus!
