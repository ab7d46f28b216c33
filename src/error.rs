//! Errors of the screen sharing subsystem.

use vstd::prelude::*;

verus! {

/// `std::io::Error` is carried through unchanged by transport failures.
#[verifier::external_type_specification]
#[verifier::external_body]
pub struct ExIoError(std::io::Error);

/// Every failure of the screen sharing subsystem.
#[derive(Debug)]
pub enum ScreenShareError {
    /// The capture device cannot be opened.
    CaptureBackendUnavailable,
    /// The display cannot be opened.
    DisplayBackendUnavailable,
    /// Unrecoverable codec fault while encoding.
    Encoder(String),
    /// Codec fault while decoding.
    Decoder(String),
    /// A frame or message, of the given length, exceeds what the wire takes.
    FrameTooLarge(usize),
    /// A pixel buffer does not match the given dimensions.
    InvalidDimensions { width: u32, height: u32 },
    /// No screen to display.
    NoScreenAvailable,
    /// Hardware acceleration failed.
    HardwareAcceleration(String),
    /// A buffer could not be allocated.
    BufferAllocation(String),
    /// One capture poll failed; the next may succeed.
    CaptureFailed(String),
    /// Rendering one frame failed; the next may succeed.
    DisplayFailed(String),
    /// Malformed or unexpected protocol data.
    Protocol(String),
    /// Transport failure.
    Io(std::io::Error),
    /// Waiting for a frame timed out.
    Timeout,
    /// The codec is not supported here.
    CodecNotSupported(String),
}

/// Result of an operation of this subsystem.
pub type Result<T> = core::result::Result<T, ScreenShareError>;

} // verus!
