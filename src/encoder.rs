//! Video encoders: raw pixel buffers in, sequenced `VideoFrame`s out.

use vstd::prelude::*;

use crate::buffer::bytes_from_vec;
use crate::error::{Result, ScreenShareError};
use crate::{FrameType, VideoFrame};

verus! {

/// Video encoder configuration.
#[derive(Clone, Debug)]
pub struct EncoderConfig {
    /// Target bitrate (Mbps, above zero).
    pub bitrate_mbps: u32,
    /// Target frame rate (above zero); a keyframe is made every `fps` frames.
    pub fps: u32,
    /// Quality (1 to 100, higher is better).
    pub quality: u8,
    /// Hardware acceleration requested (a hint only).
    pub hardware_accel: bool,
}

impl Default for EncoderConfig {
    fn default() -> (r: Self)
        ensures
            r.bitrate_mbps == 50,
            r.fps == 30,
            r.quality == 80,
            r.hardware_accel,
    {
        EncoderConfig { bitrate_mbps: 50, fps: 30, quality: 80, hardware_accel: true }
    }
}

/// A configuration that an encoder can run with.
pub open spec fn valid_config(c: EncoderConfig) -> bool {
    &&& c.bitrate_mbps > 0
    &&& c.fps > 0
    &&& 1 <= c.quality <= 100
}

/// Whether an encoder can run with the configuration.
pub fn is_valid_config(c: &EncoderConfig) -> (r: bool)
    ensures
        r == valid_config(*c),
{
    c.bitrate_mbps > 0 && c.fps > 0 && 1 <= c.quality && c.quality <= 100
}

/// Bytes per pixel of a raw (RGBA) frame.
pub const BYTES_PER_PIXEL: u64 = 4;

/// Length of the bitstream header put before each encoded frame.
pub const HEADER_LEN: usize = 4;

/// A raw frame of `width` x `height` RGBA pixels is `len` bytes long.
pub open spec fn dimensions_match(len: nat, width: u32, height: u32) -> bool {
    width > 0 && height > 0 && len == width * height * BYTES_PER_PIXEL
}

/// The timestamp after `t` by one frame period at `fps` frames per second,
/// in whole milliseconds, saturating at `u64::MAX`.
pub open spec fn advance_timestamp(t: u64, fps: u32) -> u64 {
    let next = t + 1000int / (fps as int);
    if next <= u64::MAX {
        next as u64
    } else {
        u64::MAX
    }
}

/// Encoded form of a raw frame: the header, then the frame's bytes.
pub open spec fn encoded_bytes(raw: Seq<u8>) -> Seq<u8> {
    seq![0u8, 0u8, 0u8, 0u8] + raw
}

/// Video encoder.
///
/// Every encoder hands out sequence numbers one after the other (wrapping
/// from `u64::MAX` to 0), makes a keyframe right after one is asked for, and
/// stamps frames with timestamps that never go backwards.
pub trait VideoEncoder {
    /// The encoder can take frames.
    spec fn ready(&self) -> bool;

    /// The sequence number of the next frame.
    spec fn pending_sequence(&self) -> u64;

    /// The next frame must be a keyframe.
    spec fn keyframe_pending(&self) -> bool;

    /// The timestamp of the next frame, in milliseconds.
    spec fn pending_timestamp(&self) -> u64;

    /// The configuration in use.
    spec fn current_config(&self) -> EncoderConfig;

    /// Encodes a raw frame.
    fn encode(&mut self, frame: &[u8], width: u32, height: u32) -> (r: Result<VideoFrame>)
        requires
            old(self).ready(),
        ensures
            final(self).ready(),
            r matches Ok(f) ==> f.sequence == old(self).pending_sequence()
                && final(self).pending_sequence() == (old(self).pending_sequence() + 1)
                % 0x1_0000_0000_0000_0000,
            r matches Ok(f) ==> (old(self).keyframe_pending() ==> f.frame_type
                == FrameType::Keyframe),
            r is Ok ==> !final(self).keyframe_pending(),
            r matches Ok(f) ==> f.timestamp_ms == old(self).pending_timestamp()
                && f.timestamp_ms <= final(self).pending_timestamp(),
    ;

    /// Makes the next frame a keyframe.
    fn force_keyframe(&mut self) -> (r: Result<()>)
        requires
            old(self).ready(),
        ensures
            final(self).ready(),
            r is Ok ==> final(self).keyframe_pending(),
            final(self).pending_sequence() == old(self).pending_sequence(),
            final(self).pending_timestamp() == old(self).pending_timestamp(),
    ;

    /// The configuration in use.
    fn config(&self) -> (r: &EncoderConfig)
        ensures
            *r == self.current_config(),
    ;

    /// Replaces the configuration from the next frame on.
    fn update_config(&mut self, config: EncoderConfig) -> (r: Result<()>)
        requires
            old(self).ready(),
        ensures
            final(self).ready(),
            r is Ok ==> final(self).current_config() == config,
            final(self).pending_sequence() == old(self).pending_sequence(),
            final(self).pending_timestamp() == old(self).pending_timestamp(),
    ;
}

/// Software AV1 encoder.
pub struct Av1Encoder {
    config: EncoderConfig,
    frame_count: u64,
    keyframe_requested: bool,
    next_timestamp_ms: u64,
    _encode_buffer: Vec<u8>,
}

impl Av1Encoder {
    pub closed spec fn spec_config(&self) -> EncoderConfig {
        self.config
    }

    /// Number of frames encoded so far, modulo 2^64: the next frame's sequence number.
    pub closed spec fn spec_frame_count(&self) -> u64 {
        self.frame_count
    }

    /// A keyframe was asked for and not made yet.
    pub closed spec fn spec_keyframe_requested(&self) -> bool {
        self.keyframe_requested
    }

    /// Timestamp of the next frame, in milliseconds since the stream started.
    pub closed spec fn spec_next_timestamp(&self) -> u64 {
        self.next_timestamp_ms
    }

    pub open spec fn wf(&self) -> bool {
        valid_config(self.spec_config())
    }

    /// An encoder with the given configuration; a configuration with a zero
    /// bitrate or frame rate, or a quality outside 1 to 100, is refused.
    pub fn new(config: EncoderConfig) -> (r: Result<Self>)
        ensures
            valid_config(config) ==> (r matches Ok(e) && e.wf() && e.spec_config() == config
                && e.spec_frame_count() == 0 && !e.spec_keyframe_requested()
                && e.spec_next_timestamp() == 0),
            !valid_config(config) ==> r matches Err(ScreenShareError::Encoder(_)),
    {
        if !is_valid_config(&config) {
            return Err(ScreenShareError::Encoder("invalid encoder configuration".to_string()));
        }
        Ok(Av1Encoder {
            config,
            frame_count: 0,
            keyframe_requested: false,
            next_timestamp_ms: 0,
            _encode_buffer: Vec::with_capacity(1920 * 1080 * 4),
        })
    }

    /// Encodes a raw frame of `width` x `height` RGBA pixels. The frame gets
    /// the next sequence number, which wraps from `u64::MAX` to 0; it is a
    /// keyframe every `fps` frames and right after a keyframe request, else an
    /// inter frame. Its timestamp is the encoder's running timestamp, which
    /// then moves on by one frame period at the current frame rate, so
    /// timestamps never go backwards, also across a change of frame rate. A buffer whose length does not match the dimensions is
    /// refused with `InvalidDimensions`.
    pub fn encode(&mut self, frame: &[u8], width: u32, height: u32) -> (r: Result<VideoFrame>)
        requires
            old(self).wf(),
        ensures
            final(self).wf(),
            final(self).spec_config() == old(self).spec_config(),
            !dimensions_match(frame@.len(), width, height) ==> r == Err::<
                VideoFrame,
                ScreenShareError,
            >(ScreenShareError::InvalidDimensions { width, height }) && *final(self) == *old(self),
            dimensions_match(frame@.len(), width, height) && frame@.len() + HEADER_LEN
                > usize::MAX ==> r == Err::<VideoFrame, ScreenShareError>(
                ScreenShareError::FrameTooLarge(frame@.len() as usize),
            ) && *final(self) == *old(self),
            dimensions_match(frame@.len(), width, height) && frame@.len() + HEADER_LEN
                <= usize::MAX ==> (r matches Ok(f) && f@.data == encoded_bytes(frame@) && f.width
                == width && f.height == height && f.sequence == old(self).spec_frame_count()
                && f.timestamp_ms == old(self).spec_next_timestamp()
                && final(self).spec_next_timestamp() == advance_timestamp(
                old(self).spec_next_timestamp(),
                old(self).spec_config().fps,
            ) && f.timestamp_ms <= final(self).spec_next_timestamp() && f.frame_type == if old(self).spec_keyframe_requested()
                || (old(self).spec_frame_count() as int) % (old(self).spec_config().fps as int) == 0 {
                FrameType::Keyframe
            } else {
                FrameType::Inter
            } && final(self).spec_frame_count() == (old(self).spec_frame_count() + 1)
                % 0x1_0000_0000_0000_0000 && !final(self).spec_keyframe_requested()),
    {
        let len = frame.len() as u64;
        if width == 0 || height == 0 {
            return Err(ScreenShareError::InvalidDimensions { width, height });
        }
        assert(width as u64 * height as u64 <= u64::MAX) by (nonlinear_arith)
            requires
                width <= u32::MAX,
                height <= u32::MAX,
        ;
        let pixels = width as u64 * height as u64;
        if pixels > len / BYTES_PER_PIXEL || pixels * BYTES_PER_PIXEL != len {
            return Err(ScreenShareError::InvalidDimensions { width, height });
        }
        let encoded = match self.encode_raw(frame) {
            Ok(e) => e,
            Err(e) => {
                return Err(e);
            },
        };
        let now = self.next_timestamp_ms;
        let period = 1000 / self.config.fps as u64;
        let next = if now > u64::MAX - period {
            u64::MAX
        } else {
            now + period
        };
        let frame_type = if self.keyframe_requested || self.frame_count % self.config.fps as u64
            == 0 {
            FrameType::Keyframe
        } else {
            FrameType::Inter
        };
        let video_frame = VideoFrame {
            data: bytes_from_vec(encoded),
            width,
            height,
            timestamp_ms: now,
            frame_type,
            sequence: self.frame_count,
        };
        self.frame_count = self.frame_count.wrapping_add(1);
        self.keyframe_requested = false;
        self.next_timestamp_ms = next;
        Ok(video_frame)
    }

    /// Makes the next frame a keyframe; the sequence numbers go on as they were.
    pub fn force_keyframe(&mut self) -> (r: Result<()>)
        requires
            old(self).wf(),
        ensures
            r is Ok,
            final(self).wf(),
            final(self).spec_keyframe_requested(),
            final(self).spec_frame_count() == old(self).spec_frame_count(),
            final(self).spec_next_timestamp() == old(self).spec_next_timestamp(),
            final(self).spec_config() == old(self).spec_config(),
    {
        self.keyframe_requested = true;
        Ok(())
    }

    /// The configuration in use.
    pub fn config(&self) -> (r: &EncoderConfig)
        ensures
            *r == self.spec_config(),
    {
        &self.config
    }

    /// Replaces the configuration from the next frame on; frames already
    /// made stay as they are. An invalid configuration is refused and the
    /// current one kept.
    pub fn update_config(&mut self, config: EncoderConfig) -> (r: Result<()>)
        requires
            old(self).wf(),
        ensures
            final(self).wf(),
            final(self).spec_frame_count() == old(self).spec_frame_count(),
            final(self).spec_keyframe_requested() == old(self).spec_keyframe_requested(),
            final(self).spec_next_timestamp() == old(self).spec_next_timestamp(),
            valid_config(config) ==> r is Ok && final(self).spec_config() == config,
            !valid_config(config) ==> r matches Err(ScreenShareError::Encoder(_)),
            !valid_config(config) ==> final(self).spec_config() == old(self).spec_config(),
    {
        if !is_valid_config(&config) {
            return Err(ScreenShareError::Encoder("invalid encoder configuration".to_string()));
        }
        self.config = config;
        Ok(())
    }

    /// Encodes the raw bytes of a frame: the bitstream header, then the
    /// bytes. A frame too long to take the header is refused with
    /// `FrameTooLarge`.
    pub fn encode_raw(&self, frame: &[u8]) -> (r: Result<Vec<u8>>)
        ensures
            frame@.len() + HEADER_LEN <= usize::MAX ==> (r matches Ok(v) && v@ == encoded_bytes(
                frame@,
            )),
            frame@.len() + HEADER_LEN > usize::MAX ==> r == Err::<Vec<u8>, ScreenShareError>(
                ScreenShareError::FrameTooLarge(frame@.len() as usize),
            ),
    {
        if frame.len() > usize::MAX - HEADER_LEN {
            return Err(ScreenShareError::FrameTooLarge(frame.len()));
        }
        let mut encoded: Vec<u8> = Vec::with_capacity(frame.len() + HEADER_LEN);
        encoded.push(0);
        encoded.push(0);
        encoded.push(0);
        encoded.push(0);
        let mut i: usize = 0;
        while i < frame.len()
            invariant
                i <= frame@.len(),
                encoded@ == seq![0u8, 0u8, 0u8, 0u8] + frame@.subrange(0, i as int),
            decreases frame@.len() - i,
        {
            encoded.push(frame[i]);
            i = i + 1;
            assert(encoded@ =~= seq![0u8, 0u8, 0u8, 0u8] + frame@.subrange(0, i as int));
        }
        assert(frame@.subrange(0, frame@.len() as int) =~= frame@);
        Ok(encoded)
    }
}

impl VideoEncoder for Av1Encoder {
    open spec fn ready(&self) -> bool {
        self.wf()
    }

    closed spec fn pending_sequence(&self) -> u64 {
        self.frame_count
    }

    closed spec fn keyframe_pending(&self) -> bool {
        self.keyframe_requested
    }

    closed spec fn pending_timestamp(&self) -> u64 {
        self.next_timestamp_ms
    }

    closed spec fn current_config(&self) -> EncoderConfig {
        self.config
    }

    fn encode(&mut self, frame: &[u8], width: u32, height: u32) -> (r: Result<VideoFrame>) {
        Av1Encoder::encode(self, frame, width, height)
    }

    fn force_keyframe(&mut self) -> (r: Result<()>) {
        Av1Encoder::force_keyframe(self)
    }

    fn config(&self) -> (r: &EncoderConfig) {
        Av1Encoder::config(self)
    }

    fn update_config(&mut self, config: EncoderConfig) -> (r: Result<()>) {
        Av1Encoder::update_config(self, config)
    }
}

/// The sequence number after `n` frames, starting from `start`.
pub open spec fn sequence_after(start: u64, n: nat) -> u64
    decreases n,
{
    if n == 0 {
        start
    } else {
        ((sequence_after(start, (n - 1) as nat) + 1) % 0x1_0000_0000_0000_0000) as u64
    }
}

/// Sequence numbers wrap without error: after `n` frames the counter stands
/// at `(start + n) mod 2^64`; so after 2^64 frames from 0 it is back at 0.
pub proof fn lemma_sequence_wraps(start: u64, n: nat)
    ensures
        sequence_after(start, n) == (start + n) % 0x1_0000_0000_0000_0000,
    decreases n,
{
    if n > 0 {
        lemma_sequence_wraps(start, (n - 1) as nat);
        let m = 0x1_0000_0000_0000_0000int;
        let a = start + n - 1;
        assert(((a % m) + 1) % m == (a + 1) % m) by {
            vstd::arithmetic::div_mod::lemma_add_mod_noop(a, 1, m);
            vstd::arithmetic::div_mod::lemma_small_mod(1, m as nat);
        }
    }
}

} // verus!
