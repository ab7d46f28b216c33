use screen_share::capture::{DummyCapture, ScreenCapture};
use screen_share::display::DummyDisplay;
use screen_share::encoder::{Av1Encoder, EncoderConfig, VideoEncoder};
use screen_share::{FrameType, ScreenShareError, VideoFrame};

fn encoder() -> Av1Encoder {
    Av1Encoder::new(EncoderConfig::default()).unwrap()
}

#[test]
fn encoded_frame_has_header_and_pixels() {
    let mut e = encoder();
    let raw = vec![5u8; 2 * 2 * 4];
    let f = e.encode(&raw, 2, 2).unwrap();
    let mut expected = vec![0u8, 0, 0, 0];
    expected.extend_from_slice(&raw);
    assert_eq!(f.data.to_vec(), expected);
    assert_eq!(f.width, 2);
    assert_eq!(f.height, 2);
    assert_eq!(f.sequence, 0);
    assert_eq!(f.timestamp_ms, 0);
    assert_eq!(f.frame_type, FrameType::Keyframe);
}

#[test]
fn keyframe_every_fps_frames_and_timestamps_advance() {
    let mut e = encoder();
    let raw = vec![1u8; 4];
    for n in 0..61u64 {
        let f = e.encode(&raw, 1, 1).unwrap();
        assert_eq!(f.sequence, n);
        assert_eq!(f.timestamp_ms, n * 33);
        let expected = if n % 30 == 0 { FrameType::Keyframe } else { FrameType::Inter };
        assert_eq!(f.frame_type, expected);
    }
}

#[test]
fn forced_keyframe_keeps_the_sequence() {
    let mut e = encoder();
    let raw = vec![1u8; 4];
    e.encode(&raw, 1, 1).unwrap();
    e.encode(&raw, 1, 1).unwrap();
    e.force_keyframe().unwrap();
    let f = e.encode(&raw, 1, 1).unwrap();
    assert_eq!(f.sequence, 2);
    assert_eq!(f.frame_type, FrameType::Keyframe);
    let g = e.encode(&raw, 1, 1).unwrap();
    assert_eq!(g.sequence, 3);
    assert_eq!(g.frame_type, FrameType::Inter);
}

#[test]
fn mismatched_dimensions_are_refused() {
    let mut e = encoder();
    let r = e.encode(&[0u8; 15], 2, 2);
    assert!(matches!(r, Err(ScreenShareError::InvalidDimensions { width: 2, height: 2 })));
    let r = e.encode(&[], 0, 0);
    assert!(matches!(r, Err(ScreenShareError::InvalidDimensions { width: 0, height: 0 })));
    let f = e.encode(&[0u8; 4], 1, 1).unwrap();
    assert_eq!(f.sequence, 0);
}

#[test]
fn invalid_config_is_refused() {
    let bad = EncoderConfig { fps: 0, ..EncoderConfig::default() };
    assert!(matches!(Av1Encoder::new(bad.clone()), Err(ScreenShareError::Encoder(_))));
    let mut e = encoder();
    assert!(matches!(e.update_config(bad), Err(ScreenShareError::Encoder(_))));
    assert_eq!(e.config().fps, 30);
    let q = EncoderConfig { quality: 101, ..EncoderConfig::default() };
    assert!(Av1Encoder::new(q).is_err());
}

#[test]
fn updated_config_applies_to_the_next_frame() {
    let mut e = encoder();
    let raw = vec![1u8; 4];
    let first = e.encode(&raw, 1, 1).unwrap();
    let slower = EncoderConfig { fps: 10, ..EncoderConfig::default() };
    e.update_config(slower).unwrap();
    assert_eq!(e.config().fps, 10);
    let second = e.encode(&raw, 1, 1).unwrap();
    let third = e.encode(&raw, 1, 1).unwrap();
    assert_eq!(first.timestamp_ms, 0);
    assert_eq!(second.timestamp_ms, 33);
    assert_eq!(third.timestamp_ms, 133);
}

#[test]
fn timestamps_do_not_go_back_when_frame_rate_rises() {
    let mut e = encoder();
    let raw = vec![1u8; 4];
    let mut last = 0;
    for n in 0..10u64 {
        let f = e.encode(&raw, 1, 1).unwrap();
        assert_eq!(f.timestamp_ms, n * 33);
        last = f.timestamp_ms;
    }
    assert_eq!(last, 297);
    e.update_config(EncoderConfig { fps: 60, ..EncoderConfig::default() }).unwrap();
    let f = e.encode(&raw, 1, 1).unwrap();
    assert_eq!(f.sequence, 10);
    assert_eq!(f.timestamp_ms, 330);
    let g = e.encode(&raw, 1, 1).unwrap();
    assert_eq!(g.timestamp_ms, 346);
}

#[test]
fn forced_keyframe_keeps_the_timestamps_going() {
    let mut e = encoder();
    let raw = vec![1u8; 4];
    e.encode(&raw, 1, 1).unwrap();
    e.encode(&raw, 1, 1).unwrap();
    e.force_keyframe().unwrap();
    let f = e.encode(&raw, 1, 1).unwrap();
    assert_eq!(f.timestamp_ms, 66);
}

#[test]
fn encoder_works_through_the_trait() {
    let mut e = encoder();
    let enc: &mut dyn VideoEncoder = &mut e;
    let f: VideoFrame = enc.encode(&[9u8; 8], 2, 1).unwrap();
    assert_eq!(f.data.len(), 12);
    assert_eq!(enc.config().bitrate_mbps, 50);
}

#[test]
fn raw_encoding_prefixes_the_header() {
    let e = encoder();
    assert_eq!(e.encode_raw(&[1, 2, 3]).unwrap(), vec![0, 0, 0, 0, 1, 2, 3]);
    assert_eq!(e.encode_raw(&[]).unwrap(), vec![0, 0, 0, 0]);
}

#[test]
fn capture_region_pause_and_resume() {
    let mut c = DummyCapture::new().unwrap();
    assert_eq!(c.resolution(), (1920, 1080));
    assert!(!c.is_paused());
    c.set_region(10, 20, 800, 600).unwrap();
    assert_eq!(c.resolution(), (800, 600));
    c.pause().unwrap();
    assert!(c.is_paused());
    c.resume().unwrap();
    assert!(!c.is_paused());
}

#[test]
fn display_drops_frames_while_paused() {
    let mut d = DummyDisplay::new().unwrap();
    assert_eq!(d.resolution(), (1920, 1080));
    let f = VideoFrame {
        data: bytes::Bytes::from(vec![1u8, 2]),
        width: 1,
        height: 1,
        timestamp_ms: 0,
        frame_type: FrameType::Keyframe,
        sequence: 0,
    };
    d.display(&f).unwrap();
    d.pause().unwrap();
    assert!(d.is_paused());
    d.display(&f).unwrap();
    d.resume().unwrap();
    assert!(!d.is_paused());
}
