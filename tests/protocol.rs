use screen_share::protocol::{
    frame_type_from_code, frame_type_to_code, mode_from_code, mode_to_code, ScreenMessage, VideoProtocol, CHUNK_SIZE,
    HEADER_RESERVE, MAX_MESSAGE_SIZE,
};
use screen_share::{FrameType, ScreenMode, ScreenShareError, VideoFrame};

fn frame_with(len: usize, sequence: u64) -> VideoFrame {
    let data: Vec<u8> = (0..len).map(|i| (i % 251) as u8).collect();
    VideoFrame {
        data: bytes::Bytes::from(data),
        width: 1920,
        height: 1080,
        timestamp_ms: 40,
        frame_type: FrameType::Keyframe,
        sequence,
    }
}

struct Chunk {
    offset: u32,
    is_last: bool,
    data: Vec<u8>,
}

fn chunks(msgs: &[ScreenMessage]) -> Vec<Chunk> {
    msgs.iter()
        .map(|m| match m {
            ScreenMessage::VideoFrame { data_offset, is_last, data, .. } => Chunk {
                offset: *data_offset,
                is_last: *is_last,
                data: data.clone(),
            },
            _ => panic!("not a frame chunk"),
        })
        .collect()
}

#[test]
fn chunk_size_leaves_room_for_framing() {
    assert_eq!(MAX_MESSAGE_SIZE, 262144);
    assert_eq!(ScreenMessage::MAX_SIZE, 262144);
    assert_eq!(HEADER_RESERVE, 256);
    assert_eq!(CHUNK_SIZE, 261888);
}

#[test]
fn large_encoder_output_splits_into_ten_chunks() {
    let mut protocol = VideoProtocol::new();
    let frame = frame_with(2_500_000, 7);
    let msgs = protocol.split_frame(&frame).unwrap();
    assert_eq!(msgs.len(), 10);
    let cs = chunks(&msgs);
    let last = cs.last().unwrap();
    assert!(last.is_last);
    assert_eq!(last.offset, 9 * 261888);
    assert_eq!(last.data.len(), 2_500_000 - 9 * 261888);
    for (i, c) in cs.iter().enumerate() {
        assert_eq!(c.offset as usize, i * 261888);
        assert_eq!(c.is_last, i == 9);
    }
}

#[test]
fn chunk_messages_carry_the_frame_description() {
    let mut protocol = VideoProtocol::new();
    let mut frame = frame_with(600_000, 42);
    frame.frame_type = FrameType::Bidirectional;
    let msgs = protocol.split_frame(&frame).unwrap();
    assert_eq!(msgs.len(), 3);
    for m in &msgs {
        match m {
            ScreenMessage::VideoFrame { width, height, timestamp_ms, frame_type, sequence, .. } => {
                assert_eq!(*width, 1920);
                assert_eq!(*height, 1080);
                assert_eq!(*timestamp_ms, 40);
                assert_eq!(*frame_type, 2);
                assert_eq!(*sequence, 42);
            }
            _ => panic!("not a frame chunk"),
        }
    }
}

#[test]
fn empty_frame_gives_no_message() {
    let mut protocol = VideoProtocol::new();
    let msgs = protocol.split_frame(&frame_with(0, 1)).unwrap();
    assert!(msgs.is_empty());
}

#[test]
fn small_frame_gives_one_message() {
    let mut protocol = VideoProtocol::new();
    let frame = frame_with(1000, 3);
    let msgs = protocol.split_frame(&frame).unwrap();
    assert_eq!(msgs.len(), 1);
    let cs = chunks(&msgs);
    assert_eq!(cs[0].offset, 0);
    assert!(cs[0].is_last);
    assert_eq!(cs[0].data, frame.data.to_vec());
}

#[test]
fn frame_of_exactly_one_chunk_gives_one_message() {
    let mut protocol = VideoProtocol::new();
    let msgs = protocol.split_frame(&frame_with(CHUNK_SIZE, 3)).unwrap();
    assert_eq!(msgs.len(), 1);
    assert!(chunks(&msgs)[0].is_last);
}

#[test]
fn one_byte_over_a_chunk_gives_two_messages() {
    let mut protocol = VideoProtocol::new();
    let msgs = protocol.split_frame(&frame_with(CHUNK_SIZE + 1, 3)).unwrap();
    let cs = chunks(&msgs);
    assert_eq!(cs.len(), 2);
    assert_eq!(cs[0].data.len(), CHUNK_SIZE);
    assert!(!cs[0].is_last);
    assert_eq!(cs[1].data.len(), 1);
    assert_eq!(cs[1].offset as usize, CHUNK_SIZE);
    assert!(cs[1].is_last);
}

#[test]
fn exact_multiple_of_chunk_size_has_no_empty_tail() {
    let mut protocol = VideoProtocol::new();
    let msgs = protocol.split_frame(&frame_with(3 * CHUNK_SIZE, 3)).unwrap();
    let cs = chunks(&msgs);
    assert_eq!(cs.len(), 3);
    assert!(cs.iter().all(|c| c.data.len() == CHUNK_SIZE));
    assert!(cs[2].is_last);
}

#[test]
fn chunk_payloads_concatenate_to_the_frame() {
    let mut protocol = VideoProtocol::new();
    for len in [1usize, 500, CHUNK_SIZE - 1, CHUNK_SIZE, 2 * CHUNK_SIZE + 17] {
        let frame = frame_with(len, 9);
        let msgs = protocol.split_frame(&frame).unwrap();
        assert_eq!(msgs.len(), (len + CHUNK_SIZE - 1) / CHUNK_SIZE);
        let mut joined = Vec::new();
        for c in chunks(&msgs) {
            assert_eq!(c.offset as usize, joined.len());
            joined.extend_from_slice(&c.data);
        }
        assert_eq!(joined, frame.data.to_vec());
    }
}

#[test]
fn splitting_leaves_the_counter_alone() {
    let mut protocol = VideoProtocol::new();
    protocol.split_frame(&frame_with(10, 0)).unwrap();
    assert_eq!(protocol.next_sequence(), 0);
}

#[test]
fn sequence_numbers_count_up() {
    let mut protocol = VideoProtocol::default();
    assert_eq!(protocol.next_sequence(), 0);
    assert_eq!(protocol.next_sequence(), 1);
    assert_eq!(protocol.next_sequence(), 2);
}

#[test]
fn sequence_numbers_wrap_to_zero() {
    let mut protocol = VideoProtocol::starting_at(u64::MAX - 1);
    assert_eq!(protocol.next_sequence(), u64::MAX - 1);
    assert_eq!(protocol.next_sequence(), u64::MAX);
    assert_eq!(protocol.next_sequence(), 0);
    assert_eq!(protocol.next_sequence(), 1);
}

#[test]
fn frame_type_codes() {
    assert_eq!(frame_type_to_code(FrameType::Keyframe), 0);
    assert_eq!(frame_type_to_code(FrameType::Inter), 1);
    assert_eq!(frame_type_to_code(FrameType::Bidirectional), 2);
    assert_eq!(frame_type_from_code(0), Some(FrameType::Keyframe));
    assert_eq!(frame_type_from_code(1), Some(FrameType::Inter));
    assert_eq!(frame_type_from_code(2), Some(FrameType::Bidirectional));
    assert_eq!(frame_type_from_code(3), None);
}

#[test]
fn encoded_message_within_limit_passes() {
    let encoded = vec![7u8; MAX_MESSAGE_SIZE];
    let r = ScreenMessage::check_encoded_size(encoded.clone()).unwrap();
    assert_eq!(r, encoded);
}

#[test]
fn encoded_message_over_limit_is_refused() {
    let r = ScreenMessage::check_encoded_size(vec![0u8; MAX_MESSAGE_SIZE + 1]);
    assert!(matches!(r, Err(ScreenShareError::FrameTooLarge(n)) if n == MAX_MESSAGE_SIZE + 1));
}

#[test]
fn screen_mode_codes() {
    assert_eq!(mode_to_code(ScreenMode::InputOnly), 0);
    assert_eq!(mode_to_code(ScreenMode::ShareScreen), 1);
    assert_eq!(mode_to_code(ScreenMode::DisplayRemote), 2);
    assert_eq!(mode_from_code(0), Some(ScreenMode::InputOnly));
    assert_eq!(mode_from_code(1), Some(ScreenMode::ShareScreen));
    assert_eq!(mode_from_code(2), Some(ScreenMode::DisplayRemote));
    assert_eq!(mode_from_code(3), None);
}
