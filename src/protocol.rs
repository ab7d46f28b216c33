//! Wire messages, and the splitting of frames into size-bounded chunks.

use vstd::prelude::*;

use crate::buffer::bytes_as_slice;
use crate::error::{Result, ScreenShareError};
use crate::{FrameType, FrameView, ScreenMode, VideoFrame};

verus! {

/// Largest encoded message that may be sent, framing included.
pub const MAX_MESSAGE_SIZE: usize = 262144;

/// Bytes of each message kept back for the framing around a chunk's payload.
pub const HEADER_RESERVE: usize = 256;

/// Largest payload carried by one frame chunk.
pub const CHUNK_SIZE: usize = MAX_MESSAGE_SIZE - HEADER_RESERVE;

/// Screen sharing protocol messages.
#[derive(Clone, Debug)]
pub enum ScreenMessage {
    /// Start sharing the screen.
    StartShare { width: u32, height: u32, fps: u32 },
    /// Stop sharing the screen.
    StopShare,
    /// Request the screen of the remote side.
    RequestScreen,
    /// One chunk of a video frame.
    VideoFrame {
        width: u32,
        height: u32,
        timestamp_ms: u64,
        /// 0 = keyframe, 1 = inter frame, 2 = bidirectional frame.
        frame_type: u8,
        sequence: u64,
        data_offset: u32,
        is_last: bool,
        data: Vec<u8>,
    },
    /// Acknowledgment of a completed frame.
    AckFrame { sequence: u64 },
    /// Request for a keyframe.
    RequestKeyframe,
    /// Screen mode change (0 = input only, 1 = share screen, 2 = display remote).
    ChangeMode { mode: u8 },
    /// Quality adjustment.
    AdjustQuality { bitrate_mbps: u32 },
}

impl ScreenMessage {
    /// Maximum message size for the peer data channel.
    pub const MAX_SIZE: usize = MAX_MESSAGE_SIZE;

    /// Hands an encoded message back when it fits the wire limit; a longer one
    /// is refused with its length.
    pub fn check_encoded_size(encoded: Vec<u8>) -> (r: Result<Vec<u8>>)
        ensures
            encoded@.len() <= MAX_MESSAGE_SIZE ==> (r matches Ok(v) && v@ == encoded@),
            encoded@.len() > MAX_MESSAGE_SIZE ==> r == Err::<Vec<u8>, ScreenShareError>(
                ScreenShareError::FrameTooLarge(encoded@.len() as usize),
            ),
    {
        if encoded.len() > Self::MAX_SIZE {
            Err(ScreenShareError::FrameTooLarge(encoded.len()))
        } else {
            Ok(encoded)
        }
    }
}

/// The wire code of a frame type.
pub open spec fn frame_type_code(t: FrameType) -> u8 {
    match t {
        FrameType::Keyframe => 0,
        FrameType::Inter => 1,
        FrameType::Bidirectional => 2,
    }
}

/// The frame type that a wire code stands for, if any.
pub open spec fn frame_type_of_code(code: u8) -> Option<FrameType> {
    if code == 0 {
        Some(FrameType::Keyframe)
    } else if code == 1 {
        Some(FrameType::Inter)
    } else if code == 2 {
        Some(FrameType::Bidirectional)
    } else {
        None
    }
}

/// Wire code of a frame type.
pub fn frame_type_to_code(t: FrameType) -> (r: u8)
    ensures
        r == frame_type_code(t),
        frame_type_of_code(r) == Some(t),
{
    match t {
        FrameType::Keyframe => 0,
        FrameType::Inter => 1,
        FrameType::Bidirectional => 2,
    }
}

/// Frame type of a wire code; `None` for a code that names no frame type.
pub fn frame_type_from_code(code: u8) -> (r: Option<FrameType>)
    ensures
        r == frame_type_of_code(code),
{
    if code == 0 {
        Some(FrameType::Keyframe)
    } else if code == 1 {
        Some(FrameType::Inter)
    } else if code == 2 {
        Some(FrameType::Bidirectional)
    } else {
        None
    }
}

/// The wire code of a screen mode.
pub open spec fn mode_code(m: ScreenMode) -> u8 {
    match m {
        ScreenMode::InputOnly => 0,
        ScreenMode::ShareScreen => 1,
        ScreenMode::DisplayRemote => 2,
    }
}

/// Wire code of a screen mode, as `ChangeMode` carries it.
pub fn mode_to_code(m: ScreenMode) -> (r: u8)
    ensures
        r == mode_code(m),
{
    match m {
        ScreenMode::InputOnly => 0,
        ScreenMode::ShareScreen => 1,
        ScreenMode::DisplayRemote => 2,
    }
}

/// Screen mode of a wire code; `None` for a code that names no mode.
pub fn mode_from_code(code: u8) -> (r: Option<ScreenMode>)
    ensures
        r matches Some(m) ==> mode_code(m) == code,
        r is None <==> code > 2,
{
    if code == 0 {
        Some(ScreenMode::InputOnly)
    } else if code == 1 {
        Some(ScreenMode::ShareScreen)
    } else if code == 2 {
        Some(ScreenMode::DisplayRemote)
    } else {
        None
    }
}

/// A frame chunk as the protocol sees it: what it belongs to, where its bytes go.
pub struct ChunkView {
    pub sequence: u64,
    pub width: u32,
    pub height: u32,
    pub timestamp_ms: u64,
    pub frame_type: FrameType,
    pub offset: int,
    pub is_last: bool,
    pub data: Seq<u8>,
}

/// The chunk that a message carries: `None` for a message that is no frame
/// chunk, for an unknown frame type code, and for a chunk whose end would not
/// fit in memory.
pub open spec fn chunk_of(m: ScreenMessage) -> Option<ChunkView> {
    match m {
        ScreenMessage::VideoFrame {
            width,
            height,
            timestamp_ms,
            frame_type,
            sequence,
            data_offset,
            is_last,
            data,
        } => {
            if frame_type_of_code(frame_type) is Some && data_offset + data@.len() <= usize::MAX {
                Some(
                    ChunkView {
                        sequence,
                        width,
                        height,
                        timestamp_ms,
                        frame_type: frame_type_of_code(frame_type)->0,
                        offset: data_offset as int,
                        is_last,
                        data: data@,
                    },
                )
            } else {
                None
            }
        },
        _ => None,
    }
}

/// Number of chunks a payload of `len` bytes is split into: none for an
/// empty payload, else `ceil(len / CHUNK_SIZE)`.
pub open spec fn chunk_count(len: nat) -> nat {
    if len == 0 {
        0
    } else {
        ((len + CHUNK_SIZE - 1) as nat) / (CHUNK_SIZE as nat)
    }
}

/// End (exclusive) of the payload bytes carried by chunk `i` of a payload of `len` bytes.
pub open spec fn chunk_end(len: nat, i: nat) -> int {
    if i * CHUNK_SIZE + CHUNK_SIZE <= len {
        i * CHUNK_SIZE + CHUNK_SIZE
    } else {
        len as int
    }
}

/// Chunk `i` of a frame: the payload bytes from `i * CHUNK_SIZE` on, at most
/// `CHUNK_SIZE` of them, with the frame's description; the chunk that reaches
/// the end of the payload is the last.
pub open spec fn split_chunk(f: FrameView, i: nat) -> ChunkView {
    ChunkView {
        sequence: f.sequence,
        width: f.width,
        height: f.height,
        timestamp_ms: f.timestamp_ms,
        frame_type: f.frame_type,
        offset: i * CHUNK_SIZE,
        is_last: chunk_end(f.data.len(), i) >= f.data.len(),
        data: f.data.subrange(i * CHUNK_SIZE, chunk_end(f.data.len(), i)),
    }
}

proof fn lemma_next_offset(idx: nat, offset: nat)
    requires
        offset == idx * CHUNK_SIZE,
    ensures
        offset + CHUNK_SIZE == (idx + 1) * CHUNK_SIZE,
        idx <= offset,
{
    assert(offset + CHUNK_SIZE == (idx + 1) * CHUNK_SIZE && idx <= offset) by (nonlinear_arith)
        requires
            offset == idx * CHUNK_SIZE,
    ;
}

/// The chunk count is the least number of chunks that reach past the end.
proof fn lemma_chunk_count(len: nat, n: nat)
    requires
        len > 0,
        n * CHUNK_SIZE >= len,
        n * CHUNK_SIZE < len + CHUNK_SIZE,
    ensures
        n == chunk_count(len),
{
    let c = CHUNK_SIZE as nat;
    assert(n == ((len + c - 1) as nat) / c) by (nonlinear_arith)
        requires
            c > 0,
            n * c >= len,
            n * c < len + c,
            len > 0,
    {
        let q = ((len + c - 1) as nat) / c;
        let r = ((len + c - 1) as nat) % c;
        assert(q * c + r == len + c - 1);
        assert(0 <= r < c);
    }
}

/// All chunks of a frame, in order of their offsets.
pub open spec fn split_chunks(f: FrameView) -> Seq<ChunkView> {
    Seq::new(chunk_count(f.data.len()), |i: int| split_chunk(f, i as nat))
}

/// The chunk count `n` of a non-empty payload is the one for which chunk
/// `n - 1` starts inside the payload and chunk `n` would start past its end.
pub proof fn lemma_chunk_count_bounds(len: nat)
    requires
        len > 0,
    ensures
        chunk_count(len) >= 1,
        (chunk_count(len) - 1) * CHUNK_SIZE < len,
        len <= chunk_count(len) * CHUNK_SIZE,
{
    let c = CHUNK_SIZE as nat;
    let n = chunk_count(len);
    assert(n >= 1 && (n - 1) * c < len && len <= n * c) by (nonlinear_arith)
        requires
            c > 0,
            n == ((len + c - 1) as nat) / c,
            len > 0,
    {
        let m = (len + c - 1) as nat;
        vstd::arithmetic::div_mod::lemma_fundamental_div_mod(m as int, c as int);
        assert(0 <= m % c < c);
    }
}

/// Byte `i` of a payload of `len` bytes travels in chunk `j` exactly when
/// `j == i / CHUNK_SIZE`.
pub proof fn lemma_position_in_chunk(len: nat, i: int, j: nat)
    requires
        0 <= i,
        j < chunk_count(len),
    ensures
        (j * CHUNK_SIZE <= i < chunk_end(len, j)) <==> (i < len && i / (CHUNK_SIZE as int) == j),
        i < len ==> i / (CHUNK_SIZE as int) < chunk_count(len),
        j * CHUNK_SIZE < len,
{
    let c = CHUNK_SIZE as int;
    lemma_chunk_count_bounds(len);
    let n = chunk_count(len) as int;
    let q = i / c;
    vstd::arithmetic::div_mod::lemma_fundamental_div_mod(i, c);
    assert(0 <= i % c < c);
    assert((j * c <= i < j * c + c) <==> q == j) by (nonlinear_arith)
        requires
            i == c * q + i % c,
            0 <= i % c < c,
            c > 0,
    ;
    assert(j * c < len) by (nonlinear_arith)
        requires
            j < n,
            (n - 1) * c < len,
            c > 0,
    ;
    assert(i < len ==> q < n) by (nonlinear_arith)
        requires
            i == c * q + i % c,
            0 <= i % c,
            len <= n * c,
            c > 0,
    ;
}

/// The payloads of a run of chunks, one after the other.
pub open spec fn concat_payloads(cs: Seq<ChunkView>) -> Seq<u8>
    decreases cs.len(),
{
    if cs.len() == 0 {
        Seq::empty()
    } else {
        concat_payloads(cs.drop_last()) + cs.last().data
    }
}

/// Splitting gives no chunk for an empty payload, one for a payload of at
/// most `CHUNK_SIZE` bytes, and `ceil(len / CHUNK_SIZE)` for a longer one;
/// chunk `i` starts at `i * CHUNK_SIZE`, only the final one is marked last,
/// and the chunks' payloads, in order of their offsets, are the frame's
/// payload exactly.
pub proof fn lemma_split_covers_payload(f: FrameView)
    ensures
        f.data.len() == 0 ==> split_chunks(f).len() == 0,
        0 < f.data.len() <= CHUNK_SIZE ==> split_chunks(f).len() == 1,
        f.data.len() > CHUNK_SIZE ==> split_chunks(f).len() == (f.data.len() + CHUNK_SIZE - 1)
            / (CHUNK_SIZE as int),
        forall|i: int|
            0 <= i < split_chunks(f).len() ==> (#[trigger] split_chunks(f)[i]).offset == i
                * CHUNK_SIZE && (split_chunks(f)[i].is_last <==> i == split_chunks(f).len() - 1),
        concat_payloads(split_chunks(f)) == f.data,
{
    let len = f.data.len();
    let cs = split_chunks(f);
    let n = cs.len();
    if len > 0 {
        lemma_chunk_count_bounds(len);
        if len <= CHUNK_SIZE {
            assert(n == 1) by (nonlinear_arith)
                requires
                    n >= 1,
                    (n - 1) * CHUNK_SIZE < len,
                    len <= CHUNK_SIZE,
            ;
        }
    }
    assert forall|i: int| 0 <= i < n implies (#[trigger] cs[i]).offset == i * CHUNK_SIZE && (
    cs[i].is_last <==> i == n - 1) by {
        lemma_position_in_chunk(len, 0, i as nat);
        lemma_chunk_count_bounds(len);
        assert((i * CHUNK_SIZE + CHUNK_SIZE >= len) <==> i == n - 1) by (nonlinear_arith)
            requires
                0 <= i < n,
                i * CHUNK_SIZE < len,
                (n - 1) * CHUNK_SIZE < len,
                len <= n * CHUNK_SIZE,
        ;
    }
    lemma_concat_prefix(f, n);
    if len > 0 {
        assert(chunk_end(len, (n - 1) as nat) == len);
        assert(cs.take(n as int) =~= cs);
    } else {
        assert(cs.take(0) =~= cs);
    }
    assert(f.data.subrange(0, if n == 0 { 0 } else { chunk_end(len, (n - 1) as nat) }) =~= f.data);
}

/// The first `k` chunks of a frame carry the payload up to the end of chunk `k - 1`.
proof fn lemma_concat_prefix(f: FrameView, k: nat)
    requires
        k <= chunk_count(f.data.len()),
    ensures
        concat_payloads(split_chunks(f).take(k as int)) == f.data.subrange(
            0,
            if k == 0 { 0 } else { chunk_end(f.data.len(), (k - 1) as nat) },
        ),
    decreases k,
{
    let len = f.data.len();
    let cs = split_chunks(f);
    if k == 0 {
        assert(cs.take(0) =~= Seq::<ChunkView>::empty());
        assert(f.data.subrange(0, 0) =~= Seq::<u8>::empty());
    } else {
        lemma_concat_prefix(f, (k - 1) as nat);
        assert(cs.take(k as int).drop_last() =~= cs.take(k - 1));
        lemma_position_in_chunk(len, 0, (k - 1) as nat);
        let start = if k == 1 { 0 } else { chunk_end(len, (k - 2) as nat) };
        if k >= 2 {
            lemma_position_in_chunk(len, 0, (k - 2) as nat);
            assert(chunk_end(len, (k - 2) as nat) == (k - 1) * CHUNK_SIZE) by (nonlinear_arith)
                requires
                    (k - 1) * CHUNK_SIZE < len,
                    k >= 2,
                    chunk_end(len, (k - 2) as nat) == if (k - 2) * CHUNK_SIZE + CHUNK_SIZE <= len {
                        (k - 2) * CHUNK_SIZE + CHUNK_SIZE
                    } else {
                        len as int
                    },
            ;
        }
        assert(start == (k - 1) * CHUNK_SIZE);
        assert(f.data.subrange(0, start) + f.data.subrange(start, chunk_end(len, (k - 1) as nat))
            =~= f.data.subrange(0, chunk_end(len, (k - 1) as nat)));
    }
}

/// Protocol state of the sending side: the sequence counter.
pub struct VideoProtocol {
    sequence: u64,
}

impl VideoProtocol {
    /// The sequence number that `next_sequence` hands out next.
    pub closed spec fn spec_sequence(&self) -> u64 {
        self.sequence
    }

    pub fn new() -> (r: Self)
        ensures
            r.spec_sequence() == 0,
    {
        VideoProtocol { sequence: 0 }
    }

    /// A counter that hands out `sequence` first, as when a stream resumes.
    pub fn starting_at(sequence: u64) -> (r: Self)
        ensures
            r.spec_sequence() == sequence,
    {
        VideoProtocol { sequence }
    }

    /// Splits a frame into chunk messages of at most `CHUNK_SIZE` payload
    /// bytes each, leaving `HEADER_RESERVE` bytes of each message for framing.
    ///
    /// An empty payload gives no message. A payload that a 32-bit offset
    /// cannot address is refused with `FrameTooLarge`.
    pub fn split_frame(&mut self, frame: &VideoFrame) -> (r: Result<Vec<ScreenMessage>>)
        ensures
            *final(self) == *old(self),
            frame@.data.len() <= u32::MAX ==> (r matches Ok(msgs) && msgs@.len() == chunk_count(
                frame@.data.len(),
            ) && forall|i: int|
                0 <= i < msgs@.len() ==> chunk_of(#[trigger] msgs@[i]) == Some(
                    split_chunk(frame@, i as nat),
                )),
            frame@.data.len() > u32::MAX ==> r == Err::<Vec<ScreenMessage>, ScreenShareError>(
                ScreenShareError::FrameTooLarge(frame@.data.len() as usize),
            ),
    {
        let data = bytes_as_slice(&frame.data);
        let len = data.len();
        if len > u32::MAX as usize {
            return Err(ScreenShareError::FrameTooLarge(len));
        }
        let code = frame_type_to_code(frame.frame_type);
        let ghost f = frame@;
        let mut messages: Vec<ScreenMessage> = Vec::new();
        let len64 = len as u64;
        let chunk_size = CHUNK_SIZE as u64;
        let mut idx: u64 = 0;
        let mut offset: u64 = 0;
        while offset < len64
            invariant
                len == f.data.len(),
                len64 == len,
                chunk_size == CHUNK_SIZE,
                data@ == f.data,
                len <= u32::MAX,
                code == frame_type_code(f.frame_type),
                f == frame@,
                offset == idx * CHUNK_SIZE,
                offset < len + CHUNK_SIZE,
                len == 0 ==> idx == 0,
                messages@.len() == idx,
                forall|i: int|
                    0 <= i < idx ==> chunk_of(#[trigger] messages@[i]) == Some(
                        split_chunk(f, i as nat),
                    ),
            decreases len + CHUNK_SIZE - offset,
        {
            let end = if offset + chunk_size <= len64 { offset + chunk_size } else { len64 };
            let chunk = vstd::slice::slice_to_vec(&data[offset as usize..end as usize]);
            let is_last = end >= len64;
            assert(end == chunk_end(len as nat, idx as nat));
            let m = ScreenMessage::VideoFrame {
                width: frame.width,
                height: frame.height,
                timestamp_ms: frame.timestamp_ms,
                frame_type: code,
                sequence: frame.sequence,
                data_offset: offset as u32,
                is_last,
                data: chunk,
            };
            assert(chunk_of(m) == Some(split_chunk(f, idx as nat)));
            messages.push(m);
            proof {
                lemma_next_offset(idx as nat, offset as nat);
            }
            idx = idx + 1;
            offset = offset + chunk_size;
        }
        proof {
            if len > 0 {
                lemma_chunk_count(len as nat, idx as nat);
            }
        }
        Ok(messages)
    }

    /// Hands out the next sequence number; the counter wraps from `u64::MAX` to 0.
    pub fn next_sequence(&mut self) -> (r: u64)
        ensures
            r == old(self).spec_sequence(),
            final(self).spec_sequence() == (old(self).spec_sequence() + 1) % 0x1_0000_0000_0000_0000,
    {
        let seq = self.sequence;
        self.sequence = self.sequence.wrapping_add(1);
        seq
    }
}

impl Default for VideoProtocol {
    fn default() -> (r: Self)
        ensures
            r.spec_sequence() == 0,
    {
        VideoProtocol::new()
    }
}

} // verus!
