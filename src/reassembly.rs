//! Reassembly of incoming frame chunks into frames.
//!
//! The receiver keeps at most one frame in progress, keyed by its sequence
//! number. Each chunk's bytes are written at its offset, so chunks may arrive
//! in any order. The frame is complete once the chunk marked last has come and
//! every byte before that chunk's end has been written. A chunk of another
//! sequence abandons the frame in progress, which counts as a dropped frame.

use vstd::prelude::*;

use crate::buffer::bytes_from_vec;
use crate::protocol::{
    chunk_count,
    chunk_of,
    frame_type_from_code,
    lemma_chunk_count_bounds,
    lemma_position_in_chunk,
    lemma_split_covers_payload,
    split_chunk,
    split_chunks,
    ChunkView,
    ScreenMessage,
    CHUNK_SIZE,
};
use crate::{FrameType, FrameView, VideoFrame};

verus! {

/// A frame in progress: its description, the bytes written so far by
/// position, and the end of the last chunk once that chunk has come.
pub struct PartialView {
    pub sequence: u64,
    pub width: u32,
    pub height: u32,
    pub timestamp_ms: u64,
    pub frame_type: FrameType,
    pub bytes: Map<int, u8>,
    pub total: Option<int>,
}

/// The receiver's state: the frame in progress, if any, and how many frames
/// were abandoned unfinished (saturating at `u64::MAX`).
pub struct ReassemblyView {
    pub partial: Option<PartialView>,
    pub dropped: u64,
}

/// The bytes a chunk writes, by position in the frame's payload.
pub open spec fn chunk_bytes(c: ChunkView) -> Map<int, u8> {
    Map::new(|i: int| c.offset <= i < c.offset + c.data.len(), |i: int| c.data[i - c.offset])
}

/// A new frame in progress, described by its first chunk, with nothing written.
pub open spec fn fresh_partial(c: ChunkView) -> PartialView {
    PartialView {
        sequence: c.sequence,
        width: c.width,
        height: c.height,
        timestamp_ms: c.timestamp_ms,
        frame_type: c.frame_type,
        bytes: Map::empty(),
        total: None,
    }
}

/// The frame in progress that a chunk goes to: the current one if it has the
/// chunk's sequence, else a new one.
pub open spec fn target_partial(p: Option<PartialView>, c: ChunkView) -> PartialView {
    match p {
        Some(q) => if q.sequence == c.sequence {
            q
        } else {
            fresh_partial(c)
        },
        None => fresh_partial(c),
    }
}

/// A frame in progress after a chunk's bytes are written into it.
pub open spec fn absorb(q: PartialView, c: ChunkView) -> PartialView {
    PartialView {
        bytes: q.bytes.union_prefer_right(chunk_bytes(c)),
        total: if c.is_last {
            Some(c.offset + c.data.len())
        } else {
            q.total
        },
        ..q
    }
}

/// The last chunk has come and every byte before its end has been written.
pub open spec fn is_complete(q: PartialView) -> bool {
    &&& q.total is Some
    &&& forall|i: int| 0 <= i < q.total->0 ==> #[trigger] q.bytes.contains_key(i)
}

/// The frame that a complete frame in progress stands for.
pub open spec fn completed(q: PartialView) -> FrameView {
    FrameView {
        data: Seq::new(q.total->0 as nat, |i: int| q.bytes[i]),
        width: q.width,
        height: q.height,
        timestamp_ms: q.timestamp_ms,
        frame_type: q.frame_type,
        sequence: q.sequence,
    }
}

pub open spec fn saturating_inc(n: u64) -> u64 {
    if n < u64::MAX {
        (n + 1) as u64
    } else {
        n
    }
}

/// What the receiver does with one chunk: the new state, and the frame that
/// the chunk completed, if any.
pub open spec fn step(s: ReassemblyView, c: ChunkView) -> (ReassemblyView, Option<FrameView>) {
    let dropped = if s.partial is Some && s.partial->0.sequence != c.sequence {
        saturating_inc(s.dropped)
    } else {
        s.dropped
    };
    let q = absorb(target_partial(s.partial, c), c);
    if is_complete(q) {
        (ReassemblyView { partial: None, dropped }, Some(completed(q)))
    } else {
        (ReassemblyView { partial: Some(q), dropped }, None)
    }
}

/// The receiver's state after a run of chunks, and what each chunk completed.
pub open spec fn feed(s: ReassemblyView, cs: Seq<ChunkView>) -> (
    ReassemblyView,
    Seq<Option<FrameView>>,
)
    decreases cs.len(),
{
    if cs.len() == 0 {
        (s, Seq::empty())
    } else {
        let before = feed(s, cs.drop_last());
        let after = step(before.0, cs.last());
        (after.0, before.1.push(after.1))
    }
}

pub open spec fn frame_view_of(r: Option<VideoFrame>) -> Option<FrameView> {
    match r {
        Some(f) => Some(f@),
        None => None,
    }
}

/// The frame in progress once the chunks of `f` whose indices are listed in
/// `fed` have come, in whatever order.
pub open spec fn partial_of(f: FrameView, fed: Seq<int>) -> PartialView {
    PartialView {
        sequence: f.sequence,
        width: f.width,
        height: f.height,
        timestamp_ms: f.timestamp_ms,
        frame_type: f.frame_type,
        bytes: Map::new(
            |i: int| 0 <= i < f.data.len() && fed.contains(i / (CHUNK_SIZE as int)),
            |i: int| f.data[i],
        ),
        total: if fed.contains(chunk_count(f.data.len()) - 1) {
            Some(f.data.len() as int)
        } else {
            None
        },
    }
}

/// `perm` lists each of `0 .. n` exactly once.
pub open spec fn is_permutation(perm: Seq<int>, n: nat) -> bool {
    &&& perm.len() == n
    &&& forall|k: int| 0 <= k < n ==> 0 <= #[trigger] perm[k] < n
    &&& forall|a: int, b: int| 0 <= a < n && 0 <= b < n && a != b ==> perm[a] != perm[b]
    &&& forall|j: int| 0 <= j < n ==> #[trigger] perm.contains(j)
}

/// The chunks `cs` in the order that `perm` gives.
pub open spec fn reorder(cs: Seq<ChunkView>, perm: Seq<int>) -> Seq<ChunkView> {
    Seq::new(perm.len(), |k: int| cs[perm[k]])
}

/// Writing chunk `j` of `f` adds its positions to what was written.
proof fn lemma_absorb_chunk(f: FrameView, fed: Seq<int>, j: int)
    requires
        0 <= j < chunk_count(f.data.len()),
    ensures
        absorb(partial_of(f, fed), split_chunk(f, j as nat)) == partial_of(f, fed.push(j)),
{
    let len = f.data.len();
    let n = chunk_count(len);
    let c = split_chunk(f, j as nat);
    let lhs = absorb(partial_of(f, fed), c);
    let rhs = partial_of(f, fed.push(j));
    lemma_position_in_chunk(len, 0, j as nat);
    assert forall|x: int| #[trigger] fed.push(j).contains(x) <==> (fed.contains(x) || x == j) by {
        if fed.contains(x) {
            let m = choose|m: int| 0 <= m < fed.len() && fed[m] == x;
            assert(fed.push(j)[m] == x);
        }
        if x == j {
            assert(fed.push(j)[fed.len() as int] == x);
        }
        if fed.push(j).contains(x) {
            let m = choose|m: int| 0 <= m < fed.push(j).len() && fed.push(j)[m] == x;
            if m < fed.len() {
                assert(fed[m] == x);
            }
        }
    }
    assert forall|i: int| #[trigger] lhs.bytes.contains_key(i) <==> rhs.bytes.contains_key(i) by {
        if i >= 0 {
            lemma_position_in_chunk(len, i, j as nat);
        }
    }
    assert forall|i: int| #[trigger] lhs.bytes.contains_key(i) implies lhs.bytes[i]
        == rhs.bytes[i] by {
        if i >= 0 {
            lemma_position_in_chunk(len, i, j as nat);
        }
    }
    assert(lhs.bytes =~= rhs.bytes);
    lemma_split_covers_payload(f);
    assert(split_chunks(f)[j] == c);
    if c.is_last {
        assert(j == n - 1);
        assert(c.offset + c.data.len() == len);
    }
}

/// The state after the first `k` of the reordered chunks, for `k < n`.
proof fn lemma_reordered_prefix(s: ReassemblyView, f: FrameView, perm: Seq<int>, k: nat)
    requires
        s.partial is None,
        f.data.len() > 0,
        is_permutation(perm, chunk_count(f.data.len())),
        k < chunk_count(f.data.len()),
    ensures
        feed(s, reorder(split_chunks(f), perm).take(k as int)) == (
        ReassemblyView {
            partial: if k == 0 {
                None
            } else {
                Some(partial_of(f, perm.take(k as int)))
            },
            dropped: s.dropped,
        },
        Seq::new(k, |i: int| None::<FrameView>)),
    decreases k,
{
    let cs = reorder(split_chunks(f), perm);
    let n = chunk_count(f.data.len());
    if k == 0 {
        assert(cs.take(0) =~= Seq::<ChunkView>::empty());
        assert(Seq::new(0, |i: int| None::<FrameView>) =~= Seq::<Option<FrameView>>::empty());
    } else {
        let k1 = (k - 1) as nat;
        lemma_reordered_prefix(s, f, perm, k1);
        assert(cs.take(k as int).drop_last() =~= cs.take(k1 as int));
        let j = perm[k1 as int];
        let c = split_chunk(f, j as nat);
        assert(cs.take(k as int).last() == c);
        let before = feed(s, cs.take(k1 as int)).0;
        assert(partial_of(f, Seq::<int>::empty()).bytes =~= Map::<int, u8>::empty());
        assert(perm.take(0) =~= Seq::<int>::empty());
        assert(target_partial(before.partial, c) == partial_of(f, perm.take(k1 as int)));
        lemma_absorb_chunk(f, perm.take(k1 as int), j);
        assert(perm.take(k1 as int).push(j) =~= perm.take(k as int));
        let q = partial_of(f, perm.take(k as int));
        let missing = perm[n - 1];
        assert(!perm.take(k as int).contains(missing)) by {
            if perm.take(k as int).contains(missing) {
                let m = choose|m: int| 0 <= m < k && perm.take(k as int)[m] == missing;
                assert(perm[m] == perm[n - 1]);
            }
        }
        lemma_position_in_chunk(f.data.len(), missing * CHUNK_SIZE, missing as nat);
        lemma_position_in_chunk(f.data.len(), 0, missing as nat);
        assert(!q.bytes.contains_key(missing * CHUNK_SIZE));
        assert(!is_complete(q));
        assert(Seq::new(k1, |i: int| None::<FrameView>).push(None) =~= Seq::new(
            k,
            |i: int| None::<FrameView>,
        ));
    }
}

/// Chunks of one frame reassemble to that frame whatever order they come in:
/// fed to a receiver with nothing in progress, in the order of any permutation,
/// the chunks of a non-empty frame complete nothing until the final one, which
/// completes the frame itself; nothing stays in progress and nothing is dropped.
pub proof fn lemma_reordered_chunks_reassemble(s: ReassemblyView, f: FrameView, perm: Seq<int>)
    requires
        s.partial is None,
        f.data.len() > 0,
        is_permutation(perm, chunk_count(f.data.len())),
    ensures
        feed(s, reorder(split_chunks(f), perm)) == (ReassemblyView {
            partial: None,
            dropped: s.dropped,
        },
        Seq::new(
            chunk_count(f.data.len()),
            |k: int|
                if k == chunk_count(f.data.len()) - 1 {
                    Some(f)
                } else {
                    None
                },
        )),
{
    let len = f.data.len();
    let cs = reorder(split_chunks(f), perm);
    let n = chunk_count(len);
    lemma_chunk_count_bounds(len);
    let k1 = (n - 1) as nat;
    lemma_reordered_prefix(s, f, perm, k1);
    assert(cs.take(n as int) =~= cs);
    assert(cs.drop_last() =~= cs.take(k1 as int));
    let j = perm[k1 as int];
    let c = split_chunk(f, j as nat);
    let before = feed(s, cs.take(k1 as int)).0;
    assert(partial_of(f, Seq::<int>::empty()).bytes =~= Map::<int, u8>::empty());
    assert(perm.take(0) =~= Seq::<int>::empty());
    assert(target_partial(before.partial, c) == partial_of(f, perm.take(k1 as int)));
    lemma_absorb_chunk(f, perm.take(k1 as int), j);
    assert(perm.take(k1 as int).push(j) =~= perm);
    let q = partial_of(f, perm);
    assert forall|i: int| 0 <= i < len implies #[trigger] q.bytes.contains_key(i) by {
        lemma_position_in_chunk(len, i, 0);
    }
    assert(is_complete(q));
    assert(completed(q).data =~= f.data);
    assert(completed(q) == f);
    assert(Seq::new(k1, |i: int| None::<FrameView>).push(Some(f)) =~= Seq::new(
        n,
        |k: int|
            if k == n - 1 {
                Some(f)
            } else {
                None
            },
    ));
}

/// Splitting and then reassembling gives the frame back: fed in order to a
/// receiver with nothing in progress, the chunks of a non-empty frame complete
/// that frame with the final chunk and nothing before it; an empty frame has
/// no chunk and leaves the receiver as it was.
pub proof fn lemma_split_then_reassemble(s: ReassemblyView, f: FrameView)
    requires
        s.partial is None,
    ensures
        f.data.len() == 0 ==> feed(s, split_chunks(f)) == (s, Seq::<Option<FrameView>>::empty()),
        f.data.len() > 0 ==> feed(s, split_chunks(f)) == (ReassemblyView {
            partial: None,
            dropped: s.dropped,
        },
        Seq::new(
            chunk_count(f.data.len()),
            |k: int|
                if k == chunk_count(f.data.len()) - 1 {
                    Some(f)
                } else {
                    None
                },
        )),
{
    let n = chunk_count(f.data.len());
    if f.data.len() == 0 {
        assert(split_chunks(f).len() == 0);
    } else {
        let id = Seq::new(n, |k: int| k);
        assert forall|j: int| 0 <= j < n implies #[trigger] id.contains(j) by {
            assert(id[j] == j);
        }
        lemma_reordered_chunks_reassemble(s, f, id);
        assert(reorder(split_chunks(f), id) =~= split_chunks(f));
    }
}

/// The chunks that a run of frame chunk messages carries.
pub open spec fn chunks_of(msgs: Seq<ScreenMessage>) -> Seq<ChunkView> {
    msgs.map_values(|m: ScreenMessage| chunk_of(m)->0)
}

/// The messages that `split_frame` hands out for a non-empty frame, pushed in
/// order into a receiver with nothing in progress, complete that frame with
/// the last message and nothing before it.
pub proof fn lemma_split_messages_reassemble(
    s: ReassemblyView,
    f: FrameView,
    msgs: Seq<ScreenMessage>,
)
    requires
        s.partial is None,
        f.data.len() > 0,
        msgs.len() == chunk_count(f.data.len()),
        forall|i: int|
            0 <= i < msgs.len() ==> chunk_of(#[trigger] msgs[i]) == Some(split_chunk(f, i as nat)),
    ensures
        feed(s, chunks_of(msgs)) == (ReassemblyView { partial: None, dropped: s.dropped },
        Seq::new(
            chunk_count(f.data.len()),
            |k: int|
                if k == chunk_count(f.data.len()) - 1 {
                    Some(f)
                } else {
                    None
                },
        )),
{
    assert(chunks_of(msgs) =~= split_chunks(f));
    lemma_split_then_reassemble(s, f);
}

/// A chunk of another sequence abandons the frame in progress: one more frame
/// counts as dropped, none of the abandoned bytes is kept, and the chunk has
/// exactly the effect it has on a receiver with nothing in progress.
pub proof fn lemma_new_sequence_abandons_partial(s: ReassemblyView, c: ChunkView)
    requires
        s.partial matches Some(p) && p.sequence != c.sequence,
    ensures
        step(s, c) == step(
            ReassemblyView { partial: None, dropped: saturating_inc(s.dropped) },
            c,
        ),
        step(s, c).0.dropped == saturating_inc(s.dropped),
        step(s, c).0.partial matches Some(q) ==> q.sequence == c.sequence && q.bytes
            == chunk_bytes(c),
{
    assert(Map::<int, u8>::empty().union_prefer_right(chunk_bytes(c)) =~= chunk_bytes(c));
}

/// Runs of chunks from two states on which their first chunk acts alike end alike.
proof fn lemma_feed_same_after_first(s1: ReassemblyView, s2: ReassemblyView, cs: Seq<ChunkView>)
    requires
        cs.len() >= 1,
        step(s1, cs[0]) == step(s2, cs[0]),
    ensures
        feed(s1, cs) == feed(s2, cs),
    decreases cs.len(),
{
    if cs.len() == 1 {
        assert(cs.drop_last() =~= Seq::<ChunkView>::empty());
        assert(cs.last() == cs[0]);
        assert(feed(s1, cs.drop_last()) == (s1, Seq::<Option<FrameView>>::empty()));
        assert(feed(s2, cs.drop_last()) == (s2, Seq::<Option<FrameView>>::empty()));
    } else {
        assert(cs.drop_last()[0] == cs[0]);
        lemma_feed_same_after_first(s1, s2, cs.drop_last());
    }
}

/// An unfinished frame gives way to the next: where a frame of another
/// sequence is in progress, the chunks of a non-empty frame, in any order,
/// complete that frame with the final chunk and nothing else; the unfinished
/// frame is never handed out, its buffer is gone, and it counts as dropped.
pub proof fn lemma_next_frame_replaces_unfinished(
    s: ReassemblyView,
    f: FrameView,
    perm: Seq<int>,
)
    requires
        s.partial matches Some(p) && p.sequence != f.sequence,
        f.data.len() > 0,
        is_permutation(perm, chunk_count(f.data.len())),
    ensures
        feed(s, reorder(split_chunks(f), perm)) == (ReassemblyView {
            partial: None,
            dropped: saturating_inc(s.dropped),
        },
        Seq::new(
            chunk_count(f.data.len()),
            |k: int|
                if k == chunk_count(f.data.len()) - 1 {
                    Some(f)
                } else {
                    None
                },
        )),
{
    let cs = reorder(split_chunks(f), perm);
    let empty = ReassemblyView { partial: None, dropped: saturating_inc(s.dropped) };
    lemma_chunk_count_bounds(f.data.len());
    assert(cs[0].sequence == f.sequence);
    lemma_new_sequence_abandons_partial(s, cs[0]);
    lemma_feed_same_after_first(s, empty, cs);
    lemma_reordered_chunks_reassemble(empty, f, perm);
}

/// A frame in progress, held as a byte buffer and a flag per byte that says
/// whether it has been written.
struct PartialFrame {
    sequence: u64,
    width: u32,
    height: u32,
    timestamp_ms: u64,
    frame_type: FrameType,
    data: Vec<u8>,
    written: Vec<bool>,
    total: Option<usize>,
}

impl PartialFrame {
    spec fn wf(&self) -> bool {
        &&& self.data@.len() == self.written@.len()
        &&& self.total matches Some(t) ==> t <= self.data@.len()
    }

    spec fn view(&self) -> PartialView {
        PartialView {
            sequence: self.sequence,
            width: self.width,
            height: self.height,
            timestamp_ms: self.timestamp_ms,
            frame_type: self.frame_type,
            bytes: Map::new(
                |i: int| 0 <= i < self.written@.len() && self.written@[i],
                |i: int| self.data@[i],
            ),
            total: match self.total {
                Some(t) => Some(t as int),
                None => None,
            },
        }
    }

    fn start(sequence: u64, width: u32, height: u32, timestamp_ms: u64, frame_type: FrameType) -> (r:
        Self)
        ensures
            r.wf(),
            r.view() == (PartialView {
                sequence,
                width,
                height,
                timestamp_ms,
                frame_type,
                bytes: Map::empty(),
                total: None,
            }),
    {
        let r = PartialFrame {
            sequence,
            width,
            height,
            timestamp_ms,
            frame_type,
            data: Vec::new(),
            written: Vec::new(),
            total: None,
        };
        assert(r.view().bytes =~= Map::empty());
        r
    }

    /// Makes room for positions below `end`, writing nothing.
    fn grow_to(&mut self, end: usize)
        requires
            old(self).wf(),
        ensures
            final(self).wf(),
            final(self).view() == old(self).view(),
            final(self).data@.len() >= end,
    {
        let ghost before = self.view();
        while self.data.len() < end
            invariant
                self.wf(),
                self.view() == before,
            decreases end - self.data@.len(),
        {
            self.data.push(0);
            self.written.push(false);
            assert(self.view().bytes =~= before.bytes);
        }
    }

    /// Writes `bytes` from position `offset` on.
    fn write_at(&mut self, offset: usize, bytes: &Vec<u8>)
        requires
            old(self).wf(),
            offset + bytes@.len() <= old(self).data@.len(),
            offset + bytes@.len() <= usize::MAX,
        ensures
            final(self).wf(),
            final(self).data@.len() == old(self).data@.len(),
            final(self).view() == (PartialView {
                bytes: old(self).view().bytes.union_prefer_right(
                    Map::new(
                        |i: int| offset <= i < offset + bytes@.len(),
                        |i: int| bytes@[i - offset],
                    ),
                ),
                ..old(self).view()
            }),
    {
        let ghost old_data = self.data@;
        let ghost old_written = self.written@;
        let mut k: usize = 0;
        while k < bytes.len()
            invariant
                self.wf(),
                offset + bytes@.len() <= self.data@.len(),
                offset + bytes@.len() <= usize::MAX,
                self.data@.len() == old_data.len(),
                old_written.len() == old_data.len(),
                self.sequence == old(self).sequence,
                self.width == old(self).width,
                self.height == old(self).height,
                self.timestamp_ms == old(self).timestamp_ms,
                self.frame_type == old(self).frame_type,
                self.total == old(self).total,
                old_data == old(self).data@,
                old_written == old(self).written@,
                k <= bytes@.len(),
                forall|i: int|
                    0 <= i < old_data.len() ==> #[trigger] self.written@[i] == (old_written[i] || (
                    offset <= i < offset + k)),
                forall|i: int|
                    0 <= i < old_data.len() ==> #[trigger] self.data@[i] == if offset <= i < offset
                        + k {
                        bytes@[i - offset]
                    } else {
                        old_data[i]
                    },
            decreases bytes@.len() - k,
        {
            self.data.set(offset + k, bytes[k]);
            self.written.set(offset + k, true);
            k = k + 1;
        }
        assert(self.view().bytes =~= old(self).view().bytes.union_prefer_right(
            Map::new(|i: int| offset <= i < offset + bytes@.len(), |i: int| bytes@[i - offset]),
        ));
    }

    fn is_complete(&self) -> (r: bool)
        requires
            self.wf(),
        ensures
            r == is_complete(self.view()),
    {
        match self.total {
            None => false,
            Some(t) => {
                let mut i: usize = 0;
                while i < t
                    invariant
                        self.wf(),
                        self.total == Some(t),
                        i <= t,
                        forall|j: int| 0 <= j < i ==> #[trigger] self.view().bytes.contains_key(j),
                    decreases t - i,
                {
                    if !self.written[i] {
                        assert(!self.view().bytes.contains_key(i as int));
                        return false;
                    }
                    i = i + 1;
                }
                true
            },
        }
    }

    /// The frame that this complete frame in progress stands for.
    fn finish(self) -> (r: VideoFrame)
        requires
            self.wf(),
            is_complete(self.view()),
        ensures
            r@ == completed(self.view()),
    {
        let ghost v = self.view();
        let t = match self.total {
            Some(t) => t,
            None => 0,
        };
        let mut data = self.data;
        data.truncate(t);
        assert(data@ =~= completed(v).data) by {
            assert forall|i: int| 0 <= i < t implies data@[i] == #[trigger] completed(v).data[i] by {
                assert(v.bytes.contains_key(i));
            }
        }
        VideoFrame {
            data: bytes_from_vec(data),
            width: self.width,
            height: self.height,
            timestamp_ms: self.timestamp_ms,
            frame_type: self.frame_type,
            sequence: self.sequence,
        }
    }
}

/// Receiving side of the frame protocol: turns chunk messages back into frames.
pub struct FrameReassembler {
    partial: Option<PartialFrame>,
    dropped: u64,
}

impl View for FrameReassembler {
    type V = ReassemblyView;

    closed spec fn view(&self) -> ReassemblyView {
        ReassemblyView {
            partial: match self.partial {
                Some(p) => Some(p.view()),
                None => None,
            },
            dropped: self.dropped,
        }
    }
}

impl FrameReassembler {
    /// The buffers are consistent.
    pub closed spec fn wf(&self) -> bool {
        self.partial matches Some(p) ==> p.wf()
    }

    /// A receiver with no frame in progress and no frame dropped.
    pub fn new() -> (r: Self)
        ensures
            r.wf(),
            r@ == (ReassemblyView { partial: None, dropped: 0 }),
    {
        FrameReassembler { partial: None, dropped: 0 }
    }

    /// Takes one incoming message. A frame chunk is written into the frame in
    /// progress (abandoning an unfinished frame of another sequence first);
    /// the frame is handed out once it is complete. Any other message, a chunk
    /// with an unknown frame type code, and a chunk whose end does not fit in
    /// memory change nothing.
    pub fn push_chunk(&mut self, msg: &ScreenMessage) -> (r: Option<VideoFrame>)
        requires
            old(self).wf(),
        ensures
            final(self).wf(),
            chunk_of(*msg) is None ==> final(self)@ == old(self)@ && r is None,
            chunk_of(*msg) matches Some(c) ==> (final(self)@, frame_view_of(r)) == step(
                old(self)@,
                c,
            ),
    {
        let (sequence, width, height, timestamp_ms, code, data_offset, is_last, data) = match msg {
            ScreenMessage::VideoFrame {
                width,
                height,
                timestamp_ms,
                frame_type,
                sequence,
                data_offset,
                is_last,
                data,
            } => (*sequence, *width, *height, *timestamp_ms, *frame_type, *data_offset, *is_last, data),
            _ => {
                return None;
            },
        };
        let frame_type = match frame_type_from_code(code) {
            Some(t) => t,
            None => {
                return None;
            },
        };
        let offset = data_offset as usize;
        if data.len() > usize::MAX - offset {
            return None;
        }
        let end = offset + data.len();
        let ghost c = chunk_of(*msg)->0;
        let ghost s = self@;
        let mut q = match self.partial.take() {
            Some(p) => {
                if p.sequence == sequence {
                    p
                } else {
                    if self.dropped < u64::MAX {
                        self.dropped = self.dropped + 1;
                    }
                    PartialFrame::start(sequence, width, height, timestamp_ms, frame_type)
                }
            },
            None => PartialFrame::start(sequence, width, height, timestamp_ms, frame_type),
        };
        assert(q.view() == target_partial(s.partial, c));
        q.grow_to(end);
        q.write_at(offset, data);
        if is_last {
            q.total = Some(end);
        }
        assert(q.view().bytes == absorb(target_partial(s.partial, c), c).bytes);
        assert(q.view() == absorb(target_partial(s.partial, c), c));
        if q.is_complete() {
            Some(q.finish())
        } else {
            self.partial = Some(q);
            None
        }
    }

    /// Abandons the frame in progress, as on a reassembly timeout; reports
    /// whether there was one. An abandoned frame counts as dropped.
    pub fn discard_partial(&mut self) -> (r: bool)
        requires
            old(self).wf(),
        ensures
            final(self).wf(),
            r == old(self)@.partial is Some,
            final(self)@ == (ReassemblyView {
                partial: None,
                dropped: if r {
                    saturating_inc(old(self)@.dropped)
                } else {
                    old(self)@.dropped
                },
            }),
    {
        match self.partial.take() {
            Some(_) => {
                if self.dropped < u64::MAX {
                    self.dropped = self.dropped + 1;
                }
                true
            },
            None => false,
        }
    }

    /// How many frames were abandoned unfinished.
    pub fn dropped_frames(&self) -> (r: u64)
        ensures
            r == self@.dropped,
    {
        self.dropped
    }

    /// The sequence number of the frame in progress, if any.
    pub fn pending_sequence(&self) -> (r: Option<u64>)
        ensures
            r == match self@.partial {
                Some(p) => Some(p.sequence),
                None => None,
            },
    {
        match &self.partial {
            Some(p) => Some(p.sequence),
            None => None,
        }
    }
}

/// The acknowledgment that the receiver sends back for a completed frame.
pub fn acknowledge(frame: &VideoFrame) -> (r: ScreenMessage)
    ensures
        r == (ScreenMessage::AckFrame { sequence: frame.sequence }),
{
    ScreenMessage::AckFrame { sequence: frame.sequence }
}

} // verus!
