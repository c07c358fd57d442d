//! Network ingest: the byte pipe between the network and the decoder, and the
//! demultiplexer that takes the metadata out of the stream.
//!
//! Metadata is not handed straight to the display. A block sits in the byte
//! stream exactly where the audio it describes does, but that audio then waits
//! in the pipe for several seconds. Blocks are therefore stamped with the
//! pipe's write cursor and held until the decoder reaches that mark.

use crate::codec;
use crate::codec::lossy_text;
use crate::icy;
use crate::icy::{Block, Payload};
use crate::number;
use crate::text;
use std::collections::VecDeque;
use vstd::prelude::*;

verus! {

/// Soft cap on buffered audio bytes: twice the connect burst, so that the
/// burst fits with room for jitter on top.
pub const PIPE_CAP: usize = 262_144;

/// How far ahead of a cut a frame header is looked for.
pub const MAX_SCAN: usize = 2048;

// ---------------------------------------------------------------------------
// The pipe
// ---------------------------------------------------------------------------

/// A metadata block waiting for the audio it describes to reach the decoder.
struct Pending {
    /// Write-cursor position that the block was attached to.
    mark: u64,
    block: Block,
}

/// What the decoder learns on each iteration: metadata that has come due, and
/// how much audio is still buffered ahead of the speakers.
pub struct Tick {
    /// Blocks whose audio the decoder has now reached, oldest first.
    pub released: Vec<Block>,
    /// Everything not yet decoded: pipe backlog plus the decoder's read-ahead.
    pub depth_bytes: u64,
    /// The pipe's own backlog, which is the part a trim can actually reach.
    pub pipe_bytes: u64,
}

/// Outcome of a catch-up trim.
#[derive(Debug, PartialEq, Eq, Structural)]
pub struct Trim {
    pub bytes: u64,
    /// Blocks discarded because they described audio nobody will now hear.
    pub meta_skipped: usize,
}

impl Default for Trim {
    fn default() -> (t: Trim)
        ensures
            t.bytes == 0,
            t.meta_skipped == 0,
    {
        Trim { bytes: 0, meta_skipped: 0 }
    }
}

/// A bounded byte pipe from the network to the decoder.
pub struct BytePipe {
    buf: VecDeque<u8>,
    closed: bool,
    /// Bytes ever accepted into the pipe: the session write cursor.
    written: u64,
    /// Bytes ever discarded by a catch-up trim. The decoder's own byte count
    /// never sees them: its position is `dropped + demuxed`.
    dropped: u64,
    /// Stamped metadata, oldest first.
    meta: VecDeque<Pending>,
}

/// A block and the write-cursor position it was attached to.
pub ghost struct Mark {
    pub at: int,
    pub block: icy::BlockView,
}

/// What a [`BytePipe`] holds.
pub ghost struct PipeView {
    pub buf: Seq<u8>,
    pub closed: bool,
    pub written: int,
    pub dropped: int,
    pub meta: Seq<Mark>,
}

impl PipeView {
    /// What every operation keeps.
    pub open spec fn wf(self) -> bool {
        &&& self.buf.len() <= PIPE_CAP
        &&& 0 <= self.dropped
        &&& self.dropped + self.buf.len() <= self.written
        &&& forall|i: int, j: int|
            0 <= i <= j < self.meta.len() ==> (#[trigger] self.meta[i]).at <= (
            #[trigger] self.meta[j]).at
        &&& forall|i: int| 0 <= i < self.meta.len() ==> (#[trigger] self.meta[i]).at <= self.written
    }

    /// An open pipe that has carried nothing.
    pub open spec fn empty() -> PipeView {
        PipeView {
            buf: Seq::empty(),
            closed: false,
            written: 0,
            dropped: 0,
            meta: Seq::empty(),
        }
    }

    /// `bytes` were accepted.
    pub open spec fn appended(self, bytes: Seq<u8>) -> PipeView {
        PipeView { buf: self.buf + bytes, written: self.written + bytes.len(), ..self }
    }

    /// A block was attached to the write cursor.
    pub open spec fn stamped(self, block: icy::BlockView) -> PipeView {
        PipeView { meta: self.meta.push(Mark { at: self.written, block }), ..self }
    }

    /// The decoder's position, in write-cursor coordinates.
    pub open spec fn cursor(self, demuxed: int) -> int {
        self.dropped + demuxed
    }

    /// How many blocks have come due: those at the front whose mark the
    /// decoder has reached.
    pub open spec fn due(self, cursor: int) -> nat
        decreases self.meta.len(),
    {
        if self.meta.len() > 0 && self.meta[0].at <= cursor {
            1 + PipeView { meta: self.meta.skip(1), ..self }.due(cursor)
        } else {
            0
        }
    }

    /// Bytes written that the decoder has not reached.
    pub open spec fn depth(self, demuxed: int) -> int {
        if self.written > self.cursor(demuxed) {
            self.written - self.cursor(demuxed)
        } else {
            0
        }
    }

    /// The blocks that a tick releases, oldest first.
    pub open spec fn released(self, demuxed: int) -> Seq<icy::BlockView> {
        Seq::new(self.due(self.cursor(demuxed)), |i: int| self.meta[i].block)
    }

    /// The blocks that have come due were handed out.
    pub open spec fn ticked(self, demuxed: int) -> PipeView {
        PipeView { meta: self.meta.skip(self.due(self.cursor(demuxed)) as int), ..self }
    }

    /// How many bytes a read into `room` bytes moves.
    pub open spec fn readable(self, room: int) -> int {
        if self.buf.len() < room {
            self.buf.len() as int
        } else {
            room
        }
    }

    /// What a read into `room` leaves behind: the oldest bytes moved to the
    /// front of `room`, as many as fit. Nothing is moved out of an empty pipe,
    /// which has ended if it is closed and keeps the reader waiting if not.
    pub open spec fn read_gives(
        self,
        r: Option<usize>,
        room: Seq<u8>,
        left: PipeView,
        filled: Seq<u8>,
    ) -> bool {
        let n = self.readable(room.len() as int);
        &&& (r is None) == (self.buf.len() == 0 && room.len() > 0 && !self.closed)
        &&& r is Some ==> r->0 == n
        &&& left == PipeView { buf: self.buf.skip(n), ..self }
        &&& filled == self.buf.take(n) + room.skip(n)
    }

    /// How many bytes a trim discards.
    pub open spec fn cut(self, keep: int) -> int {
        if self.buf.len() <= keep {
            0
        } else {
            let want = self.buf.len() - keep;
            want + sync_offset(self.buf.skip(want))
        }
    }

    /// How many blocks a trim discards: of those that have come due, all but
    /// the newest, which is the best description of what is about to be heard.
    pub open spec fn passed_over(self, cursor: int) -> int {
        if self.due(cursor) > 0 {
            self.due(cursor) - 1
        } else {
            0
        }
    }

    /// The oldest audio was discarded, until at most `keep` bytes remain.
    pub open spec fn trimmed(self, keep: int, demuxed: int) -> PipeView {
        if self.buf.len() <= keep {
            self
        } else {
            let cut = self.cut(keep);
            let passed = self.passed_over(self.dropped + cut + demuxed);
            PipeView {
                buf: self.buf.skip(cut),
                dropped: self.dropped + cut,
                meta: self.meta.skip(passed),
                ..self
            }
        }
    }
}

/// Whether a frame header begins at `i`: eleven set bits.
pub open spec fn header_at(s: Seq<u8>, i: int) -> bool {
    0 <= i && i + 1 < s.len() && s[i] == 0xFF && s[i + 1] >= 0xE0
}

/// The first frame header of `s` at or after `from`, before `end`.
pub open spec fn header_from(s: Seq<u8>, from: int, end: int) -> Option<int>
    decreases end - from,
{
    if from + 1 >= end {
        None
    } else if header_at(s, from) {
        Some(from)
    } else {
        header_from(s, from + 1, end)
    }
}

/// Offset of the first frame header within a bounded scan, or 0.
pub open spec fn sync_offset(s: Seq<u8>) -> int {
    let end: int = if s.len() < MAX_SCAN {
        s.len() as int
    } else {
        MAX_SCAN as int
    };
    match header_from(s, 0, end) {
        Some(i) => i,
        None => 0,
    }
}

/// What a header search finds is a header, and the first one.
pub proof fn lemma_header_from(s: Seq<u8>, from: int, end: int)
    requires
        0 <= from,
        end <= s.len(),
    ensures
        match header_from(s, from, end) {
            Some(i) => {
                &&& from <= i < end - 1
                &&& header_at(s, i)
                &&& forall|j: int| from <= j < i ==> !header_at(s, j)
            },
            None => forall|j: int| from <= j < end - 1 ==> !header_at(s, j),
        },
    decreases end - from,
{
    if from + 1 < end && !header_at(s, from) {
        lemma_header_from(s, from + 1, end);
    }
}

/// A header search sees no further than its end.
proof fn lemma_header_window(s: Seq<u8>, window: Seq<u8>, from: int, end: int)
    requires
        0 <= from,
        end <= s.len(),
        window == s.take(end),
    ensures
        header_from(window, from, end) == header_from(s, from, end),
    decreases end - from,
{
    if from + 1 < end {
        lemma_header_window(s, window, from + 1, end);
    }
}

/// What has come due depends on the blocks alone.
proof fn lemma_due_depends_on_meta(a: PipeView, b: PipeView, cursor: int)
    requires
        a.meta == b.meta,
    ensures
        a.due(cursor) == b.due(cursor),
    decreases a.meta.len(),
{
    if a.meta.len() > 0 && a.meta[0].at <= cursor {
        lemma_due_depends_on_meta(
            PipeView { meta: a.meta.skip(1), ..a },
            PipeView { meta: b.meta.skip(1), ..b },
            cursor,
        );
    }
}

/// Offset of the next frame header at or after the start of `s`. Returns 0
/// when none is found within a bounded scan: a trim landing mid-frame costs at
/// most one glitched frame, which the decoder skips.
pub fn frame_sync_offset(s: &[u8]) -> (r: usize)
    ensures
        r == sync_offset(s@),
        s@.len() > 0 ==> r < s@.len(),
{
    let n: usize = if s.len() < MAX_SCAN {
        s.len()
    } else {
        MAX_SCAN
    };
    let mut i: usize = 0;
    while i + 1 < n
        invariant
            i <= n <= s.len(),
            n == (if s@.len() < MAX_SCAN {
                s@.len()
            } else {
                MAX_SCAN as nat
            }),
            header_from(s@, 0, n as int) == header_from(s@, i as int, n as int),
        decreases n - i,
    {
        let next: u8 = s[i + 1];
        assert((next & 0xE0) == 0xE0 <==> next >= 0xE0) by (bit_vector);
        if s[i] == 0xFF && (next & 0xE0) == 0xE0 {
            return i;
        }
        i += 1;
    }
    0
}

impl Pending {
    spec fn mark_view(self) -> Mark {
        Mark { at: self.mark as int, block: self.block@ }
    }
}

/// Taking the first block out of a pipe takes its mark out of the model.
proof fn lemma_popped(held: BytePipe, left: BytePipe)
    requires
        held.meta@.len() > 0,
        left.meta@ == held.meta@.subrange(1, held.meta@.len() as int),
    ensures
        left@.meta == held@.meta.skip(1),
{
    assert(left@.meta =~= held@.meta.skip(1));
}

impl View for BytePipe {
    type V = PipeView;

    closed spec fn view(&self) -> PipeView {
        PipeView {
            buf: self.buf@,
            closed: self.closed,
            written: self.written as int,
            dropped: self.dropped as int,
            meta: self.meta@.map_values(|p: Pending| p.mark_view()),
        }
    }
}

impl BytePipe {
    pub fn new() -> (p: BytePipe)
        ensures
            p@ == PipeView::empty(),
            p@.wf(),
    {
        let p = BytePipe {
            buf: VecDeque::with_capacity(PIPE_CAP),
            closed: false,
            written: 0,
            dropped: 0,
            meta: VecDeque::new(),
        };
        assert(p@.buf =~= Seq::<u8>::empty());
        assert(p@.meta =~= Seq::<Mark>::empty());
        p
    }

    /// Accept as many of `bytes` as there is room for. Returns how many are
    /// dealt with: fewer than all of them means that the pipe is full and the
    /// writer has to wait for space. Once the pipe is closed or `stop` is
    /// raised, all bytes count as dealt with and none is kept.
    pub fn write_all(&mut self, bytes: &[u8], stop: bool) -> (taken: usize)
        requires
            old(self)@.wf(),
            old(self)@.written + bytes@.len() <= u64::MAX,
        ensures
            final(self)@.wf(),
            taken <= bytes@.len(),
            stop || old(self)@.closed ==> final(self)@ == old(self)@ && taken == bytes@.len(),
            !(stop || old(self)@.closed) ==> {
                &&& final(self)@ == old(self)@.appended(bytes@.take(taken as int))
                &&& taken < bytes@.len() ==> final(self)@.buf.len() == PIPE_CAP
            },
    {
        if self.closed || stop {
            return bytes.len();
        }
        let room: usize = PIPE_CAP - self.buf.len();
        let can: usize = if bytes.len() < room {
            bytes.len()
        } else {
            room
        };
        let ghost before = *self;
        let mut i: usize = 0;
        assert(self.buf@ =~= before.buf@ + bytes@.take(0));
        while i < can
            invariant
                i <= can <= bytes@.len(),
                self.buf@ == before.buf@ + bytes@.take(i as int),
                self.closed == before.closed,
                self.written == before.written,
                self.dropped == before.dropped,
                self.meta == before.meta,
            decreases can - i,
        {
            self.buf.push_back(bytes[i]);
            assert(bytes@.take(i + 1) =~= bytes@.take(i as int).push(bytes@[i as int]));
            i += 1;
        }
        self.written = self.written + can as u64;
        assert(self@ == before@.appended(bytes@.take(can as int)));
        can
    }

    /// Hold a metadata block until the decoder reaches the audio it describes.
    /// Called the moment the block is demultiplexed, when the write cursor is
    /// precisely the block's byte position.
    pub fn stamp_meta(&mut self, block: Block)
        requires
            old(self)@.wf(),
        ensures
            final(self)@ == old(self)@.stamped(block@),
            final(self)@.wf(),
    {
        let ghost before = *self;
        self.meta.push_back(Pending { mark: self.written, block });
        assert(self@.meta =~= before@.meta.push(Mark { at: before@.written, block: block@ }));
    }

    pub fn close(&mut self)
        requires
            old(self)@.wf(),
        ensures
            final(self)@ == (PipeView { closed: true, meta: Seq::empty(), ..old(self)@ }),
            final(self)@.wf(),
    {
        self.closed = true;
        self.meta.clear();
        assert(self@.meta =~= Seq::<Mark>::empty());
    }

    /// Whether the pipe has been closed.
    pub fn is_closed(&self) -> (b: bool)
        ensures
            b == self@.closed,
    {
        self.closed
    }

    /// Bytes waiting in the pipe.
    pub fn buffered(&self) -> (n: usize)
        ensures
            n == self@.buf.len(),
    {
        self.buf.len()
    }

    /// Bytes ever accepted.
    pub fn written(&self) -> (n: u64)
        ensures
            n == self@.written,
    {
        self.written
    }

    /// Bytes ever discarded by a trim.
    pub fn dropped(&self) -> (n: u64)
        ensures
            n == self@.dropped,
    {
        self.dropped
    }

    /// Collect any metadata that has come due and report the buffer depth.
    /// `demuxed` is the running total of packet bytes that the decoder has
    /// pulled out.
    pub fn tick(&mut self, demuxed: u64) -> (t: Tick)
        requires
            old(self)@.wf(),
            old(self)@.cursor(demuxed as int) <= u64::MAX,
        ensures
            final(self)@ == old(self)@.ticked(demuxed as int),
            final(self)@.wf(),
            t.released@.len() == old(self)@.due(old(self)@.cursor(demuxed as int)),
            forall|i: int|
                0 <= i < t.released@.len() ==> (#[trigger] t.released@[i])@
                    == old(self)@.meta[i].block,
            t.depth_bytes == old(self)@.depth(demuxed as int),
            t.pipe_bytes == old(self)@.buf.len(),
    {
        let ghost before = self@;
        let cursor: u64 = self.dropped + demuxed;
        let mut released: Vec<Block> = Vec::new();
        assert(before.meta.skip(0) =~= before.meta);
        while self.meta.len() > 0 && self.meta[0].mark <= cursor
            invariant
                before.wf(),
                cursor == before.cursor(demuxed as int),
                released@.len() <= before.meta.len(),
                self@ == (PipeView { meta: before.meta.skip(released@.len() as int), ..before }),
                before.due(cursor as int) == released@.len() + self@.due(cursor as int),
                forall|i: int|
                    0 <= i < released@.len() ==> (#[trigger] released@[i])@
                        == before.meta[i].block,
            decreases self.meta.len(),
        {
            let ghost n = released@.len() as int;
            let ghost held = *self;
            assert(held@.meta[0] == held.meta@[0].mark_view());
            match self.meta.pop_front() {
                Some(p) => {
                    proof {
                        lemma_popped(held, *self);
                        assert(self@.meta =~= before.meta.skip(n + 1));
                        assert(held@.meta.skip(1) =~= before.meta.skip(n + 1));
                        assert(before.meta[n] == held@.meta[0]);
                    }
                    released.push(p.block);
                },
                None => {},
            }
        }
        proof {
            if self.meta@.len() > 0 {
                assert(self@.meta[0] == self.meta@[0].mark_view());
            }
        }
        Tick {
            released,
            depth_bytes: self.written.saturating_sub(cursor),
            pipe_bytes: self.buf.len() as u64,
        }
    }

    /// Discard the oldest buffered audio until at most `keep` bytes remain,
    /// cutting at the next frame header, so that the decoder resumes on a real
    /// frame rather than in the middle of one.
    pub fn trim_to(&mut self, keep: usize, demuxed: u64) -> (t: Trim)
        requires
            old(self)@.wf(),
            old(self)@.buf.len() > keep ==> old(self)@.dropped + old(self)@.cut(keep as int)
                + demuxed <= u64::MAX,
        ensures
            final(self)@ == old(self)@.trimmed(keep as int, demuxed as int),
            final(self)@.wf(),
            t.bytes == old(self)@.cut(keep as int),
            t.meta_skipped == old(self)@.meta.len() - final(self)@.meta.len(),
    {
        if self.buf.len() <= keep {
            return Trim { bytes: 0, meta_skipped: 0 };
        }
        let ghost before = self@;
        let want: usize = self.buf.len() - keep;
        let cut: usize = want + self.sync_offset_at(want);
        let rest = self.buf.split_off(cut);
        self.buf = rest;
        assert(self.buf@ =~= before.buf.skip(cut as int));
        self.dropped = self.dropped + cut as u64;

        // Blocks that were jumped over describe audio nobody will hear. Only
        // the newest of them stays.
        let cursor: u64 = self.dropped + demuxed;
        let mut skipped: usize = 0;
        let total: usize = self.meta.len();
        assert(before.meta.skip(0) =~= before.meta);
        proof {
            lemma_due_depends_on_meta(before, self@, cursor as int);
        }
        while self.meta.len() > 1 && self.meta[0].mark <= cursor && self.meta[1].mark <= cursor
            invariant
                before.wf(),
                skipped + self.meta@.len() == total,
                before.meta.len() == total,
                self@ == (PipeView {
                    buf: before.buf.skip(cut as int),
                    dropped: before.dropped + cut,
                    meta: before.meta.skip(skipped as int),
                    ..before
                }),
                before.due(cursor as int) == skipped + self@.due(cursor as int),
                skipped > 0 ==> self@.due(cursor as int) > 0,
            decreases self.meta.len(),
        {
            let ghost held = *self;
            proof {
                assert(held@.meta[0] == held.meta@[0].mark_view());
                assert(held@.meta[1] == held.meta@[1].mark_view());
            }
            let _ = self.meta.pop_front();
            proof {
                lemma_popped(held, *self);
                assert(self@.meta =~= before.meta.skip(skipped + 1));
                assert(held@.meta.skip(1) =~= self@.meta);
                assert(PipeView { meta: held@.meta.skip(1), ..held@ } == self@);
                assert(self@.meta[0] == held@.meta[1]);
            }
            skipped += 1;
        }
        proof {
            let rest = self@;
            if rest.meta.len() > 0 {
                assert(rest.meta[0] == self.meta@[0].mark_view());
                if rest.meta[0].at <= cursor {
                    let tail = PipeView { meta: rest.meta.skip(1), ..rest };
                    if rest.meta.len() > 1 {
                        assert(rest.meta[1] == self.meta@[1].mark_view());
                        assert(tail.meta[0] == rest.meta[1]);
                    }
                    assert(tail.due(cursor as int) == 0);
                }
            }
            assert(before.passed_over(cursor as int) == skipped);
        }
        Trim { bytes: cut as u64, meta_skipped: skipped }
    }

    /// Offset of the next frame header at or after buffered byte `from`.
    fn sync_offset_at(&self, from: usize) -> (r: usize)
        requires
            from <= self@.buf.len(),
        ensures
            r == sync_offset(self@.buf.skip(from as int)),
            from + r <= self@.buf.len(),
    {
        let ghost tail = self.buf@.skip(from as int);
        let total: usize = self.buf.len();
        let left: usize = total - from;
        let n: usize = if left < MAX_SCAN {
            left
        } else {
            MAX_SCAN
        };
        let mut window: Vec<u8> = Vec::new();
        let mut i: usize = 0;
        while i < n
            invariant
                i <= n <= left,
                from + left == total,
                total == self.buf@.len(),
                tail == self.buf@.skip(from as int),
                window@ == tail.take(i as int),
            decreases n - i,
        {
            window.push(self.buf[from + i]);
            assert(tail.take(i + 1) =~= tail.take(i as int).push(tail[i as int]));
            i += 1;
        }
        proof {
            lemma_header_window(tail, window@, 0, n as int);
        }
        frame_sync_offset(window.as_slice())
    }

    /// Move waiting bytes into `out`. Returns how many were moved, where 0
    /// means a clean end of the stream (or no room in `out`), and nothing when
    /// the reader has to wait for data.
    pub fn read(&mut self, out: &mut [u8]) -> (r: Option<usize>)
        requires
            old(self)@.wf(),
        ensures
            final(self)@.wf(),
            old(self)@.read_gives(r, old(out)@, final(self)@, final(out)@),
    {
        let n: usize = if self.buf.len() < out.len() {
            self.buf.len()
        } else {
            out.len()
        };
        if n == 0 {
            assert(self.buf@.skip(0) =~= self.buf@);
            assert(self.buf@.take(0) + out@.skip(0) =~= out@);
            if out.len() == 0 || self.closed {
                return Some(0);
            }
            return None;
        }
        let ghost before = *self;
        let ghost room = out@;
        let mut i: usize = 0;
        assert(before.buf@.skip(0) =~= before.buf@);
        assert(before.buf@.take(0) + room.skip(0) =~= room);
        while i < n
            invariant
                i <= n <= before.buf@.len(),
                n <= room.len(),
                self.buf@ == before.buf@.skip(i as int),
                self.closed == before.closed,
                self.written == before.written,
                self.dropped == before.dropped,
                self.meta == before.meta,
                out@ == before.buf@.take(i as int) + room.skip(i as int),
            decreases n - i,
        {
            match self.buf.pop_front() {
                Some(b) => {
                    out[i] = b;
                    proof {
                        assert(before.buf@.skip(i as int).subrange(
                            1,
                            before.buf@.skip(i as int).len() as int,
                        ) =~= before.buf@.skip(i + 1));
                        assert(out@ =~= before.buf@.take(i + 1) + room.skip(i + 1));
                    }
                },
                None => {},
            }
            i += 1;
        }
        Some(n)
    }

    /// Bytes written that a decoder which has pulled `demuxed` has not reached.
    pub fn depth(&self, demuxed: u64) -> (n: u64)
        requires
            self@.cursor(demuxed as int) <= u64::MAX,
        ensures
            n == self@.depth(demuxed as int),
    {
        self.written.saturating_sub(self.dropped + demuxed)
    }
}

/// The decoder's side of a [`BytePipe`].
pub struct PipeReader {
    pipe: BytePipe,
}

impl View for PipeReader {
    type V = PipeView;

    closed spec fn view(&self) -> PipeView {
        self.pipe@
    }
}

impl PipeReader {
    pub fn new(pipe: BytePipe) -> (r: PipeReader)
        ensures
            r@ == pipe@,
    {
        PipeReader { pipe }
    }

    /// Move waiting bytes into `out`; see [`BytePipe::read`].
    pub fn read(&mut self, out: &mut [u8]) -> (r: Option<usize>)
        requires
            old(self)@.wf(),
        ensures
            final(self)@.wf(),
            old(self)@.read_gives(r, old(out)@, final(self)@, final(out)@),
    {
        self.pipe.read(out)
    }

    /// A live stream cannot be rewound.
    pub fn is_seekable(&self) -> (b: bool)
        ensures
            !b,
    {
        false
    }

    /// A live stream has no length.
    pub fn byte_len(&self) -> (n: Option<u64>)
        ensures
            n is None,
    {
        None
    }
}

// ---------------------------------------------------------------------------
// The demultiplexer
// ---------------------------------------------------------------------------

/// Where in the stream the demultiplexer stands.
enum Seg {
    /// So many audio bytes until the next metadata length.
    Audio(usize),
    /// The next byte is a metadata length.
    MetaLen,
    /// So many metadata bytes to come, after those collected.
    Meta(usize, Vec<u8>),
    /// This block is complete but for its schedule, which is to be read from
    /// this document.
    Waiting(Block, Vec<u8>),
}

/// Takes the metadata out of a stream that carries a block after every
/// `metaint` audio bytes.
pub struct IcyDemux {
    metaint: usize,
    seg: Seg,
}

/// Where in the stream a demultiplexer stands.
pub ghost enum SegView {
    Audio(int),
    MetaLen,
    Meta(int, Seq<u8>),
    Waiting(icy::BlockView, Seq<u8>),
}

/// A demultiplexer and the pipe that it fills.
pub ghost struct Flow {
    pub metaint: int,
    pub seg: SegView,
    pub pipe: PipeView,
}

/// The text that metadata bytes write. Blocks are padded with NULs.
pub open spec fn meta_text(bytes: Seq<u8>) -> Seq<char> {
    text::without_trailing(codec::lossy(bytes), '\0')
}

/// The block that metadata bytes write, where they write one, with `parsed` as
/// what its document holds.
pub open spec fn meta_says(bytes: Seq<u8>, parsed: Option<Payload>) -> Option<icy::BlockView> {
    icy::block_says(meta_text(bytes), parsed)
}

/// The document in the block that metadata bytes write.
pub open spec fn meta_document(bytes: Seq<u8>) -> Option<Seq<u8>> {
    icy::block_document(meta_text(bytes))
}

impl Flow {
    /// The start of a stream with a block after every `metaint` audio bytes,
    /// or with none at all.
    pub open spec fn start(metaint: int, pipe: PipeView) -> Flow {
        Flow {
            metaint,
            seg: SegView::Audio(
                if metaint == 0 {
                    usize::MAX as int
                } else {
                    metaint
                },
            ),
            pipe,
        }
    }

    /// An audio byte goes to the pipe, unless nobody wants it any more.
    pub open spec fn heard(self, b: u8, stop: bool) -> PipeView {
        if stop || self.pipe.closed {
            self.pipe
        } else {
            self.pipe.appended(seq![b])
        }
    }

    /// A complete metadata block is stamped, where it says anything. One with
    /// a document first waits for its schedule to be read.
    pub open spec fn noted(self, bytes: Seq<u8>) -> Flow {
        match (meta_says(bytes, None), meta_document(bytes)) {
            (Some(block), Some(document)) => Flow {
                seg: SegView::Waiting(block, document),
                ..self
            },
            (Some(block), None) => Flow {
                seg: SegView::Audio(self.metaint),
                pipe: self.pipe.stamped(block),
                ..self
            },
            (None, _) => Flow { seg: SegView::Audio(self.metaint), ..self },
        }
    }

    /// Whether a document is waiting to be read.
    pub open spec fn waits(self) -> bool {
        self.seg is Waiting
    }

    /// The document has been read: its block is stamped with the schedule.
    pub open spec fn answered(self, parsed: Option<Payload>) -> Flow {
        match self.seg {
            SegView::Waiting(block, _) => Flow {
                seg: SegView::Audio(self.metaint),
                pipe: self.pipe.stamped(block.scheduled(parsed)),
                ..self
            },
            _ => self,
        }
    }

    /// One byte of the stream. None is taken while a document is waiting to be
    /// read.
    pub open spec fn byte(self, b: u8, stop: bool) -> Flow {
        if self.metaint == 0 {
            Flow { pipe: self.heard(b, stop), ..self }
        } else {
            match self.seg {
                SegView::Audio(left) => Flow {
                    seg: if left == 1 {
                        SegView::MetaLen
                    } else {
                        SegView::Audio(left - 1)
                    },
                    pipe: self.heard(b, stop),
                    ..self
                },
                SegView::MetaLen => Flow {
                    seg: if b == 0 {
                        SegView::Audio(self.metaint)
                    } else {
                        SegView::Meta(b * 16, Seq::empty())
                    },
                    ..self
                },
                SegView::Meta(left, seen) => if left == 1 {
                    self.noted(seen.push(b))
                } else {
                    Flow { seg: SegView::Meta(left - 1, seen.push(b)), ..self }
                },
                SegView::Waiting(_, _) => self,
            }
        }
    }

    /// A run of bytes of the stream.
    pub open spec fn bytes(self, bytes: Seq<u8>, stop: bool) -> Flow
        decreases bytes.len(),
    {
        if bytes.len() == 0 {
            self
        } else {
            self.bytes(bytes.drop_last(), stop).byte(bytes.last(), stop)
        }
    }

    /// Whether the bytes of a run were all taken: no document was waiting to be
    /// read before the last of them.
    pub open spec fn takes_all(self, bytes: Seq<u8>, stop: bool) -> bool {
        forall|k: int|
            0 <= k < bytes.len() ==> !(#[trigger] self.bytes(bytes.take(k), stop)).waits()
    }

    /// What every run of bytes keeps.
    pub open spec fn wf(self) -> bool {
        &&& self.pipe.wf()
        &&& 0 <= self.metaint <= usize::MAX
        &&& self.metaint == 0 ==> self.seg is Audio
        &&& match self.seg {
            SegView::Audio(left) => 0 < left <= usize::MAX,
            SegView::MetaLen => true,
            SegView::Meta(left, seen) => 0 < left <= 255 * 16,
            SegView::Waiting(_, _) => true,
        }
    }

    /// Whether the next byte of the stream is audio.
    pub open spec fn audio_next(self) -> bool {
        self.seg is Audio
    }
}

/// Two runs one after the other are one longer run: it makes no difference how
/// the stream was cut into chunks.
pub proof fn law_chunks_do_not_matter(f: Flow, a: Seq<u8>, b: Seq<u8>, stop: bool)
    ensures
        f.bytes(a, stop).bytes(b, stop) == f.bytes(a + b, stop),
    decreases b.len(),
{
    if b.len() == 0 {
        assert(a + b =~= a);
    } else {
        law_chunks_do_not_matter(f, a, b.drop_last(), stop);
        assert((a + b).drop_last() =~= a + b.drop_last());
    }
}

/// Runs that were each taken whole are taken whole as one.
pub proof fn lemma_takes_both(f: Flow, a: Seq<u8>, b: Seq<u8>, stop: bool)
    requires
        f.takes_all(a, stop),
        f.bytes(a, stop).takes_all(b, stop),
    ensures
        f.takes_all(a + b, stop),
{
    assert forall|k: int| 0 <= k < (a + b).len() implies !(#[trigger] f.bytes(
        (a + b).take(k),
        stop,
    )).waits() by {
        if k < a.len() {
            assert((a + b).take(k) =~= a.take(k));
        } else {
            let rest = b.take(k - a.len());
            assert((a + b).take(k) =~= a + rest);
            law_chunks_do_not_matter(f, a, rest, stop);
            assert(!f.bytes(a, stop).bytes(rest, stop).waits());
        }
    }
}

/// A run of audio bytes, short of or up to the next metadata length.
pub proof fn lemma_audio_run(f: Flow, run: Seq<u8>, stop: bool)
    requires
        f.seg matches SegView::Audio(left) && (f.metaint == 0 || run.len() <= left),
    ensures
        f.bytes(run, stop) == (Flow {
            seg: if f.metaint == 0 {
                f.seg
            } else if run.len() > 0 && run.len() == f.seg->Audio_0 {
                SegView::MetaLen
            } else {
                SegView::Audio(f.seg->Audio_0 - run.len())
            },
            pipe: if stop || f.pipe.closed {
                f.pipe
            } else {
                f.pipe.appended(run)
            },
            ..f
        }),
        f.takes_all(run, stop),
    decreases run.len(),
{
    if run.len() == 0 {
        assert(f.pipe.buf + run =~= f.pipe.buf);
    } else {
        let head = run.drop_last();
        lemma_audio_run(f, head, stop);
        assert((f.pipe.buf + head) + seq![run.last()] =~= f.pipe.buf + run);
        lemma_takes_one_more(f, run, stop);
    }
}

/// A run was taken whole if all but its last byte was, and nothing waits then.
proof fn lemma_takes_one_more(f: Flow, run: Seq<u8>, stop: bool)
    requires
        run.len() > 0,
        f.takes_all(run.drop_last(), stop),
        !f.bytes(run.drop_last(), stop).waits(),
    ensures
        f.takes_all(run, stop),
{
    let head = run.drop_last();
    assert forall|k: int| 0 <= k < run.len() implies !(#[trigger] f.bytes(
        run.take(k),
        stop,
    )).waits() by {
        if k < head.len() {
            assert(run.take(k) =~= head.take(k));
        } else {
            assert(run.take(k) =~= head);
        }
    }
}

/// A run of metadata bytes, short of the block's last one.
pub proof fn lemma_meta_run(f: Flow, run: Seq<u8>, stop: bool)
    requires
        f.metaint > 0,
        f.seg matches SegView::Meta(left, _) && run.len() < left,
    ensures
        f.bytes(run, stop) == (Flow {
            seg: SegView::Meta(f.seg->Meta_0 - run.len(), f.seg->Meta_1 + run),
            ..f
        }),
        f.takes_all(run, stop),
    decreases run.len(),
{
    if run.len() == 0 {
        assert(f.seg->Meta_1 + run =~= f.seg->Meta_1);
    } else {
        let head = run.drop_last();
        lemma_meta_run(f, head, stop);
        assert((f.seg->Meta_1 + head).push(run.last()) =~= f.seg->Meta_1 + run);
        lemma_takes_one_more(f, run, stop);
    }
}

/// A run of metadata bytes, up to and with the block's last one.
pub proof fn lemma_meta_completed(f: Flow, run: Seq<u8>, stop: bool)
    requires
        f.metaint > 0,
        f.seg matches SegView::Meta(left, _) && run.len() == left && left > 0,
    ensures
        f.bytes(run, stop) == f.noted(f.seg->Meta_1 + run),
        f.takes_all(run, stop),
{
    let head = run.drop_last();
    lemma_meta_run(f, head, stop);
    lemma_takes_one_more(f, run, stop);
    assert((f.seg->Meta_1 + head).push(run.last()) =~= f.seg->Meta_1 + run);
}

impl Seg {
    spec fn seg_view(self) -> SegView {
        match self {
            Seg::Audio(left) => SegView::Audio(left as int),
            Seg::MetaLen => SegView::MetaLen,
            Seg::Meta(left, seen) => SegView::Meta(left as int, seen@),
            Seg::Waiting(block, document) => SegView::Waiting(block@, document@),
        }
    }
}

impl IcyDemux {
    /// The audio bytes between two blocks.
    pub closed spec fn interval(self) -> int {
        self.metaint as int
    }

    /// Where in the stream this demultiplexer stands.
    pub closed spec fn stands_at(self) -> SegView {
        self.seg.seg_view()
    }

    /// This demultiplexer with the pipe that it fills.
    pub open spec fn flow(self, pipe: PipeView) -> Flow {
        Flow { metaint: self.interval(), seg: self.stands_at(), pipe }
    }

    pub fn new(metaint: usize) -> (d: IcyDemux)
        ensures
            forall|pipe: PipeView|
                #[trigger] d.flow(pipe) == Flow::start(metaint as int, pipe),
            d.interval() == metaint,
    {
        IcyDemux {
            metaint,
            seg: if metaint == 0 {
                Seg::Audio(usize::MAX)
            } else {
                Seg::Audio(metaint)
            },
        }
    }

    /// Audio bytes, up to the next metadata length or as far as there is room.
    fn feed_audio(&mut self, rest: &[u8], pipe: &mut BytePipe, stop: bool) -> (took: usize)
        requires
            old(self).flow(old(pipe)@).wf(),
            old(self).flow(old(pipe)@).audio_next(),
            old(pipe)@.written + rest@.len() <= u64::MAX,
            rest@.len() > 0,
        ensures
            took <= rest@.len(),
            final(self).flow(final(pipe)@) == old(self).flow(old(pipe)@).bytes(
                rest@.take(took as int),
                stop,
            ),
            old(self).flow(old(pipe)@).takes_all(rest@.take(took as int), stop),
            final(self).flow(final(pipe)@).wf(),
            final(pipe)@.written <= old(pipe)@.written + took,
            took == 0 || final(self).flow(final(pipe)@).audio_next() && took < rest@.len() ==> {
                &&& !stop && !final(pipe)@.closed
                &&& final(pipe)@.buf.len() == PIPE_CAP
                &&& final(self).flow(final(pipe)@).audio_next()
            },
    {
        let ghost here = self.flow(pipe@);
        let left: usize = match &self.seg {
            Seg::Audio(left) => *left,
            _ => 0,
        };
        let take: usize = if self.metaint == 0 || rest.len() < left {
            rest.len()
        } else {
            left
        };
        let run = &rest[0..take];
        let took: usize = pipe.write_all(run, stop);
        proof {
            assert(run@.take(took as int) =~= rest@.take(took as int));
            lemma_audio_run(here, rest@.take(took as int), stop);
        }
        if self.metaint != 0 {
            self.seg = if took == left {
                Seg::MetaLen
            } else {
                Seg::Audio(left - took)
            };
        }
        took
    }

    /// A metadata length.
    fn feed_len(&mut self, b: u8, Ghost(pipe): Ghost<PipeView>)
        requires
            old(self).flow(pipe).wf(),
            old(self).flow(pipe).seg is MetaLen,
        ensures
            forall|stop: bool|
                final(self).flow(pipe) == #[trigger] old(self).flow(pipe).byte(b, stop),
            final(self).flow(pipe).wf(),
    {
        let len: usize = b as usize * 16;
        self.seg = if len == 0 {
            Seg::Audio(self.metaint)
        } else {
            Seg::Meta(len, Vec::new())
        };
        proof {
            if len != 0 {
                assert(self.seg.seg_view()->Meta_1 =~= Seq::<u8>::empty());
            }
        }
    }

    /// Metadata bytes, up to the end of the block.
    fn feed_meta(&mut self, rest: &[u8], pipe: &mut BytePipe) -> (took: usize)
        requires
            old(self).flow(old(pipe)@).wf(),
            old(self).flow(old(pipe)@).seg is Meta,
            rest@.len() > 0,
        ensures
            0 < took <= rest@.len(),
            forall|stop: bool|
                final(self).flow(final(pipe)@) == #[trigger] old(self).flow(old(pipe)@).bytes(
                    rest@.take(took as int),
                    stop,
                ),
            forall|stop: bool|
                #[trigger] old(self).flow(old(pipe)@).takes_all(rest@.take(took as int), stop),
            final(self).flow(final(pipe)@).wf(),
            final(pipe)@.written == old(pipe)@.written,
    {
        let ghost here = self.flow(pipe@);
        let mut seg = Seg::MetaLen;
        core::mem::swap(&mut seg, &mut self.seg);
        let (left, mut seen): (usize, Vec<u8>) = match seg {
            Seg::Meta(left, seen) => (left, seen),
            _ => (1, Vec::new()),
        };
        let take: usize = if rest.len() < left {
            rest.len()
        } else {
            left
        };
        let run = &rest[0..take];
        let ghost before = seen@;
        seen.extend_from_slice(run);
        proof {
            assert(run@ =~= rest@.take(take as int));
            assert(seen@ =~= before + run@);
        }
        if take == left {
            let text = lossy_text(seen.as_slice());
            self.seg = match icy::open_block(text::trim_end_matches(text.as_str(), '\0')) {
                Some((block, Some(document))) => Seg::Waiting(block, document),
                Some((block, None)) => {
                    pipe.stamp_meta(block);
                    Seg::Audio(self.metaint)
                },
                None => Seg::Audio(self.metaint),
            };
            proof {
                assert forall|stop: bool| self.flow(pipe@) == #[trigger] here.bytes(run@, stop) by {
                    lemma_meta_completed(here, run@, stop);
                }
                assert forall|stop: bool| #[trigger] here.takes_all(run@, stop) by {
                    lemma_meta_completed(here, run@, stop);
                }
            }
        } else {
            self.seg = Seg::Meta(left - take, seen);
            proof {
                assert forall|stop: bool| self.flow(pipe@) == #[trigger] here.bytes(run@, stop) by {
                    lemma_meta_run(here, run@, stop);
                }
                assert forall|stop: bool| #[trigger] here.takes_all(run@, stop) by {
                    lemma_meta_run(here, run@, stop);
                }
            }
        }
        take
    }

    /// The document that is waiting to be read, as JSON text.
    pub fn document(&self) -> (d: Option<&Vec<u8>>)
        ensures
            match d {
                Some(bytes) => self.stands_at() matches SegView::Waiting(_, document) && document
                    == bytes@,
                None => !(self.stands_at() is Waiting),
            },
    {
        match &self.seg {
            Seg::Waiting(_, document) => Some(document),
            _ => None,
        }
    }

    /// The document has been read, as `parsed` where it could be: its block is
    /// stamped with the schedule, and the stream goes on.
    pub fn on_document(&mut self, parsed: Option<Payload>, pipe: &mut BytePipe)
        requires
            old(self).flow(old(pipe)@).wf(),
        ensures
            final(self).flow(final(pipe)@) == old(self).flow(old(pipe)@).answered(parsed),
            final(self).flow(final(pipe)@).wf(),
            final(pipe)@.wf(),
    {
        if let Seg::Waiting(_, _) = &self.seg {
            let mut seg = Seg::Audio(self.metaint);
            core::mem::swap(&mut seg, &mut self.seg);
            if let Seg::Waiting(block, _) = seg {
                pipe.stamp_meta(block.scheduled(parsed));
            }
        }
    }

    /// Split a chunk into audio (written to the pipe) and metadata (parsed and
    /// stamped). Repeats are deliberately not filtered: a heartbeat carrying
    /// an unchanged title is the only regular sync sample there is when
    /// nothing changes.
    ///
    /// Returns how many bytes of the chunk are dealt with. Fewer than all of
    /// them means that a document is waiting to be read, or else that the pipe
    /// is full: once it is read, or there is room, feed the rest.
    pub fn feed(&mut self, chunk: &[u8], pipe: &mut BytePipe, stop: bool) -> (n: usize)
        requires
            old(self).flow(old(pipe)@).wf(),
            old(pipe)@.written + chunk@.len() <= u64::MAX,
        ensures
            n <= chunk@.len(),
            final(self).flow(final(pipe)@) == old(self).flow(old(pipe)@).bytes(
                chunk@.take(n as int),
                stop,
            ),
            old(self).flow(old(pipe)@).takes_all(chunk@.take(n as int), stop),
            final(self).flow(final(pipe)@).wf(),
            final(self).flow(final(pipe)@).pipe == final(pipe)@,
            final(pipe)@.wf(),
            n < chunk@.len() && !final(self).flow(final(pipe)@).waits() ==> {
                &&& !stop && !final(pipe)@.closed
                &&& final(pipe)@.buf.len() == PIPE_CAP
                &&& final(self).flow(final(pipe)@).audio_next()
            },
    {
        let ghost start = self.flow(pipe@);
        let mut idx: usize = 0;
        assert(chunk@.take(0) =~= Seq::<u8>::empty());
        while idx < chunk.len()
            invariant
                idx <= chunk@.len(),
                self.flow(pipe@) == start.bytes(chunk@.take(idx as int), stop),
                start.takes_all(chunk@.take(idx as int), stop),
                self.flow(pipe@).wf(),
                pipe@.written + (chunk@.len() - idx) <= u64::MAX,
                start == old(self).flow(old(pipe)@),
            decreases chunk@.len() - idx,
        {
            if let Seg::Waiting(_, _) = &self.seg {
                return idx;
            }
            let ghost here = self.flow(pipe@);
            let rest = &chunk[idx..chunk.len()];
            let took: usize = match &self.seg {
                Seg::Audio(_) => self.feed_audio(rest, pipe, stop),
                Seg::MetaLen => {
                    self.feed_len(rest[0], Ghost(pipe@));
                    proof {
                        let one = rest@.take(1);
                        assert(one.drop_last() =~= Seq::<u8>::empty());
                        assert(here.bytes(one.drop_last(), stop) == here);
                        assert(here.bytes(one, stop) == here.byte(rest@[0], stop));
                        lemma_takes_one_more(here, one, stop);
                    }
                    1
                },
                Seg::Meta(_, _) => self.feed_meta(rest, pipe),
                Seg::Waiting(_, _) => 0,
            };
            proof {
                let done = chunk@.take(idx as int);
                let next = rest@.take(took as int);
                law_chunks_do_not_matter(start, done, next, stop);
                lemma_takes_both(start, done, next, stop);
                assert(done + next =~= chunk@.take(idx + took));
            }
            idx += took;
            if took == 0 {
                return idx;
            }
        }
        idx
    }
}

// ---------------------------------------------------------------------------
// The connection
// ---------------------------------------------------------------------------

/// Station identity from the connect-time response headers. It is not in the
/// metadata, so this is where the real station name comes from.
#[derive(Clone, Debug, Default)]
pub struct StationInfo {
    pub name: String,
    pub description: String,
    pub genre: String,
    pub url: String,
    /// In kbps, or 0 when the server does not send it. The engine measures it
    /// instead.
    pub bitrate_kbps: u32,
    pub metaint: usize,
}

/// The raw response headers that describe a station. Their bytes need not be
/// ASCII, nor even text.
pub struct Headers {
    pub name: Option<Vec<u8>>,
    pub description: Option<Vec<u8>>,
    pub genre: Option<Vec<u8>>,
    pub url: Option<Vec<u8>>,
    pub bitrate: Option<Vec<u8>>,
    pub metaint: Option<Vec<u8>>,
}

/// The text of a header: empty where it is absent.
pub open spec fn header_says(value: Option<Vec<u8>>) -> Seq<char> {
    match value {
        Some(b) => text::trimmed(codec::lossy(b@)),
        None => Seq::empty(),
    }
}

/// The number that a header writes: 0 where it writes none.
pub open spec fn header_number(value: Option<Vec<u8>>, max: int) -> int {
    match number::unsigned(header_says(value), max) {
        Some(n) => n,
        None => 0,
    }
}

/// The text of a header.
fn header_text(value: &Option<Vec<u8>>) -> (r: String)
    ensures
        r@ == header_says(*value),
{
    match value {
        Some(b) => {
            let t = lossy_text(b.as_slice());
            text::trim(t.as_str()).to_owned()
        },
        None => String::new(),
    }
}

/// Whether `s` is what the response headers say of the station.
pub open spec fn headers_say(s: StationInfo, h: Headers) -> bool {
    &&& s.name@ == header_says(h.name)
    &&& s.description@ == header_says(h.description)
    &&& s.genre@ == header_says(h.genre)
    &&& s.url@ == header_says(h.url)
    &&& s.bitrate_kbps == header_number(h.bitrate, u32::MAX as int)
    &&& s.metaint == header_number(h.metaint, usize::MAX as int)
}

impl StationInfo {
    /// What the response headers say of the station.
    pub fn from_headers(h: &Headers) -> (s: StationInfo)
        ensures
            headers_say(s, *h),
    {
        let bitrate = header_text(&h.bitrate);
        let metaint = header_text(&h.metaint);
        StationInfo {
            name: header_text(&h.name),
            description: header_text(&h.description),
            genre: header_text(&h.genre),
            url: header_text(&h.url),
            bitrate_kbps: match number::parse_u32(bitrate.as_str()) {
                Some(n) => n,
                None => 0,
            },
            metaint: match number::parse_usize(metaint.as_str()) {
                Some(n) => n,
                None => 0,
            },
        }
    }
}

/// What the server's answer leads to: the station it describes and the
/// demultiplexer for its stream, or the reason for giving up.
pub fn on_answer(success: bool, status: &str, h: &Headers) -> (r: Result<
    (StationInfo, IcyDemux),
    String,
>)
    ensures
        match r {
            Ok((s, d)) => {
                &&& success
                &&& headers_say(s, *h)
                &&& forall|pipe: PipeView|
                    #[trigger] d.flow(pipe) == Flow::start(s.metaint as int, pipe)
            },
            Err(m) => !success && m@ == "HTTP "@ + status@,
        },
{
    if success {
        let s = StationInfo::from_headers(h);
        let d = IcyDemux::new(s.metaint);
        Ok((s, d))
    } else {
        let mut m = "HTTP ".to_owned();
        m.append(status);
        Err(m)
    }
}

/// Why a connection gave up. `code` picks the short indicator text, `message`
/// is the full story.
#[derive(Debug, Clone)]
pub struct NetError {
    pub code: &'static str,
    pub message: String,
}

/// What a read from the connection gave.
#[derive(Debug, Clone, Copy, PartialEq, Eq, Structural)]
pub enum Fetched {
    /// So many bytes; none means that the stream has ended.
    Bytes(usize),
    /// The read was interrupted before it gave anything.
    Interrupted,
    /// The connection broke.
    Broken,
}

/// What the network thread does next.
#[derive(Debug, Clone, Copy, PartialEq, Eq, Structural)]
pub enum Pumping {
    /// Feed this many bytes to the demultiplexer, then go on.
    Feed(usize),
    /// Read again.
    Again,
    /// Finish cleanly.
    Finish,
    /// Finish and report the failure.
    Fail,
}

/// Decide what follows a read.
pub fn pump_step(fetched: Fetched) -> (p: Pumping)
    ensures
        p == (match fetched {
            Fetched::Bytes(n) => if n == 0 {
                Pumping::Finish
            } else {
                Pumping::Feed(n)
            },
            Fetched::Interrupted => Pumping::Again,
            Fetched::Broken => Pumping::Fail,
        }),
{
    match fetched {
        Fetched::Bytes(n) => if n == 0 {
            Pumping::Finish
        } else {
            Pumping::Feed(n)
        },
        Fetched::Interrupted => Pumping::Again,
        Fetched::Broken => Pumping::Fail,
    }
}

} // verus!
