//! Laws of the byte pipe and the demultiplexer.

use crate::codec;
use crate::icy;
use crate::icy::Payload;
use crate::stream;
use crate::stream::{MAX_SCAN, PIPE_CAP};
use crate::text;
use vstd::prelude::*;
use vstd::utf8::*;

verus! {

// ---------------------------------------------------------------------------
// Bytes
// ---------------------------------------------------------------------------

/// What can happen to a pipe.
pub ghost enum Op {
    /// Bytes were written. A closed pipe swallows them.
    Write(Seq<u8>),
    /// A reader with this much room took what it could.
    Read(nat),
    /// A catch-up trim.
    Trim { keep: nat, demuxed: nat },
    /// A metadata block was attached.
    Stamp(icy::BlockView),
    /// The decoder reported its position.
    Tick { demuxed: nat },
    /// The pipe was closed.
    Close,
}

/// The pipe after one operation.
pub open spec fn applied(p: stream::PipeView, op: Op) -> stream::PipeView {
    match op {
        Op::Write(_) => if p.closed {
            p
        } else {
            p.appended(put_in(p, op))
        },
        Op::Read(room) => stream::PipeView {
            buf: p.buf.skip(p.readable(room as int)),
            ..p
        },
        Op::Trim { keep, demuxed } => p.trimmed(keep as int, demuxed as int),
        Op::Stamp(block) => p.stamped(block),
        Op::Tick { demuxed } => p.ticked(demuxed as int),
        Op::Close => stream::PipeView { closed: true, meta: Seq::empty(), ..p },
    }
}

/// The bytes that one operation takes out at the front.
pub open spec fn taken_out(p: stream::PipeView, op: Op) -> Seq<u8> {
    match op {
        Op::Read(room) => p.buf.take(p.readable(room as int)),
        Op::Trim { keep, demuxed } => p.buf.take(p.cut(keep as int)),
        _ => Seq::empty(),
    }
}

/// The bytes that one operation puts in at the back.
pub open spec fn put_in(p: stream::PipeView, op: Op) -> Seq<u8> {
    match op {
        Op::Write(bytes) => if p.closed {
            Seq::empty()
        } else {
            bytes
        },
        _ => Seq::empty(),
    }
}

/// The pipe after a sequence of operations.
pub open spec fn after(p: stream::PipeView, ops: Seq<Op>) -> stream::PipeView
    decreases ops.len(),
{
    if ops.len() == 0 {
        p
    } else {
        applied(after(p, ops.drop_last()), ops.last())
    }
}

/// All the bytes that a sequence of operations takes out, in order.
pub open spec fn all_out(p: stream::PipeView, ops: Seq<Op>) -> Seq<u8>
    decreases ops.len(),
{
    if ops.len() == 0 {
        Seq::empty()
    } else {
        all_out(p, ops.drop_last()) + taken_out(after(p, ops.drop_last()), ops.last())
    }
}

/// All the bytes that a sequence of operations puts in, in order.
pub open spec fn all_in(p: stream::PipeView, ops: Seq<Op>) -> Seq<u8>
    decreases ops.len(),
{
    if ops.len() == 0 {
        Seq::empty()
    } else {
        all_in(p, ops.drop_last()) + put_in(after(p, ops.drop_last()), ops.last())
    }
}

/// Whether a block is attached in a sequence of operations.
pub open spec fn stamps(ops: Seq<Op>, block: icy::BlockView) -> bool {
    exists|i: int| 0 <= i < ops.len() && #[trigger] ops[i] == Op::Stamp(block)
}

/// How much a trim cuts is never more than there is, and leaves at most what
/// was to be kept.
pub proof fn law_trim_leaves_at_most_keep(p: stream::PipeView, keep: nat, demuxed: nat)
    ensures
        0 <= p.cut(keep as int) <= p.buf.len(),
        p.trimmed(keep as int, demuxed as int).buf == p.buf.skip(p.cut(keep as int)),
        p.trimmed(keep as int, demuxed as int).buf.len() <= keep,
{
    if p.buf.len() > keep {
        let want = p.buf.len() - keep;
        let s = p.buf.skip(want);
        let end: int = if s.len() < MAX_SCAN {
            s.len() as int
        } else {
            MAX_SCAN as int
        };
        stream::lemma_header_from(s, 0, end);
    } else {
        assert(p.buf.skip(0) =~= p.buf);
    }
}

/// No byte is lost, repeated or reordered: whatever happens, the bytes that
/// have left the pipe, read or trimmed, followed by those still in it, are
/// those that were in it followed by those that entered.
pub proof fn law_bytes_are_conserved(p: stream::PipeView, ops: Seq<Op>)
    ensures
        all_out(p, ops) + after(p, ops).buf == p.buf + all_in(p, ops),
    decreases ops.len(),
{
    if ops.len() == 0 {
        assert(all_out(p, ops) + p.buf =~= p.buf + all_in(p, ops));
    } else {
        let before = ops.drop_last();
        let mid = after(p, before);
        let op = ops.last();
        law_bytes_are_conserved(p, before);
        match op {
            Op::Trim { keep, demuxed } => {
                law_trim_leaves_at_most_keep(mid, keep, demuxed);
            },
            _ => {},
        }
        assert(taken_out(mid, op) + applied(mid, op).buf =~= mid.buf + put_in(mid, op));
        assert(all_out(p, ops) + after(p, ops).buf =~= all_out(p, before) + (taken_out(mid, op)
            + applied(mid, op).buf));
        assert(all_out(p, before) + (mid.buf + put_in(mid, op)) =~= (all_out(p, before) + mid.buf)
            + put_in(mid, op));
        assert((p.buf + all_in(p, before)) + put_in(mid, op) =~= p.buf + all_in(p, ops));
    }
}

/// Every operation keeps the pipe's invariant, as long as writes fit.
pub proof fn law_invariant(p: stream::PipeView, op: Op)
    requires
        p.wf(),
        op matches Op::Write(bytes) ==> p.buf.len() + bytes.len() <= PIPE_CAP,
    ensures
        applied(p, op).wf(),
{
    match op {
        Op::Trim { keep, demuxed } => {
            law_trim_leaves_at_most_keep(p, keep, demuxed);
            let q = p.trimmed(keep as int, demuxed as int);
            if p.buf.len() > keep {
                let cursor = p.dropped + p.cut(keep as int) + demuxed;
                lemma_due(p, cursor);
                assert forall|i: int, j: int| 0 <= i <= j < q.meta.len() implies (
                #[trigger] q.meta[i]).at <= (#[trigger] q.meta[j]).at by {
                    let k = p.passed_over(cursor);
                    assert(q.meta[i] == p.meta[i + k]);
                    assert(q.meta[j] == p.meta[j + k]);
                }
            }
        },
        Op::Tick { demuxed } => {
            let cursor = p.cursor(demuxed as int);
            lemma_due(p, cursor);
            let q = p.ticked(demuxed as int);
            assert forall|i: int, j: int| 0 <= i <= j < q.meta.len() implies (
            #[trigger] q.meta[i]).at <= (#[trigger] q.meta[j]).at by {
                let k = p.due(cursor) as int;
                assert(q.meta[i] == p.meta[i + k]);
                assert(q.meta[j] == p.meta[j + k]);
            }
        },
        _ => {},
    }
}

/// After a close nothing enters, and what was waiting comes out in order:
/// whatever happens then, the bytes that leave, followed by those still there,
/// are those that were waiting at the close. No block is ever released that
/// was attached before: each one that waits was attached since.
pub proof fn law_what_follows_a_close(p: stream::PipeView, ops: Seq<Op>)
    ensures
        ({
            let closed = applied(p, Op::Close);
            let q = after(closed, ops);
            &&& q.closed
            &&& q.written == p.written
            &&& all_in(closed, ops) == Seq::<u8>::empty()
            &&& all_out(closed, ops) + q.buf == p.buf
            &&& forall|i: int|
                0 <= i < q.meta.len() ==> stamps(ops, (#[trigger] q.meta[i]).block)
        }),
    decreases ops.len(),
{
    let closed = applied(p, Op::Close);
    law_bytes_are_conserved(closed, ops);
    if ops.len() > 0 {
        let before = ops.drop_last();
        law_what_follows_a_close(p, before);
        let mid = after(closed, before);
        let q = after(closed, ops);
        assert(all_in(closed, ops) =~= Seq::<u8>::empty());
        assert forall|i: int| 0 <= i < q.meta.len() implies stamps(
            ops,
            (#[trigger] q.meta[i]).block,
        ) by {
            lemma_marks_come_from(mid, ops.last(), i);
            if ops.last() == Op::Stamp(q.meta[i].block) {
                assert(ops[ops.len() - 1] == Op::Stamp(q.meta[i].block));
            } else {
                let k = choose|k: int| 0 <= k < mid.meta.len() && #[trigger] mid.meta[k]
                    == q.meta[i];
                assert(stamps(before, mid.meta[k].block));
                let j = choose|j: int| 0 <= j < before.len() && #[trigger] before[j]
                    == Op::Stamp(mid.meta[k].block);
                assert(ops[j] == before[j]);
            }
        }
    }
    assert(closed.buf + Seq::<u8>::empty() =~= p.buf);
}

/// A mark that waits after an operation waited before it, or was attached by
/// it.
proof fn lemma_marks_come_from(p: stream::PipeView, op: Op, i: int)
    requires
        0 <= i < applied(p, op).meta.len(),
    ensures
        op == Op::Stamp(applied(p, op).meta[i].block) || exists|k: int|
            0 <= k < p.meta.len() && #[trigger] p.meta[k] == applied(p, op).meta[i],
{
    let q = applied(p, op);
    match op {
        Op::Trim { keep, demuxed } => {
            if p.buf.len() > keep {
                let cursor = p.dropped + p.cut(keep as int) + demuxed;
                lemma_due_is_bounded(p, cursor);
                assert(p.meta[i + p.passed_over(cursor)] == q.meta[i]);
            } else {
                assert(p.meta[i] == q.meta[i]);
            }
        },
        Op::Tick { demuxed } => {
            let cursor = p.cursor(demuxed as int);
            lemma_due_is_bounded(p, cursor);
            assert(p.meta[i + p.due(cursor)] == q.meta[i]);
        },
        Op::Stamp(_) => {
            if i < p.meta.len() {
                assert(p.meta[i] == q.meta[i]);
            }
        },
        _ => {
            assert(p.meta[i] == q.meta[i]);
        },
    }
}

/// No more blocks come due than there are.
proof fn lemma_due_is_bounded(p: stream::PipeView, cursor: int)
    ensures
        p.due(cursor) <= p.meta.len(),
    decreases p.meta.len(),
{
    if p.meta.len() > 0 && p.meta[0].at <= cursor {
        lemma_due_is_bounded(stream::PipeView { meta: p.meta.skip(1), ..p }, cursor);
    }
}

/// A closed pipe keeps no reader waiting: it gives what it holds and, once
/// that is used up, the end of the stream, for ever.
pub proof fn law_closed_pipes_never_wait(
    p: stream::PipeView,
    r: Option<usize>,
    room: Seq<u8>,
    left: stream::PipeView,
    filled: Seq<u8>,
)
    requires
        p.closed,
        p.read_gives(r, room, left, filled),
    ensures
        r is Some,
        left.closed,
        p.buf.len() == 0 ==> r == Some(0usize) && left == p && filled == room,
{
    if p.buf.len() == 0 {
        assert(left.buf =~= p.buf);
        assert(p.buf.take(0) + room.skip(0) =~= room);
    }
}

/// A second close changes nothing.
pub proof fn law_closing_twice_is_closing_once(p: stream::PipeView)
    ensures
        applied(applied(p, Op::Close), Op::Close) == applied(p, Op::Close),
{
}

/// A trim below the threshold changes nothing.
pub proof fn law_shallow_trim_is_a_no_op(p: stream::PipeView, keep: nat, demuxed: nat)
    requires
        p.buf.len() <= keep,
    ensures
        p.trimmed(keep as int, demuxed as int) == p,
        p.cut(keep as int) == 0,
{
}

/// A trim is invisible to the decoder's own byte count, so the depth falls by
/// exactly what was discarded.
pub proof fn law_trim_lowers_the_depth(p: stream::PipeView, keep: nat, demuxed: nat)
    requires
        p.wf(),
        // The decoder has pulled no more than left the pipe.
        p.dropped + demuxed + p.buf.len() <= p.written,
    ensures
        p.trimmed(keep as int, demuxed as int).depth(demuxed as int) == p.depth(demuxed as int)
            - p.cut(keep as int),
{
    law_trim_leaves_at_most_keep(p, keep, demuxed);
}

/// A trim that finds a frame header within its scan resumes on the first one.
pub proof fn law_trim_resumes_on_a_header(p: stream::PipeView, keep: nat, demuxed: nat, at: int)
    requires
        p.buf.len() > keep,
        0 <= at < MAX_SCAN - 1,
        stream::header_at(p.buf.skip(p.buf.len() - keep), at),
    ensures
        stream::header_at(p.trimmed(keep as int, demuxed as int).buf, 0),
        p.cut(keep as int) <= p.buf.len() - keep + at,
{
    let want = p.buf.len() - keep;
    let s = p.buf.skip(want);
    let end: int = if s.len() < MAX_SCAN {
        s.len() as int
    } else {
        MAX_SCAN as int
    };
    stream::lemma_header_from(s, 0, end);
    let i = stream::header_from(s, 0, end)->0;
    let q = p.trimmed(keep as int, demuxed as int);
    assert(q.buf =~= s.skip(i));
    assert(q.buf[0] == s[i] && q.buf[1] == s[i + 1]);
}

// ---------------------------------------------------------------------------
// Metadata
// ---------------------------------------------------------------------------

/// The blocks that have come due are those whose mark has been reached: all of
/// them and no others.
pub proof fn lemma_due(p: stream::PipeView, cursor: int)
    requires
        p.wf(),
    ensures
        p.due(cursor) <= p.meta.len(),
        forall|i: int| 0 <= i < p.due(cursor) ==> (#[trigger] p.meta[i]).at <= cursor,
        forall|i: int| p.due(cursor) <= i < p.meta.len() ==> (#[trigger] p.meta[i]).at > cursor,
    decreases p.meta.len(),
{
    if p.meta.len() > 0 && p.meta[0].at <= cursor {
        let q = stream::PipeView { meta: p.meta.skip(1), ..p };
        assert forall|i: int, j: int| 0 <= i <= j < q.meta.len() implies (
        #[trigger] q.meta[i]).at <= (#[trigger] q.meta[j]).at by {
            assert(q.meta[i] == p.meta[i + 1]);
            assert(q.meta[j] == p.meta[j + 1]);
        }
        lemma_due(q, cursor);
        assert forall|i: int| 0 <= i < p.due(cursor) implies (
        #[trigger] p.meta[i]).at <= cursor by {
            if i > 0 {
                assert(q.meta[i - 1] == p.meta[i]);
            }
        }
        assert forall|i: int| p.due(cursor) <= i < p.meta.len() implies (
        #[trigger] p.meta[i]).at > cursor by {
            assert(q.meta[i - 1] == p.meta[i]);
        }
    } else if p.meta.len() > 0 {
        assert forall|i: int| 0 <= i < p.meta.len() implies (#[trigger] p.meta[i]).at > cursor by {
            assert(p.meta[0].at <= p.meta[i].at);
        }
    }
}

/// A block is released exactly when the decoder has reached the audio that it
/// describes: never earlier, and with the first report from then on. Blocks
/// come out in the order in which they were stamped.
pub proof fn law_release_is_playback_aligned(p: stream::PipeView, demuxed: nat, i: int)
    requires
        p.wf(),
        0 <= i < p.meta.len(),
    ensures
        (i < p.due(p.cursor(demuxed as int))) == (p.meta[i].at <= p.cursor(demuxed as int)),
        p.meta[i].at > p.cursor(demuxed as int) ==> {
            let q = p.ticked(demuxed as int);
            let n = p.meta.len() - q.meta.len();
            n <= i && q.meta[i - n] == p.meta[i]
        },
{
    lemma_due(p, p.cursor(demuxed as int));
}

/// A block is stamped with the number of bytes written before it, so a
/// decoder is shown it once it has pulled exactly those.
pub proof fn law_stamp_marks_the_write_cursor(
    p: stream::PipeView,
    block: icy::BlockView,
    demuxed: nat,
)
    requires
        p.wf(),
        p.meta.len() == 0,
    ensures
        p.stamped(block).due(p.cursor(demuxed as int)) == (if p.written <= p.cursor(
            demuxed as int,
        ) {
            1nat
        } else {
            0nat
        }),
{
    law_invariant(p, Op::Stamp(block));
    lemma_due(p.stamped(block), p.cursor(demuxed as int));
}

/// Of the blocks that a trim jumps over only the newest survives, and it is
/// the next one released. Blocks further ahead are untouched.
pub proof fn law_trim_keeps_the_newest_block(p: stream::PipeView, keep: nat, demuxed: nat)
    requires
        p.wf(),
        p.buf.len() > keep,
    ensures
        ({
            let q = p.trimmed(keep as int, demuxed as int);
            let cursor = q.cursor(demuxed as int);
            let n = p.due(cursor);
            &&& n > 0 ==> q.due(cursor) == 1 && q.meta[0] == p.meta[n - 1]
            &&& n == 0 ==> q.meta == p.meta
            &&& q.meta.skip(q.due(cursor) as int) == p.meta.skip(n as int)
        }),
{
    let q = p.trimmed(keep as int, demuxed as int);
    let cursor = q.cursor(demuxed as int);
    let n = p.due(cursor);
    lemma_due(p, cursor);
    law_invariant(p, Op::Trim { keep, demuxed });
    lemma_due(q, cursor);
    if n > 0 {
        assert(q.meta =~= p.meta.skip(n - 1));
        assert(q.meta[0] == p.meta[n - 1]);
        if q.meta.len() > 1 {
            assert(q.meta[1] == p.meta[n as int]);
        }
        assert(q.due(cursor) == 1);
    } else {
        assert(q.meta =~= p.meta);
    }
    assert(q.meta.skip(q.due(cursor) as int) =~= p.meta.skip(n as int));
}

// ---------------------------------------------------------------------------
// The demultiplexer
// ---------------------------------------------------------------------------

/// One stretch of a stream: `metaint` audio bytes and the metadata that
/// follows them, a multiple of 16 bytes long.
pub ghost struct Stretch {
    pub audio: Seq<u8>,
    pub meta: Seq<u8>,
}

/// Whether a stretch can be sent.
pub open spec fn sendable(s: Stretch, metaint: int) -> bool {
    s.audio.len() == metaint && s.meta.len() % 16 == 0 && s.meta.len() <= 255 * 16
}

/// The bytes of a stretch on the wire.
pub open spec fn wire(s: Stretch) -> Seq<u8> {
    s.audio + seq![(s.meta.len() / 16) as u8] + s.meta
}

/// The bytes of a stream on the wire.
pub open spec fn wires(stretches: Seq<Stretch>) -> Seq<u8>
    decreases stretches.len(),
{
    if stretches.len() == 0 {
        Seq::empty()
    } else {
        wires(stretches.drop_last()) + wire(stretches.last())
    }
}

/// The audio of a stream.
pub open spec fn audio_of(stretches: Seq<Stretch>) -> Seq<u8>
    decreases stretches.len(),
{
    if stretches.len() == 0 {
        Seq::empty()
    } else {
        audio_of(stretches.drop_last()) + stretches.last().audio
    }
}

/// How documents are read: the schedule that each holds, where it can be read.
pub type Reading = spec_fn(Seq<u8>) -> Option<Payload>;

/// The block that metadata bytes write, with the schedule in its document.
pub open spec fn meta_reads(meta: Seq<u8>, read: Reading) -> Option<icy::BlockView> {
    stream::meta_says(
        meta,
        match stream::meta_document(meta) {
            Some(document) => read(document),
            None => None,
        },
    )
}

/// The flow once a document that was waiting, if any, has been read.
pub open spec fn settled(f: stream::Flow, read: Reading) -> stream::Flow {
    match f.seg {
        stream::SegView::Waiting(_, document) => f.answered(read(document)),
        _ => f,
    }
}

/// The flow after a run of bytes, with each document read as it comes.
pub open spec fn run(f: stream::Flow, bytes: Seq<u8>, stop: bool, read: Reading) -> stream::Flow
    decreases bytes.len(),
{
    if bytes.len() == 0 {
        f
    } else {
        settled(run(f, bytes.drop_last(), stop, read).byte(bytes.last(), stop), read)
    }
}

/// To take bytes, and to read the document that then waits, if any, is to run
/// them.
pub proof fn law_reading_as_it_comes(
    f: stream::Flow,
    bytes: Seq<u8>,
    stop: bool,
    read: Reading,
)
    requires
        !f.waits(),
        f.takes_all(bytes, stop),
    ensures
        run(f, bytes, stop, read) == settled(f.bytes(bytes, stop), read),
        !run(f, bytes, stop, read).waits(),
    decreases bytes.len(),
{
    if bytes.len() > 0 {
        let head = bytes.drop_last();
        assert forall|k: int| 0 <= k < head.len() implies !(#[trigger] f.bytes(
            head.take(k),
            stop,
        )).waits() by {
            assert(head.take(k) =~= bytes.take(k));
        }
        law_reading_as_it_comes(f, head, stop, read);
        assert(bytes.take(head.len() as int) =~= head);
        assert(!f.bytes(bytes.take(head.len() as int), stop).waits());
    }
}

/// It makes no difference to a run how the stream was cut into chunks.
pub proof fn law_runs_add_up(
    f: stream::Flow,
    a: Seq<u8>,
    b: Seq<u8>,
    stop: bool,
    read: Reading,
)
    ensures
        run(run(f, a, stop, read), b, stop, read) == run(f, a + b, stop, read),
    decreases b.len(),
{
    if b.len() == 0 {
        assert(a + b =~= a);
    } else {
        law_runs_add_up(f, a, b.drop_last(), stop, read);
        assert((a + b).drop_last() =~= a + b.drop_last());
    }
}

/// The blocks of a stream, each with the number of audio bytes before it.
pub open spec fn marks_of(stretches: Seq<Stretch>, start: int, read: Reading) -> Seq<stream::Mark>
    decreases stretches.len(),
{
    if stretches.len() == 0 {
        Seq::empty()
    } else {
        let earlier = marks_of(stretches.drop_last(), start, read);
        let meta = stretches.last().meta;
        match meta_reads(meta, read) {
            Some(block) => if meta.len() > 0 {
                earlier.push(stream::Mark { at: start + audio_of(stretches).len(), block })
            } else {
                earlier
            },
            None => earlier,
        }
    }
}

/// One stretch on the wire: its audio enters the pipe and its block, if it has
/// one, is stamped behind it.
proof fn lemma_stretch(f: stream::Flow, s: Stretch, read: Reading)
    requires
        f.metaint > 0,
        f.seg == stream::SegView::Audio(f.metaint),
        !f.pipe.closed,
        sendable(s, f.metaint),
    ensures
        ({
            let heard = f.pipe.appended(s.audio);
            run(f, wire(s), false, read) == stream::Flow {
                pipe: match meta_reads(s.meta, read) {
                    Some(block) => if s.meta.len() == 0 {
                        heard
                    } else {
                        heard.stamped(block)
                    },
                    None => heard,
                },
                ..f
            }
        }),
{
    let len = (s.meta.len() / 16) as u8;
    let head = s.audio + seq![len];
    stream::lemma_audio_run(f, s.audio, false);
    let f1 = f.bytes(s.audio, false);
    assert(head.drop_last() =~= s.audio);
    let f2 = f.bytes(head, false);
    assert(f2 == f1.byte(len, false));
    assert(f1.takes_all(seq![len], false)) by {
        assert forall|k: int| 0 <= k < 1 implies !(#[trigger] f1.bytes(
            seq![len].take(k),
            false,
        )).waits() by {
            assert(seq![len].take(k) =~= Seq::<u8>::empty());
        }
    }
    stream::lemma_takes_both(f, s.audio, seq![len], false);
    if s.meta.len() == 0 {
        assert(wire(s) =~= head);
    } else {
        stream::lemma_meta_completed(f2, s.meta, false);
        stream::law_chunks_do_not_matter(f, head, s.meta, false);
        stream::lemma_takes_both(f, head, s.meta, false);
        assert(Seq::<u8>::empty() + s.meta =~= s.meta);
        let raw = stream::meta_text(s.meta);
        icy::lemma_schedule_joins(raw, None);
        match stream::meta_document(s.meta) {
            Some(document) => icy::lemma_schedule_joins(raw, read(document)),
            None => {},
        }
    }
    law_reading_as_it_comes(f, wire(s), false, read);
}

/// Demultiplexing undoes multiplexing: out of a stream come its audio bytes,
/// all of them and no others, and its blocks, each with the schedule in its
/// document and stamped with the number of audio bytes written before it.
pub proof fn law_demux_inverts_mux(f: stream::Flow, stretches: Seq<Stretch>, read: Reading)
    requires
        f.metaint > 0,
        f.seg == stream::SegView::Audio(f.metaint),
        !f.pipe.closed,
        forall|i: int| 0 <= i < stretches.len() ==> sendable(#[trigger] stretches[i], f.metaint),
    ensures
        run(f, wires(stretches), false, read) == (stream::Flow {
            pipe: stream::PipeView {
                buf: f.pipe.buf + audio_of(stretches),
                written: f.pipe.written + audio_of(stretches).len(),
                meta: f.pipe.meta + marks_of(stretches, f.pipe.written, read),
                ..f.pipe
            },
            ..f
        }),
    decreases stretches.len(),
{
    if stretches.len() == 0 {
        assert(f.pipe.buf + audio_of(stretches) =~= f.pipe.buf);
        assert(f.pipe.meta + marks_of(stretches, f.pipe.written, read) =~= f.pipe.meta);
    } else {
        let earlier = stretches.drop_last();
        let s = stretches.last();
        assert(sendable(stretches[stretches.len() - 1], f.metaint));
        assert forall|i: int| 0 <= i < earlier.len() implies sendable(
            #[trigger] earlier[i],
            f.metaint,
        ) by {
            assert(earlier[i] == stretches[i]);
        }
        law_demux_inverts_mux(f, earlier, read);
        let mid = run(f, wires(earlier), false, read);
        lemma_stretch(mid, s, read);
        law_runs_add_up(f, wires(earlier), wire(s), false, read);
        let end = run(f, wires(stretches), false, read);
        assert(end.pipe.buf =~= f.pipe.buf + audio_of(stretches));
        assert(end.pipe.meta =~= f.pipe.meta + marks_of(stretches, f.pipe.written, read));
    }
}

/// So many NUL bytes.
pub open spec fn nuls(n: nat) -> Seq<u8> {
    Seq::new(n, |i: int| 0u8)
}

/// A block says the same however much padding follows it.
pub proof fn law_padding_is_ignored(raw: Seq<char>, n: nat, parsed: Option<Payload>)
    requires
        raw.len() > 0 ==> raw.last() != '\0',
    ensures
        stream::meta_says(encode_utf8(raw) + nuls(n), parsed) == icy::block_says(raw, parsed),
        stream::meta_document(encode_utf8(raw) + nuls(n)) == icy::block_document(raw),
{
    let pad = Seq::new(n, |i: int| '\0');
    let bytes = encode_utf8(raw) + nuls(n);
    codec::lemma_ascii_text(nuls(n));
    assert(codec::ascii_text(nuls(n)) =~= pad);
    codec::lemma_encode_concat(raw, pad);
    encode_utf8_valid_utf8(raw + pad);
    encode_utf8_decode_utf8(raw + pad);
    lemma_padding_stripped(raw, n);
}

proof fn lemma_padding_stripped(raw: Seq<char>, n: nat)
    requires
        raw.len() > 0 ==> raw.last() != '\0',
    ensures
        text::without_trailing(raw + Seq::new(n, |i: int| '\0'), '\0') == raw,
    decreases n,
{
    let pad = Seq::new(n, |i: int| '\0');
    if n == 0 {
        assert(raw + pad =~= raw);
    } else {
        let less = Seq::new((n - 1) as nat, |i: int| '\0');
        lemma_padding_stripped(raw, (n - 1) as nat);
        assert((raw + pad).drop_last() =~= raw + less);
    }
}

/// No more audio enters the pipe than there are bytes, so that a pipe with room
/// for all of them takes all of them.
pub proof fn lemma_flow_grows(f: stream::Flow, bytes: Seq<u8>, stop: bool)
    ensures
        f.bytes(bytes, stop).pipe.buf.len() <= f.pipe.buf.len() + bytes.len(),
        f.pipe.written <= f.bytes(bytes, stop).pipe.written <= f.pipe.written + bytes.len(),
        f.bytes(bytes, stop).metaint == f.metaint,
        f.bytes(bytes, stop).pipe.closed == f.pipe.closed,
    decreases bytes.len(),
{
    if bytes.len() > 0 {
        lemma_flow_grows(f, bytes.drop_last(), stop);
    }
}

/// A stream without metadata is audio throughout.
pub proof fn law_without_metaint_all_is_audio(f: stream::Flow, bytes: Seq<u8>)
    requires
        f.metaint == 0,
        f.seg is Audio,
        !f.pipe.closed,
    ensures
        f.bytes(bytes, false) == (stream::Flow { pipe: f.pipe.appended(bytes), ..f }),
{
    stream::lemma_audio_run(f, bytes, false);
}

/// Once the pipe is closed, or the session is told to stop, no audio enters.
pub proof fn law_closed_pipe_takes_no_audio(f: stream::Flow, bytes: Seq<u8>, stop: bool)
    requires
        stop || f.pipe.closed,
    ensures
        f.bytes(bytes, stop).pipe.buf == f.pipe.buf,
        f.bytes(bytes, stop).pipe.written == f.pipe.written,
        f.bytes(bytes, stop).pipe.closed == f.pipe.closed,
    decreases bytes.len(),
{
    if bytes.len() > 0 {
        law_closed_pipe_takes_no_audio(f, bytes.drop_last(), stop);
    }
}

} // verus!
