//! Laws of the pipe between the network and the decoder: what each of its
//! operations is for.

use crate::icy;
use crate::icy::{Block, Payload};
use crate::icy_laws;
use crate::number;
use crate::stream;
use crate::stream::{
    frame_sync_offset, on_answer, pump_step, BytePipe, Fetched, Headers, IcyDemux, PipeReader,
    Pumping, StationInfo, Tick, Trim, MAX_SCAN, PIPE_CAP,
};
use crate::stream_laws;
use crate::text_laws;
use vstd::prelude::*;
use vstd::utf8::*;

verus! {

/// A new pipe is empty and open. It holds a quarter of a mebibyte, and a trim
/// looks two kibibytes ahead.
pub proof fn law_new_pipes_are_empty(p: BytePipe)
    requires
        call_ensures(BytePipe::new, (), p),
    ensures
        PIPE_CAP == 262_144,
        MAX_SCAN == 2_048,
        p@.buf.len() == 0,
        p@.meta.len() == 0,
        !p@.closed,
        p@.written == 0,
        p@.dropped == 0,
{
}

/// What can be asked of a pipe is what it knows.
pub proof fn law_pipes_can_be_asked(
    p: BytePipe,
    closed: bool,
    buffered: usize,
    written: u64,
    dropped: u64,
    demuxed: u64,
    depth: u64,
)
    requires
        call_ensures(BytePipe::is_closed, (&p,), closed),
        call_ensures(BytePipe::buffered, (&p,), buffered),
        call_ensures(BytePipe::written, (&p,), written),
        call_ensures(BytePipe::dropped, (&p,), dropped),
        call_ensures(BytePipe::depth, (&p, demuxed), depth),
    ensures
        closed == p@.closed,
        buffered == p@.buf.len(),
        written == p@.written,
        dropped == p@.dropped,
        written >= dropped + demuxed ==> depth == written - dropped - demuxed,
        written < dropped + demuxed ==> depth == 0,
{
}

/// Bytes enter an open pipe at its end, in order and all that there is room
/// for. To a pipe that is closed, or a session that is to stop, they are lost,
/// so that nobody waits to write them.
pub proof fn law_writing_appends(p: &mut BytePipe, bytes: &[u8], stop: bool, taken: usize)
    requires
        call_ensures(BytePipe::write_all, (p, bytes, stop), taken),
        old(p)@.wf(),
    ensures
        stop || old(p)@.closed ==> taken == bytes@.len() && final(p)@ == old(p)@,
        !stop && !old(p)@.closed ==> {
            let room = 262_144 - old(p)@.buf.len();
            &&& bytes@.len() <= room ==> taken == bytes@.len()
            &&& bytes@.len() > room ==> taken == room
            &&& final(p)@.buf == old(p)@.buf + bytes@.take(taken as int)
            &&& final(p)@.written == old(p)@.written + taken
            &&& final(p)@.dropped == old(p)@.dropped
            &&& final(p)@.meta == old(p)@.meta
            &&& !final(p)@.closed
        },
{
}

/// A block is held behind the bytes that were written before it.
pub proof fn law_blocks_are_stamped(p: &mut BytePipe, block: Block)
    requires
        call_ensures(BytePipe::stamp_meta, (p, block), ()),
    ensures
        final(p)@.meta.len() == old(p)@.meta.len() + 1,
        final(p)@.meta.drop_last() == old(p)@.meta,
        final(p)@.meta.last().at == old(p)@.written,
        final(p)@.meta.last().block == block@,
        final(p)@.buf == old(p)@.buf,
        final(p)@.written == old(p)@.written,
        final(p)@.dropped == old(p)@.dropped,
        final(p)@.closed == old(p)@.closed,
{
    assert(final(p)@.meta.drop_last() =~= old(p)@.meta);
}

/// A closed pipe still holds its bytes, but no block any more.
pub proof fn law_closing_forgets_the_blocks(p: &mut BytePipe)
    requires
        call_ensures(BytePipe::close, (p,), ()),
    ensures
        final(p)@.closed,
        final(p)@.meta.len() == 0,
        final(p)@.buf == old(p)@.buf,
        final(p)@.written == old(p)@.written,
        final(p)@.dropped == old(p)@.dropped,
{
}

/// A block is released once the decoder has pulled all the bytes before it,
/// never earlier; the blocks come in order, and the others stay. The depth is
/// what was written and neither pulled nor thrown away.
pub proof fn law_blocks_come_with_their_audio(p: &mut BytePipe, demuxed: u64, t: Tick, i: int)
    requires
        call_ensures(BytePipe::tick, (p, demuxed), t),
        old(p)@.wf(),
    ensures
        ({
            let before = old(p)@;
            let cursor = before.dropped + demuxed;
            let n = t.released@.len();
            &&& n <= before.meta.len()
            &&& 0 <= i < before.meta.len() ==> (i < n <==> before.meta[i].at <= cursor)
            &&& 0 <= i < n ==> t.released@[i]@ == before.meta[i].block
            &&& final(p)@.meta == before.meta.skip(n as int)
            &&& final(p)@.buf == before.buf
            &&& final(p)@.written == before.written
            &&& final(p)@.dropped == before.dropped
            &&& final(p)@.closed == before.closed
            &&& before.written >= cursor ==> t.depth_bytes == before.written - cursor
            &&& before.written < cursor ==> t.depth_bytes == 0
            &&& t.pipe_bytes == before.buf.len()
        }),
{
    stream_laws::lemma_due(old(p)@, old(p)@.dropped + demuxed);
}

/// Whether a frame can begin here: eleven bits are set.
pub open spec fn begins_frame(s: Seq<u8>, i: int) -> bool {
    0 <= i && i + 1 < s.len() && s[i] == 255 && s[i + 1] >= 224
}

/// The first place where a frame can begin, within two kibibytes; without one,
/// the start.
pub proof fn law_the_first_header_is_found(s: &[u8], r: usize, i: int)
    requires
        call_ensures(frame_sync_offset, (s,), r),
    ensures
        i + 1 < 2_048 && begins_frame(s@, i) ==> r <= i && begins_frame(s@, r as int),
        r > 0 ==> r + 1 < 2_048 && begins_frame(s@, r as int),
        r > 0 && 0 <= i < r ==> !begins_frame(s@, i),
{
    let end: int = if s@.len() < 2_048 {
        s@.len() as int
    } else {
        2_048
    };
    stream::lemma_header_from(s@, 0, end);
    assert(begins_frame(s@, i) == stream::header_at(s@, i));
    assert(begins_frame(s@, r as int) == stream::header_at(s@, r as int));
}

/// A trim throws the oldest bytes away and keeps the newest, at most so many,
/// from the first place on where a frame can begin. What fits is left alone.
pub proof fn law_trims_keep_the_newest(p: &mut BytePipe, keep: usize, demuxed: u64, t: Trim, i: int)
    requires
        call_ensures(BytePipe::trim_to, (p, keep, demuxed), t),
        old(p)@.wf(),
    ensures
        old(p)@.buf.len() <= keep ==> t.bytes == 0 && t.meta_skipped == 0 && final(p)@ == old(p)@,
        old(p)@.buf.len() > keep ==> {
            let before = old(p)@;
            let over = before.buf.len() - keep;
            let tail = before.buf.skip(over);
            let cut = t.bytes as int;
            &&& over <= cut <= before.buf.len()
            &&& cut - over < 2_048
            &&& final(p)@.buf == before.buf.skip(cut)
            &&& final(p)@.dropped == before.dropped + cut
            &&& final(p)@.written == before.written
            &&& final(p)@.closed == before.closed
            &&& i + 1 < 2_048 && begins_frame(tail, i) ==> cut - over <= i && begins_frame(
                tail,
                cut - over,
            )
            &&& cut > over ==> begins_frame(tail, cut - over)
        },
{
    if old(p)@.buf.len() > keep {
        let tail = old(p)@.buf.skip(old(p)@.buf.len() - keep);
        let end: int = if tail.len() < 2_048 {
            tail.len() as int
        } else {
            2_048
        };
        stream::lemma_header_from(tail, 0, end);
        assert(begins_frame(tail, i) == stream::header_at(tail, i));
        let found = t.bytes - (old(p)@.buf.len() - keep);
        assert(begins_frame(tail, found) == stream::header_at(tail, found));
    }
}

/// Of the blocks that a trim passes over the newest stays; those further ahead
/// stay too, and the rest go.
pub proof fn law_trims_keep_the_newest_block(
    p: &mut BytePipe,
    keep: usize,
    demuxed: u64,
    t: Trim,
    i: int,
)
    requires
        call_ensures(BytePipe::trim_to, (p, keep, demuxed), t),
        old(p)@.wf(),
        old(p)@.buf.len() > keep,
        0 <= i < old(p)@.meta.len(),
    ensures
        ({
            let before = old(p)@;
            let cursor = before.dropped + t.bytes + demuxed;
            let gone = t.meta_skipped as int;
            &&& final(p)@.meta == before.meta.skip(gone)
            &&& i < gone ==> i + 1 < before.meta.len() && before.meta[i].at <= cursor
                && before.meta[i + 1].at <= cursor
            &&& i >= gone && i + 1 < before.meta.len() ==> before.meta[i + 1].at > cursor
        }),
{
    let before = old(p)@;
    let cursor = before.dropped + t.bytes + demuxed;
    stream_laws::lemma_due(before, cursor);
}

/// A read hands the oldest bytes out, as many as fit, and leaves the rest of
/// the room alone. It waits only on an open pipe that is empty.
pub proof fn law_reading_takes_the_oldest(
    p: &mut BytePipe,
    out: &mut [u8],
    r: Option<usize>,
)
    requires
        call_ensures(BytePipe::read, (p, out), r),
    ensures
        reads(old(p)@, final(p)@, old(out)@, final(out)@, r),
{
    lemma_reads(old(p)@, final(p)@, old(out)@, final(out)@, r);
}

/// So it is for the decoder, which can neither seek nor know the length.
pub proof fn law_the_decoder_reads_the_pipe(
    pipe: BytePipe,
    fresh: PipeReader,
    p: &mut PipeReader,
    out: &mut [u8],
    r: Option<usize>,
    q: PipeReader,
    seekable: bool,
    len: Option<u64>,
)
    requires
        call_ensures(PipeReader::new, (pipe,), fresh),
        call_ensures(PipeReader::read, (p, out), r),
        call_ensures(PipeReader::is_seekable, (&q,), seekable),
        call_ensures(PipeReader::byte_len, (&q,), len),
    ensures
        fresh@ == pipe@,
        reads(old(p)@, final(p)@, old(out)@, final(out)@, r),
        !seekable,
        len is None,
{
    lemma_reads(old(p)@, final(p)@, old(out)@, final(out)@, r);
}

/// Whether a read of a pipe went right.
pub open spec fn reads(
    before: stream::PipeView,
    after: stream::PipeView,
    room: Seq<u8>,
    filled: Seq<u8>,
    r: Option<usize>,
) -> bool {
    let n = before.buf.len() - after.buf.len();
    &&& 0 <= n <= room.len()
    &&& n == room.len() || after.buf.len() == 0
    &&& filled.len() == room.len()
    &&& filled.take(n) + after.buf == before.buf
    &&& filled.skip(n) == room.skip(n)
    &&& r is None <==> before.buf.len() == 0 && room.len() > 0 && !before.closed
    &&& r is Some ==> r->0 == n
    &&& after.closed == before.closed
    &&& after.written == before.written
    &&& after.dropped == before.dropped
    &&& after.meta == before.meta
}

/// Reads go right.
proof fn lemma_reads(
    before: stream::PipeView,
    after: stream::PipeView,
    room: Seq<u8>,
    filled: Seq<u8>,
    r: Option<usize>,
)
    requires
        before.read_gives(r, room, after, filled),
    ensures
        reads(before, after, room, filled, r),
{
    let n = before.buf.len() - after.buf.len();
    assert(filled.take(n) =~= before.buf.take(n));
    assert(filled.take(n) + after.buf =~= before.buf);
    assert(filled.skip(n) =~= room.skip(n));
}

/// What comes of a fetch: bytes are fed on, none is the end, and only an
/// interruption is tried again.
pub proof fn law_what_comes_of_a_fetch(fetched: Fetched, p: Pumping)
    requires
        call_ensures(pump_step, (fetched,), p),
    ensures
        fetched matches Fetched::Bytes(n) ==> {
            &&& n > 0 ==> p == Pumping::Feed(n)
            &&& n == 0 ==> p is Finish
        },
        fetched is Interrupted ==> p is Again,
        fetched is Broken ==> p is Fail,
{
}

/// A stream whose header names no interval is audio throughout; any other
/// begins with so many bytes of it.
pub proof fn law_streams_begin_with_audio(metaint: usize, d: IcyDemux)
    requires
        call_ensures(IcyDemux::new, (metaint,), d),
    ensures
        d.interval() == metaint,
        d.stands_at() is Audio,
        metaint > 0 ==> d.stands_at() == stream::SegView::Audio(metaint as int),
{
    let pipe = stream::PipeView::empty();
    assert(d.flow(pipe) == stream::Flow::start(metaint as int, pipe));
}

/// Feeding within a run of audio writes it to the pipe, all that there is room
/// for, and nothing else.
pub proof fn law_audio_is_fed_through(
    d: &mut IcyDemux,
    chunk: &[u8],
    pipe: &mut BytePipe,
    stop: bool,
    n: usize,
)
    requires
        call_ensures(IcyDemux::feed, (d, chunk, pipe, stop), n),
        old(d).flow(old(pipe)@).wf(),
        old(d).stands_at() is Audio,
        old(d).interval() == 0 || chunk@.len() <= old(d).stands_at()->Audio_0,
    ensures
        !stop && !old(pipe)@.closed ==> {
            let room = 262_144 - old(pipe)@.buf.len();
            &&& chunk@.len() <= room ==> n == chunk@.len()
            &&& chunk@.len() > room ==> n == room
            &&& final(pipe)@.buf == old(pipe)@.buf + chunk@.take(n as int)
            &&& final(pipe)@.written == old(pipe)@.written + n
        },
        stop || old(pipe)@.closed ==> n == chunk@.len() && final(pipe)@ == old(pipe)@,
        final(pipe)@.meta == old(pipe)@.meta,
        final(pipe)@.dropped == old(pipe)@.dropped,
        final(pipe)@.closed == old(pipe)@.closed,
        final(d).interval() == old(d).interval(),
        old(d).interval() > 0 && 0 < n < old(d).stands_at()->Audio_0 ==> final(d).stands_at()
            == stream::SegView::Audio(old(d).stands_at()->Audio_0 - n),
        old(d).interval() > 0 && n == old(d).stands_at()->Audio_0 ==> final(
            d).stands_at() is MetaLen,
{
    let f = old(d).flow(old(pipe)@);
    stream::lemma_audio_run(f, chunk@.take(n as int), stop);
    assert(final(pipe)@ == final(d).flow(final(pipe)@).pipe);
}

/// The byte after the audio tells how long the metadata is, in sixteens; none
/// of it enters the pipe.
pub proof fn law_metadata_has_a_length(
    d: &mut IcyDemux,
    chunk: &[u8],
    pipe: &mut BytePipe,
    stop: bool,
    n: usize,
)
    requires
        call_ensures(IcyDemux::feed, (d, chunk, pipe, stop), n),
        old(d).flow(old(pipe)@).wf(),
        old(d).interval() > 0,
        old(d).stands_at() is MetaLen,
        chunk@.len() == 1,
    ensures
        n == 1,
        final(pipe)@ == old(pipe)@,
        chunk@[0] == 0 ==> final(d).stands_at() == stream::SegView::Audio(old(d).interval()),
        chunk@[0] > 0 ==> final(d).stands_at() is Meta && final(d).stands_at()->Meta_0 == 16
            * chunk@[0] && final(d).stands_at()->Meta_1.len() == 0,
{
    let f = old(d).flow(old(pipe)@);
    let g = final(d).flow(final(pipe)@);
    if n == 0 {
        assert(chunk@.take(0) =~= Seq::<u8>::empty());
        assert(g == f);
    } else {
        let one = chunk@.take(1);
        assert(one.drop_last() =~= Seq::<u8>::empty());
        assert(f.bytes(one.drop_last(), stop) == f);
        assert(one.last() == chunk@[0]);
        assert(g == f.byte(chunk@[0], stop));
    }
    assert(final(pipe)@ == g.pipe);
}

/// Metadata is gathered until it is complete, and none of it enters the pipe.
pub proof fn law_metadata_is_gathered(
    d: &mut IcyDemux,
    chunk: &[u8],
    pipe: &mut BytePipe,
    stop: bool,
    n: usize,
)
    requires
        call_ensures(IcyDemux::feed, (d, chunk, pipe, stop), n),
        old(d).flow(old(pipe)@).wf(),
        old(d).interval() > 0,
        old(d).stands_at() is Meta,
        chunk@.len() < old(d).stands_at()->Meta_0,
    ensures
        n == chunk@.len(),
        final(pipe)@ == old(pipe)@,
        final(d).interval() == old(d).interval(),
        final(d).stands_at() == stream::SegView::Meta(
            old(d).stands_at()->Meta_0 - chunk@.len(),
            old(d).stands_at()->Meta_1 + chunk@,
        ),
{
    let f = old(d).flow(old(pipe)@);
    let g = final(d).flow(final(pipe)@);
    stream::lemma_meta_run(f, chunk@.take(n as int), stop);
    assert(g.seg is Meta);
    assert(chunk@.take(n as int) =~= chunk@);
    assert(final(pipe)@ == g.pipe);
}

/// Once it is complete, metadata is read as the block that it writes, whatever
/// padding follows. A block without a document is stamped behind the audio
/// before it; one with a document waits for that to be read; and what is no
/// block is passed over. Audio follows.
pub proof fn law_complete_metadata_is_read(
    d: &mut IcyDemux,
    chunk: &[u8],
    pipe: &mut BytePipe,
    stop: bool,
    n: usize,
    raw: &str,
    padding: nat,
    opened: Option<(Block, Option<Vec<u8>>)>,
)
    requires
        call_ensures(IcyDemux::feed, (d, chunk, pipe, stop), n),
        call_ensures(icy::open_block, (raw,), opened),
        old(d).flow(old(pipe)@).wf(),
        old(d).interval() > 0,
        old(d).stands_at() is Meta,
        chunk@.len() == old(d).stands_at()->Meta_0,
        old(d).stands_at()->Meta_1 + chunk@ == encode_utf8(raw@) + stream_laws::nuls(padding),
        raw@.len() > 0 ==> raw@.last() != '\0',
    ensures
        n == chunk@.len(),
        final(d).interval() == old(d).interval(),
        opened is None ==> {
            &&& final(pipe)@ == old(pipe)@
            &&& final(d).stands_at() == stream::SegView::Audio(old(d).interval())
        },
        opened matches Some((b, document)) ==> {
            &&& document is None ==> {
                &&& final(pipe)@ == (stream::PipeView {
                    meta: old(pipe)@.meta.push(
                        stream::Mark { at: old(pipe)@.written, block: b@ },
                    ),
                    ..old(pipe)@
                })
                &&& final(d).stands_at() == stream::SegView::Audio(old(d).interval())
            }
            &&& document is Some ==> {
                &&& final(pipe)@ == old(pipe)@
                &&& final(d).stands_at() == stream::SegView::Waiting(b@, document->0@)
            }
        },
{
    let f = old(d).flow(old(pipe)@);
    let g = final(d).flow(final(pipe)@);
    if n < chunk@.len() {
        stream::lemma_meta_run(f, chunk@.take(n as int), stop);
        assert(g.seg is Meta);
    }
    assert(chunk@.take(n as int) =~= chunk@);
    stream::lemma_meta_completed(f, chunk@, stop);
    stream_laws::law_padding_is_ignored(raw@, padding, None);
    assert(final(pipe)@ == g.pipe);
}

/// A block whose schedule is awaited is stamped once that has been read, with
/// what was read; where nothing is awaited, nothing happens.
pub proof fn law_awaited_schedules_join_their_blocks(
    d: &mut IcyDemux,
    parsed: Option<Payload>,
    pipe: &mut BytePipe,
)
    requires
        call_ensures(IcyDemux::on_document, (d, parsed, pipe), ()),
    ensures
        !(old(d).stands_at() is Waiting) ==> final(pipe)@ == old(pipe)@ && final(d).stands_at()
            == old(d).stands_at(),
        old(d).stands_at() matches stream::SegView::Waiting(block, _) ==> {
            &&& final(d).stands_at() == stream::SegView::Audio(old(d).interval())
            &&& final(pipe)@.meta.len() == old(pipe)@.meta.len() + 1
            &&& final(pipe)@.meta.last().at == old(pipe)@.written
            &&& final(pipe)@.meta.last().block.title == block.title
            &&& final(pipe)@.buf == old(pipe)@.buf
            &&& block.url is Some ==> {
                let told = final(pipe)@.meta.last().block.url;
                &&& told is Some
                &&& told->0 == (icy::UrlView { payload: told->0.payload, ..block.url->0 })
                &&& parsed is Some && parsed->0.v == 1 ==> told->0.payload == parsed
                &&& parsed is None || parsed->0.v != 1 ==> told->0.payload is None
            }
        },
        final(d).interval() == old(d).interval(),
{
    let f = old(d).flow(old(pipe)@);
    let g = final(d).flow(final(pipe)@);
    assert(g == f.answered(parsed));
    assert(final(pipe)@ == g.pipe);
}

/// A document is asked for where one is awaited.
pub proof fn law_documents_are_asked_for(d: IcyDemux, r: Option<&Vec<u8>>)
    requires
        call_ensures(IcyDemux::document, (&d,), r),
    ensures
        r is Some <==> d.stands_at() is Waiting,
        r matches Some(bytes) ==> bytes@ == d.stands_at()->Waiting_1,
{
}

/// Whether a header's value, as it is told, is the one that was sent.
pub open spec fn tells_text(value: Option<Vec<u8>>, sent: Seq<char>, told: Seq<char>) -> bool {
    &&& value is None ==> told.len() == 0
    &&& value is Some && value->0@ == encode_utf8(sent) ==> text_laws::trims_to(sent, told)
}

/// Whether a header's number, as it is told, is the one that was sent; none is
/// told as nought.
pub open spec fn tells_number(value: Option<Vec<u8>>, sent: int, max: int, told: int) -> bool {
    &&& value is None ==> told == 0
    &&& value is Some && value->0@ == encode_utf8(icy_laws::signed_text(sent)) ==> told == (if 0
        <= sent <= max {
        sent
    } else {
        0
    })
}

/// A station is what its headers say.
pub proof fn law_headers_are_told(
    h: Headers,
    s: StationInfo,
    name: Seq<char>,
    description: Seq<char>,
    genre: Seq<char>,
    url: Seq<char>,
    bitrate: int,
    metaint: int,
)
    requires
        call_ensures(StationInfo::from_headers, (&h,), s),
    ensures
        tells_text(h.name, name, s.name@),
        tells_text(h.description, description, s.description@),
        tells_text(h.genre, genre, s.genre@),
        tells_text(h.url, url, s.url@),
        tells_number(h.bitrate, bitrate, u32::MAX as int, s.bitrate_kbps as int),
        tells_number(h.metaint, metaint, usize::MAX as int, s.metaint as int),
{
    lemma_tells_text(h.name, name);
    lemma_tells_text(h.description, description);
    lemma_tells_text(h.genre, genre);
    lemma_tells_text(h.url, url);
    lemma_tells_number(h.bitrate, bitrate, u32::MAX as int);
    lemma_tells_number(h.metaint, metaint, usize::MAX as int);
}

proof fn lemma_tells_text(value: Option<Vec<u8>>, sent: Seq<char>)
    ensures
        tells_text(value, sent, stream::header_says(value)),
{
    text_laws::lemma_trims_to(sent);
    encode_utf8_valid_utf8(sent);
    encode_utf8_decode_utf8(sent);
}

proof fn lemma_tells_number(value: Option<Vec<u8>>, sent: int, max: int)
    ensures
        tells_number(value, sent, max, stream::header_number(value, max)),
{
    let t = icy_laws::signed_text(sent);
    encode_utf8_valid_utf8(t);
    encode_utf8_decode_utf8(t);
    let n: nat = if sent < 0 {
        (-sent) as nat
    } else {
        sent as nat
    };
    let digits = icy_laws::decimal_text(n);
    icy_laws::lemma_decimal_text(n);
    assert(number::is_digit(digits[0]));
    assert(number::is_digit(digits[digits.len() - 1]));
    assert(t.last() == digits.last());
    if sent < 0 {
        assert(t[0] == '-');
        assert(!number::is_digit(t[0]));
    }
    text_laws::lemma_nothing_to_trim(t);
}

/// An answer that is no success is an error with its status; any other opens
/// the stream that its headers tell of.
pub proof fn law_answers_open_streams(
    success: bool,
    status: &str,
    h: Headers,
    r: Result<(StationInfo, IcyDemux), String>,
    name: Seq<char>,
    bitrate: int,
    metaint: int,
)
    requires
        call_ensures(on_answer, (success, status, &h), r),
    ensures
        r is Ok <==> success,
        r matches Err(m) ==> m@ == "HTTP "@ + status@,
        r matches Ok((s, d)) ==> {
            &&& tells_text(h.name, name, s.name@)
            &&& tells_number(h.bitrate, bitrate, u32::MAX as int, s.bitrate_kbps as int)
            &&& tells_number(h.metaint, metaint, usize::MAX as int, s.metaint as int)
            &&& d.interval() == s.metaint
            &&& s.metaint > 0 ==> d.stands_at() == stream::SegView::Audio(s.metaint as int)
            &&& s.metaint == 0 ==> d.stands_at() is Audio
        },
{
    lemma_tells_text(h.name, name);
    lemma_tells_number(h.bitrate, bitrate, u32::MAX as int);
    lemma_tells_number(h.metaint, metaint, usize::MAX as int);
    if let Ok((s, d)) = r {
        let pipe = stream::PipeView::empty();
        assert(d.flow(pipe) == stream::Flow::start(s.metaint as int, pipe));
    }
}

} // verus!
