//! Laws of a deck: what goes in, and what comes out of it.

use crate::deck;
use crate::deck::{frame, Deck, Frames, Packet, Pull, DEFAULT_RATE, SPLICE_TOLERANCE};
use crate::fault::{DeckEnd, Fault};
use crate::stream::BytePipe;
use vstd::prelude::*;

verus! {

/// A new deck has read, decoded and played nothing. A stream that does not
/// tell its rate is taken to be of the usual one.
pub proof fn law_new_decks_are_empty<S: Copy>(track_id: u32, rate: Option<u32>, d: Deck<S>)
    requires
        call_ensures(Deck::<S>::new, (track_id, rate), d),
    ensures
        DEFAULT_RATE == 44_100,
        SPLICE_TOLERANCE == 8,
        d@.track_id == track_id,
        rate is None ==> d@.rate == 44_100,
        rate is Some && rate->0 > 0 ==> d@.rate == rate->0,
        rate is Some && rate->0 == 0 ==> d@.rate == 1,
        d@.demuxed == 0,
        d@.fifo.len() == 0,
        d@.marks.len() == 0,
        d@.decoded_frames == 0,
        d@.played_frames == 0,
        d@.played_demuxed == 0,
        d@.rate_bytes == 0,
        d@.rate_frames == 0,
        d@.bitrate_update is None,
        d@.splice_errors_left == 0,
{
}

/// What can be asked of a deck is what it has counted.
pub proof fn law_decks_can_be_asked<S: Copy>(
    d: Deck<S>,
    rate: u32,
    demuxed: u64,
    decoded: u64,
    played: u64,
    played_demuxed: u64,
    available: usize,
    waiting: u64,
    frames: usize,
    wants: bool,
)
    requires
        d@.wf(),
        call_ensures(Deck::<S>::rate, (&d,), rate),
        call_ensures(Deck::<S>::demuxed, (&d,), demuxed),
        call_ensures(Deck::<S>::decoded_frames, (&d,), decoded),
        call_ensures(Deck::<S>::played_frames, (&d,), played),
        call_ensures(Deck::<S>::played_demuxed, (&d,), played_demuxed),
        call_ensures(Deck::<S>::available, (&d,), available),
        call_ensures(Deck::<S>::fifo_bytes, (&d,), waiting),
        call_ensures(Deck::<S>::wants, (&d, frames), wants),
    ensures
        rate == d@.rate,
        demuxed == d@.demuxed,
        decoded == d@.decoded_frames,
        played == d@.played_frames,
        played_demuxed == d@.played_demuxed,
        available == decoded - played,
        2 * available == d@.fifo.len(),
        waiting == demuxed - played_demuxed,
        wants <==> decoded - played < frames,
{
}

/// A deck's depth is all that was written for it and not yet played, less what
/// was thrown away.
pub proof fn law_depth_counts_what_is_to_be_heard<S: Copy>(d: Deck<S>, pipe: BytePipe, n: u64)
    requires
        call_ensures(Deck::<S>::depth_bytes, (&d, &pipe), n),
    ensures
        pipe@.written >= pipe@.dropped + d@.played_demuxed ==> n == pipe@.written - pipe@.dropped
            - d@.played_demuxed,
        pipe@.written < pipe@.dropped + d@.played_demuxed ==> n == 0,
{
}

/// Frames go by bytes as they did on this deck so far.
pub proof fn law_a_decks_ratio<S: Copy>(d: Deck<S>, r: Option<(u64, u64)>)
    requires
        call_ensures(Deck::<S>::frames_per_byte, (&d,), r),
        d@.wf(),
    ensures
        r is None <==> d@.demuxed == 0,
        r matches Some(p) ==> p.0 == d@.decoded_frames && p.1 == d@.demuxed,
{
}

/// Every packet counts, and only those of the deck's own track are decoded.
pub proof fn law_packets_are_counted<S: Copy>(
    d: &mut Deck<S>,
    track_id: u32,
    len: u64,
    dur: u64,
    net: Option<Fault>,
    next: Pull,
)
    requires
        call_ensures(Deck::<S>::on_packet, (d, Packet::Read { track_id, len, dur }, net), next),
        old(d)@.wf(),
    ensures
        final(d)@.demuxed == old(d)@.demuxed + len,
        next is Decode <==> track_id == old(d)@.track_id,
        next is Again <==> track_id != old(d)@.track_id,
        final(d)@.fifo == old(d)@.fifo,
        final(d)@.marks == old(d)@.marks,
        final(d)@.track_id == old(d)@.track_id,
        final(d)@.rate == old(d)@.rate,
        final(d)@.decoded_frames == old(d)@.decoded_frames,
        final(d)@.played_frames == old(d)@.played_frames,
        final(d)@.played_demuxed == old(d)@.played_demuxed,
        final(d)@.splice_errors_left == old(d)@.splice_errors_left,
{
}

/// The bitrate is measured over two seconds of audio at a time: it is the bits
/// of those packets for each millisecond that they last, rounded down. Until
/// then packets add up, and an earlier measurement stands.
pub proof fn law_bitrates_are_measured<S: Copy>(
    d: &mut Deck<S>,
    track_id: u32,
    len: u64,
    dur: u64,
    net: Option<Fault>,
    next: Pull,
)
    requires
        call_ensures(Deck::<S>::on_packet, (d, Packet::Read { track_id, len, dur }, net), next),
        old(d)@.wf(),
    ensures
        ({
            let bytes = old(d)@.rate_bytes + len;
            let frames = old(d)@.rate_frames + dur;
            let rate = old(d)@.rate;
            &&& frames < 2 * rate ==> {
                &&& final(d)@.rate_bytes == bytes
                &&& final(d)@.rate_frames == frames
                &&& final(d)@.bitrate_update == old(d)@.bitrate_update
            }
            &&& frames >= 2 * rate ==> {
                &&& final(d)@.rate_bytes == 0
                &&& final(d)@.rate_frames == 0
                &&& final(d)@.bitrate_update is Some
                &&& forall|ms: int, kbps: int|
                    #![trigger lasts(frames, rate, ms), comes_to(bytes, ms, kbps)]
                    lasts(frames, rate, ms) && comes_to(bytes, ms, kbps) && kbps <= u32::MAX
                        ==> final(d)@.bitrate_update == Some(kbps)
            }
        }),
{
    let bytes = old(d)@.rate_bytes + len;
    let frames = old(d)@.rate_frames + dur;
    let rate = old(d)@.rate;
    let after = final(d)@;
    if frames >= 2 * rate {
        assert forall|ms: int, kbps: int|
            #![trigger lasts(frames, rate, ms), comes_to(bytes, ms, kbps)]
            lasts(frames, rate, ms) && comes_to(bytes, ms, kbps) && kbps <= u32::MAX
            implies after.bitrate_update == Some(kbps) by {
            lemma_quotient(frames * 1000, rate, ms);
            assert(ms >= 2) by (nonlinear_arith)
                requires
                    frames >= 2 * rate,
                    rate >= 1,
                    frames * 1000 < (ms + 1) * rate,
            ;
            lemma_quotient(bytes * 8, ms, kbps);
            assert(kbps >= 0) by (nonlinear_arith)
                requires
                    bytes >= 0,
                    bytes * 8 < (kbps + 1) * ms,
                    ms >= 2,
            ;
        }
    }
}

/// So many whole milliseconds of audio.
pub open spec fn lasts(frames: int, rate: int, ms: int) -> bool {
    ms * rate <= frames * 1000 < (ms + 1) * rate
}

/// So many whole bits in each millisecond.
pub open spec fn comes_to(bytes: int, ms: int, kbps: int) -> bool {
    kbps * ms <= bytes * 8 < (kbps + 1) * ms
}

/// What a quotient is.
proof fn lemma_quotient(x: int, y: int, q: int)
    by (nonlinear_arith)
    requires
        y > 0,
        q * y <= x < (q + 1) * y,
    ensures
        x / y == q,
{
}

/// A measurement is handed out once.
pub proof fn law_measurements_are_told_once<S: Copy>(d: &mut Deck<S>, r: Option<u32>)
    requires
        call_ensures(Deck::<S>::take_bitrate_update, (d,), r),
    ensures
        r is Some <==> old(d)@.bitrate_update is Some,
        r is Some ==> old(d)@.bitrate_update == Some(r->0 as int),
        final(d)@ == (deck::DeckView { bitrate_update: None, ..old(d)@ }),
{
}

/// The end of the packets is the end of the deck: for the network's reason
/// where it has one. So is data that cannot be read, unless the stream was
/// just spliced: then so many stumbles are passed over.
pub proof fn law_how_reading_ends<S: Copy>(
    d: &mut Deck<S>,
    packet: Packet,
    net: Option<Fault>,
    next: Pull,
)
    requires
        call_ensures(Deck::<S>::on_packet, (d, packet, net), next),
        !(packet is Read),
    ensures
        ({
            let forgiven = packet is Stumbled && old(d)@.splice_errors_left > 0;
            &&& next is Again <==> forgiven
            &&& next is End <==> !forgiven
            &&& forgiven ==> final(d)@ == (deck::DeckView {
                splice_errors_left: old(d)@.splice_errors_left - 1,
                ..old(d)@
            })
            &&& !forgiven ==> final(d)@ == old(d)@
            &&& !forgiven && net is Some ==> next->0 == DeckEnd::Failed(net->0)
            &&& packet is Ended && net is None ==> next->0 is Ended
            &&& !forgiven && net is None ==> (packet matches Packet::Stumbled(detail) ==> unread(
                next,
                "read: "@ + detail@,
            ))
            &&& net is None ==> (packet matches Packet::Broken(detail) ==> unread(
                next,
                "read: "@ + detail@,
            ))
        }),
{
}

/// Whether a deck ends because its data cannot be made out.
pub open spec fn unread(next: Pull, detail: Seq<char>) -> bool {
    &&& next is End
    &&& next->0 is Failed
    &&& next->0->0.code@ == "decode"@
    &&& next->0->0.message@ == "Stream is not decodable"@ + " ("@ + detail + ")"@
}

/// A splice is followed by at most so many stumbles that are passed over.
pub proof fn law_splices_are_forgiven<S: Copy>(d: &mut Deck<S>)
    requires
        call_ensures(Deck::<S>::expect_splice, (d,), ()),
    ensures
        final(d)@ == (deck::DeckView { splice_errors_left: 8, ..old(d)@ }),
{
}

/// Decoded audio joins what waits, frame by frame and in order, folded to
/// stereo: a frame's first two channels, or its only one twice. The cursor of
/// the bytes that were read so far is remembered at its end.
pub proof fn law_decoded_audio_waits<S: Copy>(
    d: &mut Deck<S>,
    samples: Vec<S>,
    channels: usize,
    net: Option<Fault>,
    next: Pull,
    f: int,
)
    requires
        call_ensures(
            Deck::<S>::on_frames,
            (d, Frames::Decoded { samples, channels }, net),
            next,
        ),
        old(d)@.wf(),
        channels >= 1,
    ensures
        next is Done,
        ({
            let before = old(d)@;
            let after = final(d)@;
            let n = after.decoded_frames - before.decoded_frames;
            let base = before.fifo.len();
            &&& n * channels <= samples@.len() < (n + 1) * channels
            &&& after.fifo.len() == base + 2 * n
            &&& after.fifo.take(base as int) == before.fifo
            &&& 0 <= f < n ==> {
                &&& after.fifo[base + 2 * f] == samples@[f * channels]
                &&& channels >= 2 ==> after.fifo[base + 2 * f + 1] == samples@[f * channels + 1]
                &&& channels == 1 ==> after.fifo[base + 2 * f + 1] == samples@[f * channels]
            }
            &&& after.marks == before.marks.push((after.decoded_frames, before.demuxed))
            &&& after == (deck::DeckView {
                fifo: after.fifo,
                decoded_frames: after.decoded_frames,
                marks: after.marks,
                ..before
            })
        }),
{
    let before = old(d)@;
    let after = final(d)@;
    let ch = channels as int;
    let len = samples@.len() as int;
    let n = len / ch;
    assert(n >= 0 && n * ch <= len < (n + 1) * ch) by (nonlinear_arith)
        requires
            n == len / ch,
            ch >= 1,
            len >= 0,
    ;
    let folded = deck::stereo(samples@, ch, n as nat);
    lemma_folded(samples@, ch, n as nat);
    assert(after.fifo == before.fifo + folded);
    assert(after.fifo.take(before.fifo.len() as int) =~= before.fifo);
    if 0 <= f < n {
        let at = before.fifo.len() + 2 * f;
        assert(after.fifo[at] == folded[2 * f]);
        assert(after.fifo[at + 1] == folded[2 * f + 1]);
    }
}

/// What folding to stereo leaves of each frame.
proof fn lemma_folded<S>(samples: Seq<S>, ch: int, n: nat)
    requires
        ch >= 1,
    ensures
        deck::stereo(samples, ch, n).len() == 2 * n,
        forall|f: int|
            #![trigger deck::stereo(samples, ch, n)[2 * f]]
            #![trigger deck::stereo(samples, ch, n)[2 * f + 1]]
            0 <= f < n ==> {
                &&& deck::stereo(samples, ch, n)[2 * f] == samples[f * ch]
                &&& deck::stereo(samples, ch, n)[2 * f + 1] == samples[if ch >= 2 {
                    f * ch + 1
                } else {
                    f * ch
                }]
            },
    decreases n,
{
    if n > 0 {
        let head = deck::stereo(samples, ch, (n - 1) as nat);
        let all = deck::stereo(samples, ch, n);
        lemma_folded(samples, ch, (n - 1) as nat);
        assert forall|f: int|
            #![trigger all[2 * f]]
            #![trigger all[2 * f + 1]]
            0 <= f < n implies {
            &&& all[2 * f] == samples[f * ch]
            &&& all[2 * f + 1] == samples[if ch >= 2 {
                f * ch + 1
            } else {
                f * ch
            }]
        } by {
            if f < n - 1 {
                assert(all[2 * f] == head[2 * f]);
                assert(all[2 * f + 1] == head[2 * f + 1]);
            }
        }
    }
}

/// Audio without a count of channels is taken to have one.
pub proof fn law_no_channels_are_one<S: Copy>(
    d: &mut Deck<S>,
    samples: Vec<S>,
    net: Option<Fault>,
    next: Pull,
)
    requires
        call_ensures(
            Deck::<S>::on_frames,
            (d, Frames::Decoded { samples, channels: 0 }, net),
            next,
        ),
    ensures
        final(d)@.decoded_frames == old(d)@.decoded_frames + samples@.len(),
{
    let len = samples@.len() as int;
    assert(len / 1 == len);
}

/// A packet that does not decode is passed over; a decoder that is at its end
/// or broken ends the deck.
pub proof fn law_how_decoding_ends<S: Copy>(
    d: &mut Deck<S>,
    frames: Frames<S>,
    net: Option<Fault>,
    next: Pull,
)
    requires
        call_ensures(Deck::<S>::on_frames, (d, frames, net), next),
        !(frames is Decoded),
    ensures
        final(d)@ == old(d)@,
        next is Again <==> frames is Bad,
        next is End <==> !(frames is Bad),
        !(frames is Bad) && net is Some ==> next->0 == DeckEnd::Failed(net->0),
        frames is Ended && net is None ==> next->0 is Ended,
        net is None ==> (frames matches Frames::Broken(detail) ==> unread(
            next,
            "decode: "@ + detail@,
        )),
{
}

/// One frame, folded to stereo.
pub proof fn law_frames_are_folded<S: Copy>(samples: &[S], channels: usize, f: usize, p: (S, S))
    requires
        call_ensures(frame::<S>, (samples, channels, f), p),
        channels >= 1,
    ensures
        p.0 == samples@[f * channels],
        channels >= 2 ==> p.1 == samples@[f * channels + 1],
        channels == 1 ==> p.1 == samples@[f * channels],
{
}

/// Playback takes the next frames, in order, and they are then played.
pub proof fn law_taking_plays<S: Copy>(d: &mut Deck<S>, frames: usize, out: Vec<S>)
    requires
        call_ensures(Deck::<S>::take, (d, frames), out),
        old(d)@.wf(),
        frames <= old(d)@.decoded_frames - old(d)@.played_frames,
    ensures
        out@.len() == 2 * frames,
        out@ + final(d)@.fifo == old(d)@.fifo,
        final(d)@.played_frames == old(d)@.played_frames + frames,
        follows(old(d)@, final(d)@),
{
    deck::lemma_passed(old(d)@.marks, final(d)@.played_frames);
    lemma_follows(old(d)@, frames as int);
    assert(old(d)@.fifo.take(2 * frames) + old(d)@.fifo.skip(2 * frames) =~= old(d)@.fifo);
}

/// Discarding throws the next frames away, as far as they are decoded, and
/// tells how many are still to be thrown away.
pub proof fn law_discarding_throws_away<S: Copy>(d: &mut Deck<S>, frames: u64, rest: u64)
    requires
        call_ensures(Deck::<S>::discard, (d, frames), rest),
        old(d)@.wf(),
    ensures
        ({
            let n = frames - rest;
            let ready = old(d)@.decoded_frames - old(d)@.played_frames;
            &&& frames <= ready ==> rest == 0
            &&& frames > ready ==> n == ready
            &&& final(d)@.fifo == old(d)@.fifo.skip(2 * n)
            &&& final(d)@.played_frames == old(d)@.played_frames + n
            &&& follows(old(d)@, final(d)@)
        }),
{
    lemma_follows(old(d)@, frames - rest);
}

/// Whether the byte cursor has followed playback: it stands where the last
/// packet ended whose audio is all played, and moves on with no other. What has
/// nothing to do with playback stays.
pub open spec fn follows<S>(before: deck::DeckView<S>, after: deck::DeckView<S>) -> bool {
    let played = after.played_frames;
    &&& after == (deck::DeckView {
        fifo: after.fifo,
        played_frames: played,
        played_demuxed: after.played_demuxed,
        marks: after.marks,
        ..before
    })
    &&& after.played_demuxed == before.played_demuxed || exists|i: int|
        #![trigger before.marks[i]]
        0 <= i < before.marks.len() && before.marks[i].0 <= played && before.marks[i].1
            == after.played_demuxed
    &&& forall|i: int|
        #![trigger before.marks[i]]
        0 <= i < before.marks.len() && before.marks[i].0 <= played ==> before.marks[i].1
            <= after.played_demuxed
    &&& after.marks.len() <= before.marks.len()
    &&& after.marks == before.marks.skip(before.marks.len() - after.marks.len())
    &&& forall|i: int|
        #![trigger before.marks[i]]
        0 <= i < before.marks.len() ==> (before.marks[i].0 <= played <==> i < before.marks.len()
            - after.marks.len())
}

/// The byte cursor follows playback.
pub proof fn lemma_follows<S>(d: deck::DeckView<S>, n: int)
    requires
        d.wf(),
        0 <= n,
    ensures
        follows(d, d.left(n)),
        d.left(n).fifo == d.fifo.skip(2 * n),
        d.left(n).played_frames == d.played_frames + n,
        d.left(n).decoded_frames == d.decoded_frames,
        d.left(n).demuxed == d.demuxed,
{
    let played = d.played_frames + n;
    let k = deck::passed(d.marks, played) as int;
    deck::lemma_passed(d.marks, played);
    let after = d.left(n);
    if k > 0 {
        assert(d.marks[k - 1].0 <= played);
        assert(after.played_demuxed == d.marks[k - 1].1);
    } else {
        assert(d.marks.skip(0) =~= d.marks);
    }
    assert forall|i: int|
        #![trigger d.marks[i]]
        0 <= i < d.marks.len() implies (d.marks[i].0 <= played <==> i < k) by {
        if i >= k && k < d.marks.len() {
            assert(d.marks[k].0 <= d.marks[i].0);
        }
    }
    assert(after.marks == d.marks.skip(k));
}

/// The audio around a frame is what waits there, pair by pair, as far as it is
/// held.
pub proof fn law_pairs_are_what_waits<S: Copy>(
    d: Deck<S>,
    from: u64,
    to: u64,
    out: Vec<(S, S)>,
    i: int,
)
    requires
        call_ensures(Deck::<S>::pairs, (&d, from, to), out),
        d@.wf(),
    ensures
        d@.played_frames <= from <= to <= d@.decoded_frames ==> {
            &&& out@.len() == to - from
            &&& 0 <= i < to - from ==> out@[i].0 == d@.fifo[2 * (from + i - d@.played_frames)]
                && out@[i].1 == d@.fifo[2 * (from + i - d@.played_frames) + 1]
        },
        from < d@.played_frames && d@.played_frames <= to <= d@.decoded_frames ==> out@.len()
            == to - d@.played_frames && (0 <= i < out@.len() ==> out@[i].0 == d@.fifo[2 * i]
            && out@[i].1 == d@.fifo[2 * i + 1]),
        d@.played_frames <= from <= d@.decoded_frames < to ==> out@.len() == d@.decoded_frames
            - from,
        to <= d@.played_frames || from >= d@.decoded_frames || to <= from ==> out@.len() == 0,
{
}

/// Whether a packet's counts can be held.
pub proof fn law_limits_of_packets<S: Copy>(d: Deck<S>, len: u64, dur: u64, holds: bool)
    requires
        call_ensures(Deck::<S>::holds_packet, (&d, len, dur), holds),
        d@.wf(),
    ensures
        holds <==> d@.demuxed + len <= u64::MAX && (d@.rate_bytes + len) * 8 <= u64::MAX && (
        d@.rate_frames + dur) * 1000 <= u64::MAX,
{
}

} // verus!
