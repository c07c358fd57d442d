//! The bookkeeping of one stream connection and its decoder.
//!
//! Decoding goes packet by packet into a FIFO; playback takes fixed chunks out
//! of it. Normally the FIFO holds under one packet, but during a switch the
//! incoming deck decodes several seconds ahead. Marks remember the byte cursor
//! after each packet, so that metadata is still released when its audio is
//! played, not when it is decoded.
//!
//! A sample is any copyable value.

use crate::fault;
use crate::fault::{DeckEnd, Fault};
use crate::stream::BytePipe;
use std::collections::VecDeque;
use vstd::prelude::*;

verus! {

/// Frames handed on per step: one packet's worth.
pub const CHUNK: usize = 1152;

/// Errors that the decoder may raise on the first frames after a deliberate
/// trim. Bounded, so that a genuinely broken stream still surfaces as a fault.
pub const SPLICE_TOLERANCE: u32 = 8;

/// The sample rate assumed when a stream does not tell its own.
pub const DEFAULT_RATE: u32 = 44_100;

/// The stereo pair of frame `f` in interleaved samples of `channels` channels:
/// the first two channels, or the only one twice.
pub open spec fn stereo_pair<S>(samples: Seq<S>, channels: int, f: int) -> (S, S) {
    if channels >= 2 {
        (samples[f * channels], samples[f * channels + 1])
    } else {
        (samples[f * channels], samples[f * channels])
    }
}

/// A channel count as a divisor: never zero.
pub open spec fn width(channels: int) -> int {
    if channels < 1 {
        1
    } else {
        channels
    }
}

/// The whole frames of so many interleaved samples.
pub open spec fn frame_count(len: int, channels: int) -> int {
    len / width(channels)
}

/// The first `n` frames of interleaved samples, folded to stereo.
pub open spec fn stereo<S>(samples: Seq<S>, channels: int, n: nat) -> Seq<S>
    decreases n,
{
    if n == 0 {
        Seq::empty()
    } else {
        let (l, r) = stereo_pair(samples, channels, n - 1);
        stereo(samples, channels, (n - 1) as nat) + seq![l, r]
    }
}

/// `x` within `[lo, hi]`.
pub open spec fn clamp(x: int, lo: int, hi: int) -> int {
    if x < lo {
        lo
    } else if x > hi {
        hi
    } else {
        x
    }
}

/// What a [`Deck`] knows.
pub ghost struct DeckView<S> {
    pub track_id: int,
    pub rate: int,
    /// Bytes of all packets pulled so far.
    pub demuxed: int,
    /// Decoded stereo samples not yet played.
    pub fifo: Seq<S>,
    /// Frames decoded and bytes pulled so far, after each packet.
    pub marks: Seq<(int, int)>,
    pub decoded_frames: int,
    pub played_frames: int,
    /// `demuxed` as of the last fully played packet.
    pub played_demuxed: int,
    pub rate_bytes: int,
    pub rate_frames: int,
    pub bitrate_update: Option<int>,
    pub splice_errors_left: int,
}

/// The sample rate that a stream tells, never zero.
pub open spec fn told_rate(rate: Option<u32>) -> int {
    match rate {
        Some(r) => if r == 0 {
            1
        } else {
            r as int
        },
        None => DEFAULT_RATE as int,
    }
}

/// How many marks at the front lie within the first `played` frames.
pub open spec fn passed(marks: Seq<(int, int)>, played: int) -> nat
    decreases marks.len(),
{
    if marks.len() > 0 && marks[0].0 <= played {
        1 + passed(marks.skip(1), played)
    } else {
        0
    }
}

impl<S> DeckView<S> {
    /// What every operation keeps.
    pub open spec fn wf(self) -> bool {
        &&& 1 <= self.rate <= u32::MAX
        &&& 0 <= self.played_frames <= self.decoded_frames
        &&& self.fifo.len() == 2 * (self.decoded_frames - self.played_frames)
        &&& 0 <= self.played_demuxed <= self.demuxed
        &&& 0 <= self.rate_bytes <= self.demuxed
        &&& 0 <= self.rate_frames < 2 * self.rate
        &&& forall|i: int, j: int|
            #![trigger self.marks[i], self.marks[j]]
            0 <= i <= j < self.marks.len() ==> self.marks[i].0 <= self.marks[j].0
                && self.marks[i].1 <= self.marks[j].1
        &&& forall|i: int|
            #![trigger self.marks[i]]
            0 <= i < self.marks.len() ==> self.marks[i].0 <= self.decoded_frames
                && self.played_demuxed <= self.marks[i].1 <= self.demuxed
    }

    /// A deck that has pulled nothing.
    pub open spec fn fresh(track_id: int, rate: int) -> DeckView<S> {
        DeckView {
            track_id,
            rate,
            demuxed: 0,
            fifo: Seq::empty(),
            marks: Seq::empty(),
            decoded_frames: 0,
            played_frames: 0,
            played_demuxed: 0,
            rate_bytes: 0,
            rate_frames: 0,
            bitrate_update: None,
            splice_errors_left: 0,
        }
    }

    /// Decoded frames waiting.
    pub open spec fn available(self) -> int {
        self.decoded_frames - self.played_frames
    }

    /// A packet was pulled. Over two seconds' worth of packets the bitrate is
    /// measured.
    pub open spec fn pulled(self, len: int, dur: int) -> DeckView<S> {
        let bytes = self.rate_bytes + len;
        let frames = self.rate_frames + dur;
        let whole = DeckView { demuxed: self.demuxed + len, ..self };
        if frames >= self.rate * 2 {
            DeckView {
                rate_bytes: 0,
                rate_frames: 0,
                bitrate_update: Some((bytes * 8 / (frames * 1000 / self.rate)) as u32 as int),
                ..whole
            }
        } else {
            DeckView { rate_bytes: bytes, rate_frames: frames, ..whole }
        }
    }

    /// Whether the counters can hold a packet.
    pub open spec fn holds_packet(self, len: int, dur: int) -> bool {
        &&& self.demuxed + len <= u64::MAX
        &&& (self.rate_bytes + len) * 8 <= u64::MAX
        &&& (self.rate_frames + dur) * 1000 <= u64::MAX
    }

    /// `n` frames of a packet were decoded.
    pub open spec fn decoded(self, pairs: Seq<S>, n: int) -> DeckView<S> {
        DeckView {
            fifo: self.fifo + pairs,
            decoded_frames: self.decoded_frames + n,
            marks: self.marks.push((self.decoded_frames + n, self.demuxed)),
            ..self
        }
    }

    /// The byte cursor follows what has been played.
    pub open spec fn advanced(self) -> DeckView<S> {
        let n = passed(self.marks, self.played_frames) as int;
        if n == 0 {
            self
        } else {
            DeckView {
                played_demuxed: self.marks[n - 1].1,
                marks: self.marks.skip(n),
                ..self
            }
        }
    }

    /// The stereo pairs of decoded frames `[from, to)`, clamped to what the
    /// FIFO holds.
    pub open spec fn pairs(self, from: int, to: int) -> Seq<(S, S)> {
        let start = clamp(from, self.played_frames, self.decoded_frames);
        let end = clamp(to, start, self.decoded_frames);
        Seq::new(
            (end - start) as nat,
            |i: int|
                (
                    self.fifo[2 * (start - self.played_frames + i)],
                    self.fifo[2 * (start - self.played_frames + i) + 1],
                ),
        )
    }

    /// The next `n` frames left the FIFO.
    pub open spec fn left(self, n: int) -> DeckView<S> {
        DeckView {
            fifo: self.fifo.skip(2 * n),
            played_frames: self.played_frames + n,
            ..self
        }.advanced()
    }
}

/// The bookkeeping of one stream connection and its decoder.
pub struct Deck<S> {
    track_id: u32,
    rate: u32,
    demuxed: u64,
    fifo: VecDeque<S>,
    marks: VecDeque<(u64, u64)>,
    decoded_frames: u64,
    played_frames: u64,
    played_demuxed: u64,
    rate_bytes: u64,
    rate_frames: u64,
    bitrate_update: Option<u32>,
    splice_errors_left: u32,
}

/// What pulling a packet gave.
pub enum Packet {
    /// A packet of a track, with its length in bytes and duration in frames.
    Read { track_id: u32, len: u64, dur: u64 },
    /// The pipe came to its end.
    Ended,
    /// The demuxer stumbled over the data.
    Stumbled(String),
    /// The demuxer gave up.
    Broken(String),
}

/// What decoding a packet gave.
pub enum Frames<S> {
    /// Interleaved samples.
    Decoded { samples: Vec<S>, channels: usize },
    /// A bad frame, to be skipped.
    Bad,
    /// The pipe came to its end.
    Ended,
    /// The decoder gave up.
    Broken(String),
}

/// How to go on after pulling or decoding a packet.
pub enum Pull {
    /// Decode the packet.
    Decode,
    /// Pull another packet.
    Again,
    /// Samples have been added.
    Done,
    /// The deck has come to its end.
    End(DeckEnd),
}

/// Whether `end` reports undecodable data: the network error where there is
/// one, or else the detail.
pub open spec fn failed(end: DeckEnd, net: Option<Fault>, detail: Seq<char>) -> bool {
    end matches DeckEnd::Failed(f) && fault::undecodable(f, net, detail)
}

/// The end of the pipe: a failure where a network error is recorded.
pub open spec fn pipe_end(net: Option<Fault>) -> DeckEnd {
    match net {
        Some(f) => DeckEnd::Failed(f),
        None => DeckEnd::Ended,
    }
}

/// What pulling a packet, or failing to, makes of a deck, and how to go on.
pub open spec fn packet_leads_to<S>(
    d: DeckView<S>,
    packet: Packet,
    net: Option<Fault>,
    after: DeckView<S>,
    next: Pull,
) -> bool {
    match packet {
        Packet::Read { track_id, len, dur } => {
            &&& after == d.pulled(len as int, dur as int)
            &&& next == (if track_id == d.track_id {
                Pull::Decode
            } else {
                Pull::Again
            })
        },
        Packet::Ended => after == d && next == Pull::End(pipe_end(net)),
        Packet::Stumbled(detail) => if d.splice_errors_left > 0 {
            &&& after == (DeckView { splice_errors_left: d.splice_errors_left - 1, ..d })
            &&& next == Pull::Again
        } else {
            &&& after == d
            &&& next matches Pull::End(end) && failed(end, net, "read: "@ + detail@)
        },
        Packet::Broken(detail) => {
            &&& after == d
            &&& next matches Pull::End(end) && failed(end, net, "read: "@ + detail@)
        },
    }
}

/// What decoding a packet, or failing to, makes of a deck, and how to go on.
pub open spec fn frames_lead_to<S>(
    d: DeckView<S>,
    frames: Frames<S>,
    net: Option<Fault>,
    after: DeckView<S>,
    next: Pull,
) -> bool {
    match frames {
        Frames::Decoded { samples, channels } => {
            let n = frame_count(samples@.len() as int, channels as int);
            &&& after == d.decoded(stereo(samples@, width(channels as int), n as nat), n)
            &&& next == Pull::Done
        },
        Frames::Bad => after == d && next == Pull::Again,
        Frames::Ended => after == d && next == Pull::End(pipe_end(net)),
        Frames::Broken(detail) => {
            &&& after == d
            &&& next matches Pull::End(end) && failed(end, net, "decode: "@ + detail@)
        },
    }
}

/// The marks of a deck as numbers.
pub open spec fn mark_numbers(marks: Seq<(u64, u64)>) -> Seq<(int, int)> {
    Seq::new(marks.len(), |i: int| (marks[i].0 as int, marks[i].1 as int))
}

impl<S> View for Deck<S> {
    type V = DeckView<S>;

    closed spec fn view(&self) -> DeckView<S> {
        DeckView {
            track_id: self.track_id as int,
            rate: self.rate as int,
            demuxed: self.demuxed as int,
            fifo: self.fifo@,
            marks: mark_numbers(self.marks@),
            decoded_frames: self.decoded_frames as int,
            played_frames: self.played_frames as int,
            played_demuxed: self.played_demuxed as int,
            rate_bytes: self.rate_bytes as int,
            rate_frames: self.rate_frames as int,
            bitrate_update: match self.bitrate_update {
                Some(n) => Some(n as int),
                None => None,
            },
            splice_errors_left: self.splice_errors_left as int,
        }
    }
}

/// The stereo pair of frame `f` in interleaved samples.
pub fn frame<S: Copy>(samples: &[S], channels: usize, f: usize) -> (p: (S, S))
    requires
        channels >= 1,
        (f + 1) * channels <= samples@.len(),
    ensures
        p == stereo_pair(samples@, channels as int, f as int),
{
    proof {
        assert((f + 1) * channels == f * channels + channels) by (nonlinear_arith);
        assert(0 <= f * channels) by (nonlinear_arith)
            requires
                0 <= f,
                0 <= channels,
        ;
    }
    assert(samples.len() <= usize::MAX);
    let base: usize = f * channels;
    if channels >= 2 {
        (samples[base], samples[base + 1])
    } else {
        let m = samples[base];
        (m, m)
    }
}

impl<S: Copy> Deck<S> {
    /// A deck for the given track. A stream that does not tell its sample rate
    /// is taken to have the usual one.
    pub fn new(track_id: u32, rate: Option<u32>) -> (d: Deck<S>)
        ensures
            d@ == DeckView::<S>::fresh(track_id as int, told_rate(rate)),
            d@.wf(),
    {
        let rate: u32 = match rate {
            Some(r) => if r == 0 {
                1
            } else {
                r
            },
            None => DEFAULT_RATE,
        };
        let d = Deck {
            track_id,
            rate,
            demuxed: 0,
            fifo: VecDeque::new(),
            marks: VecDeque::new(),
            decoded_frames: 0,
            played_frames: 0,
            played_demuxed: 0,
            rate_bytes: 0,
            rate_frames: 0,
            bitrate_update: None,
            splice_errors_left: 0,
        };
        assert(d@.fifo =~= Seq::<S>::empty());
        assert(d@.marks =~= Seq::<(int, int)>::empty());
        d
    }

    pub fn rate(&self) -> (r: u32)
        ensures
            r == self@.rate,
    {
        self.rate
    }

    pub fn demuxed(&self) -> (n: u64)
        ensures
            n == self@.demuxed,
    {
        self.demuxed
    }

    pub fn decoded_frames(&self) -> (n: u64)
        ensures
            n == self@.decoded_frames,
    {
        self.decoded_frames
    }

    pub fn played_frames(&self) -> (n: u64)
        ensures
            n == self@.played_frames,
    {
        self.played_frames
    }

    pub fn played_demuxed(&self) -> (n: u64)
        ensures
            n == self@.played_demuxed,
    {
        self.played_demuxed
    }

    /// Decoded frames waiting in the FIFO.
    pub fn available(&self) -> (n: usize)
        requires
            self@.wf(),
        ensures
            n == self@.available(),
    {
        self.fifo.len() / 2
    }

    /// Bytes decoded but not yet played.
    pub fn fifo_bytes(&self) -> (n: u64)
        requires
            self@.wf(),
        ensures
            n == self@.demuxed - self@.played_demuxed,
    {
        self.demuxed.saturating_sub(self.played_demuxed)
    }

    /// Bytes between what is being played and this connection's live edge.
    pub fn depth_bytes(&self, pipe: &BytePipe) -> (n: u64)
        requires
            pipe@.cursor(self@.played_demuxed) <= u64::MAX,
        ensures
            n == pipe@.depth(self@.played_demuxed),
    {
        pipe.depth(self.played_demuxed)
    }

    /// Decoded frames and the bytes they came from, once there are any.
    pub fn frames_per_byte(&self) -> (r: Option<(u64, u64)>)
        ensures
            match r {
                Some((frames, bytes)) => {
                    &&& bytes > 0
                    &&& frames == self@.decoded_frames
                    &&& bytes == self@.demuxed
                },
                None => self@.demuxed <= 0,
            },
    {
        if self.demuxed > 0 {
            Some((self.decoded_frames, self.demuxed))
        } else {
            None
        }
    }

    /// The bitrate measured since the last call, if any.
    pub fn take_bitrate_update(&mut self) -> (r: Option<u32>)
        ensures
            final(self)@ == (DeckView { bitrate_update: None, ..old(self)@ }),
            old(self)@.bitrate_update == (match r {
                Some(n) => Some(n as int),
                None => None,
            }),
            old(self)@.wf() ==> final(self)@.wf(),
    {
        let r = self.bitrate_update;
        self.bitrate_update = None;
        r
    }

    /// A trim has cut into the stream: the next few errors are its doing.
    pub fn expect_splice(&mut self)
        ensures
            final(self)@ == (DeckView {
                splice_errors_left: SPLICE_TOLERANCE as int,
                ..old(self)@
            }),
            old(self)@.wf() ==> final(self)@.wf(),
    {
        self.splice_errors_left = SPLICE_TOLERANCE;
    }

    /// Whether the counters can hold a packet.
    pub fn holds_packet(&self, len: u64, dur: u64) -> (b: bool)
        ensures
            b == self@.holds_packet(len as int, dur as int),
    {
        &&& len <= u64::MAX - self.demuxed
        &&& len <= u64::MAX - self.rate_bytes
        &&& self.rate_bytes + len <= u64::MAX / 8
        &&& dur <= u64::MAX - self.rate_frames
        &&& self.rate_frames + dur <= u64::MAX / 1000
    }
}

/// No more marks are passed than there are, and the passed ones are those that
/// lie within what has been played.
pub proof fn lemma_passed(marks: Seq<(int, int)>, played: int)
    ensures
        passed(marks, played) <= marks.len(),
        forall|i: int| 0 <= i < passed(marks, played) ==> (#[trigger] marks[i]).0 <= played,
        passed(marks, played) < marks.len() ==> marks[passed(marks, played) as int].0 > played,
    decreases marks.len(),
{
    if marks.len() > 0 && marks[0].0 <= played {
        let tail = marks.skip(1);
        lemma_passed(tail, played);
        assert forall|i: int| 0 <= i < passed(marks, played) implies (#[trigger] marks[i]).0
            <= played by {
            if i > 0 {
                assert(tail[i - 1] == marks[i]);
            }
        }
    }
}

/// Following what has been played keeps the deck's invariant.
proof fn lemma_advanced<S>(d: DeckView<S>)
    requires
        d.wf(),
    ensures
        d.advanced().wf(),
{
    lemma_passed(d.marks, d.played_frames);
}

impl<S: Copy> Deck<S> {
    /// A packet was pulled, or not. Decode it if it is one of the deck's track.
    ///
    /// A trim splices the byte stream, so the demuxer stumbles over the first
    /// frame or two afterwards. That is our own doing, not a broken stream,
    /// and never surfaces as a fault.
    pub fn on_packet(&mut self, packet: Packet, net: Option<Fault>) -> (next: Pull)
        requires
            old(self)@.wf(),
            packet matches Packet::Read { len, dur, .. } ==> old(self)@.holds_packet(
                len as int,
                dur as int,
            ),
        ensures
            final(self)@.wf(),
            packet_leads_to(old(self)@, packet, net, final(self)@, next),
    {
        match packet {
            Packet::Read { track_id, len, dur } => {
                self.demuxed = self.demuxed + len;
                self.rate_bytes = self.rate_bytes + len;
                self.rate_frames = self.rate_frames + dur;
                if self.rate_frames >= self.rate as u64 * 2 {
                    let rate: u64 = self.rate as u64;
                    let scaled: u64 = self.rate_frames * 1000;
                    proof {
                        assert(scaled / rate >= 1) by (nonlinear_arith)
                            requires
                                scaled >= rate,
                                rate >= 1,
                        ;
                    }
                    let ms: u64 = scaled / rate;
                    self.bitrate_update = Some((self.rate_bytes * 8 / ms) as u32);
                    self.rate_bytes = 0;
                    self.rate_frames = 0;
                }
                assert(self@ == old(self)@.pulled(len as int, dur as int));
                if track_id == self.track_id {
                    Pull::Decode
                } else {
                    Pull::Again
                }
            },
            Packet::Ended => Pull::End(fault::ended(net)),
            Packet::Stumbled(detail) => if self.splice_errors_left > 0 {
                self.splice_errors_left = self.splice_errors_left - 1;
                Pull::Again
            } else {
                Pull::End(unreadable("read: ", detail.as_str(), net))
            },
            Packet::Broken(detail) => Pull::End(unreadable("read: ", detail.as_str(), net)),
        }
    }

    /// A packet was decoded, or not. Its samples are folded to stereo and join
    /// the FIFO; a bad frame is skipped.
    pub fn on_frames(&mut self, frames: Frames<S>, net: Option<Fault>) -> (next: Pull)
        requires
            old(self)@.wf(),
            frames matches Frames::Decoded { samples, channels } ==> old(self)@.decoded_frames
                + frame_count(samples@.len() as int, channels as int) <= u64::MAX,
        ensures
            final(self)@.wf(),
            frames_lead_to(old(self)@, frames, net, final(self)@, next),
    {
        match frames {
            Frames::Decoded { samples, channels } => {
                self.push(samples.as_slice(), channels);
                Pull::Done
            },
            Frames::Bad => Pull::Again,
            Frames::Ended => Pull::End(fault::ended(net)),
            Frames::Broken(detail) => Pull::End(unreadable("decode: ", detail.as_str(), net)),
        }
    }

    /// Interleaved samples join the FIFO, folded to stereo.
    fn push(&mut self, samples: &[S], channels: usize)
        requires
            old(self)@.wf(),
            old(self)@.decoded_frames + frame_count(samples@.len() as int, channels as int)
                <= u64::MAX,
        ensures
            final(self)@.wf(),
            final(self)@ == old(self)@.decoded(
                stereo(
                    samples@,
                    width(channels as int),
                    frame_count(samples@.len() as int, channels as int) as nat,
                ),
                frame_count(samples@.len() as int, channels as int),
            ),
    {
        let ghost before = *self;
        let ch: usize = if channels < 1 {
            1
        } else {
            channels
        };
        let n: usize = samples.len() / ch;
        proof {
            lemma_whole_frames(samples@.len() as int, ch as int, n as int);
        }
        let mut f: usize = 0;
        assert(before.fifo@ + stereo(samples@, ch as int, 0) =~= before.fifo@);
        while f < n
            invariant
                f <= n,
                ch >= 1,
                n * ch <= samples@.len(),
                self.fifo@ == before.fifo@ + stereo(samples@, ch as int, f as nat),
                stereo(samples@, ch as int, f as nat).len() == 2 * f,
                *self == (Deck { fifo: self.fifo, ..before }),
            decreases n - f,
        {
            proof {
                assert((f + 1) * ch <= n * ch) by (nonlinear_arith)
                    requires
                        f + 1 <= n,
                        0 <= ch,
                ;
            }
            let (l, r) = frame(samples, ch, f);
            self.fifo.push_back(l);
            self.fifo.push_back(r);
            proof {
                let head = stereo(samples@, ch as int, f as nat);
                assert(stereo(samples@, ch as int, (f + 1) as nat) == head + seq![l, r]);
                assert(self.fifo@ =~= before.fifo@ + (head + seq![l, r]));
            }
            f += 1;
        }
        self.decoded_frames = self.decoded_frames + n as u64;
        self.marks.push_back((self.decoded_frames, self.demuxed));
        proof {
            assert(self@.marks =~= before@.marks.push(
                (before@.decoded_frames + n, before@.demuxed),
            ));
        }
    }

    /// Move the byte cursor past every packet that has been played in full.
    fn advance_marks(&mut self)
        ensures
            final(self)@ == old(self)@.advanced(),
    {
        let ghost before = *self;
        let ghost mut n: int = 0;
        assert(before@.marks.skip(0) =~= before@.marks);
        while self.marks.len() > 0 && self.marks[0].0 <= self.played_frames
            invariant
                0 <= n <= before@.marks.len(),
                *self == (Deck {
                    marks: self.marks,
                    played_demuxed: self.played_demuxed,
                    ..before
                }),
                self@.marks == before@.marks.skip(n),
                passed(before@.marks, before@.played_frames) == n + passed(
                    self@.marks,
                    before@.played_frames,
                ),
                self@.played_demuxed == (if n == 0 {
                    before@.played_demuxed
                } else {
                    before@.marks[n - 1].1
                }),
            decreases self.marks.len(),
        {
            let ghost held = self@;
            let ghost raw = self.marks@;
            match self.marks.pop_front() {
                Some(m) => {
                    self.played_demuxed = m.1;
                    proof {
                        assert(held.marks[0] == (raw[0].0 as int, raw[0].1 as int));
                        assert(held.marks[0] == before@.marks[n]);
                        assert(self@.marks =~= held.marks.skip(1));
                        assert(self@.marks =~= before@.marks.skip(n + 1));
                        n = n + 1;
                    }
                },
                None => {},
            }
        }
        proof {
            if self.marks@.len() > 0 {
                assert(self@.marks[0] == (self.marks@[0].0 as int, self.marks@[0].1 as int));
            }
        }
    }

    /// Whether more has to be decoded before `frames` can be taken.
    pub fn wants(&self, frames: usize) -> (b: bool)
        requires
            self@.wf(),
        ensures
            b == (self@.available() < frames),
    {
        self.available() < frames
    }

    /// Hand out the next `frames`, stereo interleaved.
    pub fn take(&mut self, frames: usize) -> (out: Vec<S>)
        requires
            old(self)@.wf(),
            frames <= old(self)@.available(),
        ensures
            out@ == old(self)@.fifo.take(2 * frames),
            final(self)@ == old(self)@.left(frames as int),
            final(self)@.wf(),
    {
        let ghost before = *self;
        let mut out: Vec<S> = Vec::new();
        let mut f: usize = 0;
        assert(before.fifo@.skip(0) =~= before.fifo@);
        while f < frames
            invariant
                f <= frames,
                2 * frames <= before.fifo@.len(),
                *self == (Deck { fifo: self.fifo, ..before }),
                self.fifo@ == before.fifo@.skip(2 * f),
                out@ == before.fifo@.take(2 * f),
            decreases frames - f,
        {
            let ghost held = self.fifo@;
            match (self.fifo.pop_front(), self.fifo.pop_front()) {
                (Some(l), Some(r)) => {
                    out.push(l);
                    out.push(r);
                    proof {
                        assert(self.fifo@ =~= before.fifo@.skip(2 * (f + 1)));
                        assert(l == held[0] && r == held[1]);
                        assert(out@ =~= before.fifo@.take(2 * (f + 1)));
                    }
                },
                _ => {},
            }
            f += 1;
        }
        self.played_frames = self.played_frames + frames as u64;
        proof {
            lemma_advanced(self@);
        }
        self.advance_marks();
        out
    }

    /// Throw away the next `frames` unheard, as far as they are decoded.
    /// Returns how many are left to throw away.
    pub fn discard(&mut self, frames: u64) -> (rest: u64)
        requires
            old(self)@.wf(),
        ensures
            final(self)@.wf(),
            ({
                let n = if frames < old(self)@.available() {
                    frames as int
                } else {
                    old(self)@.available()
                };
                &&& rest == frames - n
                &&& final(self)@ == old(self)@.left(n)
            }),
    {
        let ghost before = *self;
        let ready: u64 = self.available() as u64;
        let n: u64 = if frames < ready {
            frames
        } else {
            ready
        };
        let held: usize = self.fifo.len();
        assert(2 * n <= held);
        let kept = self.fifo.split_off(2 * n as usize);
        self.fifo = kept;
        assert(self.fifo@ =~= before.fifo@.skip(2 * n));
        self.played_frames = self.played_frames + n;
        proof {
            lemma_advanced(self@);
        }
        self.advance_marks();
        frames - n
    }

    /// The stereo pairs of decoded frames `[from, to)` in this deck's frame
    /// coordinates, clamped to what the FIFO holds.
    pub fn pairs(&self, from: u64, to: u64) -> (out: Vec<(S, S)>)
        requires
            self@.wf(),
        ensures
            out@ == self@.pairs(from as int, to as int),
    {
        let held: usize = self.fifo.len();
        let head: u64 = self.played_frames;
        let start: u64 = clamped(from, head, self.decoded_frames);
        let end: u64 = clamped(to, start, self.decoded_frames);
        let first: usize = (start - head) as usize;
        let last: usize = (end - head) as usize;
        let mut out: Vec<(S, S)> = Vec::new();
        let mut f: usize = first;
        while f < last
            invariant
                first <= f <= last,
                2 * last <= held,
                held == self.fifo@.len(),
                out@.len() == f - first,
                forall|i: int|
                    0 <= i < out@.len() ==> #[trigger] out@[i] == (
                        self.fifo@[2 * (first + i)],
                        self.fifo@[2 * (first + i) + 1],
                    ),
            decreases last - f,
        {
            out.push((self.fifo[2 * f], self.fifo[2 * f + 1]));
            f += 1;
        }
        assert(out@ =~= self@.pairs(from as int, to as int));
        out
    }
}

/// So many whole frames fit into so many samples.
proof fn lemma_whole_frames(len: int, ch: int, n: int)
    by (nonlinear_arith)
    requires
        ch >= 1,
        len >= 0,
        n == len / ch,
    ensures
        n >= 0,
        n * ch <= len,
{
}

/// `x` within `[lo, hi]`.
fn clamped(x: u64, lo: u64, hi: u64) -> (r: u64)
    requires
        lo <= hi,
    ensures
        r == clamp(x as int, lo as int, hi as int),
{
    if x < lo {
        lo
    } else if x > hi {
        hi
    } else {
        x
    }
}

/// Data that could not be read or decoded.
fn unreadable(what: &str, detail: &str, net: Option<Fault>) -> (end: DeckEnd)
    ensures
        failed(end, net, what@ + detail@),
{
    let mut full = what.to_owned();
    full.append(detail);
    DeckEnd::Failed(fault::decode_fault(net, full.as_str()))
}

// ---------------------------------------------------------------------------
// Laws
// ---------------------------------------------------------------------------

/// Something that happens to a deck.
pub ghost enum Event<S> {
    /// A packet was pulled, of so many bytes and frames.
    Pulled(int, int),
    /// So many frames were decoded.
    Decoded(Seq<S>, int),
    /// So many frames were played or discarded.
    Left(int),
}

/// The deck after an event.
pub open spec fn step<S>(d: DeckView<S>, e: Event<S>) -> DeckView<S> {
    match e {
        Event::Pulled(len, dur) => d.pulled(len, dur),
        Event::Decoded(pairs, n) => d.decoded(pairs, n),
        Event::Left(n) => d.left(n),
    }
}

/// Whether an event can happen to a deck.
pub open spec fn possible<S>(d: DeckView<S>, e: Event<S>) -> bool {
    match e {
        Event::Pulled(len, dur) => 0 <= len && 0 <= dur,
        Event::Decoded(pairs, n) => 0 <= n && pairs.len() == 2 * n,
        Event::Left(n) => 0 <= n <= d.available(),
    }
}

/// The deck after a run of events.
pub open spec fn after<S>(d: DeckView<S>, events: Seq<Event<S>>) -> DeckView<S>
    decreases events.len(),
{
    if events.len() == 0 {
        d
    } else {
        step(after(d, events.drop_last()), events.last())
    }
}

/// Whether a run of events can happen to a deck.
pub open spec fn all_possible<S>(d: DeckView<S>, events: Seq<Event<S>>) -> bool
    decreases events.len(),
{
    events.len() > 0 ==> {
        &&& all_possible(d, events.drop_last())
        &&& possible(after(d, events.drop_last()), events.last())
    }
}

/// All samples decoded in a run of events.
pub open spec fn samples_in<S>(events: Seq<Event<S>>) -> Seq<S>
    decreases events.len(),
{
    if events.len() == 0 {
        Seq::empty()
    } else {
        let before = samples_in(events.drop_last());
        match events.last() {
            Event::Decoded(pairs, _) => before + pairs,
            _ => before,
        }
    }
}

/// All samples that left the FIFO in a run of events.
pub open spec fn samples_out<S>(d: DeckView<S>, events: Seq<Event<S>>) -> Seq<S>
    decreases events.len(),
{
    if events.len() == 0 {
        Seq::empty()
    } else {
        let before = samples_out(d, events.drop_last());
        match events.last() {
            Event::Left(n) => before + after(d, events.drop_last()).fifo.take(2 * n),
            _ => before,
        }
    }
}

/// Whatever happens to a deck, its invariant holds.
pub proof fn law_invariant<S>(d: DeckView<S>, events: Seq<Event<S>>)
    requires
        d.wf(),
        all_possible(d, events),
    ensures
        after(d, events).wf(),
    decreases events.len(),
{
    if events.len() > 0 {
        let rest = events.drop_last();
        law_invariant(d, rest);
        let here = after(d, rest);
        match events.last() {
            Event::Left(n) => {
                lemma_advanced(
                    DeckView {
                        fifo: here.fifo.skip(2 * n),
                        played_frames: here.played_frames + n,
                        ..here
                    },
                );
            },
            _ => {},
        }
    }
}

/// Audio leaves a deck in the order in which it was decoded, and none is lost
/// or repeated: what has left, followed by what is waiting, is what was waiting
/// at first, followed by what was decoded since.
pub proof fn law_audio_stays_in_order<S>(d: DeckView<S>, events: Seq<Event<S>>)
    requires
        d.wf(),
        all_possible(d, events),
    ensures
        samples_out(d, events) + after(d, events).fifo == d.fifo + samples_in(events),
    decreases events.len(),
{
    if events.len() == 0 {
        assert(samples_out(d, events) + d.fifo =~= d.fifo + samples_in(events));
    } else {
        let rest = events.drop_last();
        law_audio_stays_in_order(d, rest);
        law_invariant(d, rest);
        let here = after(d, rest);
        let out = samples_out(d, rest);
        match events.last() {
            Event::Pulled(_, _) => {},
            Event::Decoded(pairs, _) => {
                assert(out + (here.fifo + pairs) =~= (out + here.fifo) + pairs);
                assert((d.fifo + samples_in(rest)) + pairs =~= d.fifo + (samples_in(rest)
                    + pairs));
            },
            Event::Left(n) => {
                assert(here.fifo.take(2 * n) + here.fifo.skip(2 * n) =~= here.fifo);
                assert((out + here.fifo.take(2 * n)) + here.fifo.skip(2 * n) =~= out
                    + here.fifo);
            },
        }
    }
}

/// A deck after `n` stumbles of the demuxer in a row, until one of them is no
/// longer forgiven.
pub open spec fn stumbled<S>(d: DeckView<S>, n: nat) -> Option<DeckView<S>>
    decreases n,
{
    if n == 0 {
        Some(d)
    } else {
        match stumbled(d, (n - 1) as nat) {
            None => None,
            Some(here) => if here.splice_errors_left > 0 {
                Some(DeckView { splice_errors_left: here.splice_errors_left - 1, ..here })
            } else {
                None
            },
        }
    }
}

/// A trim buys a bounded number of stumbles: exactly so many are forgiven, and
/// the next one surfaces as a fault.
pub proof fn law_stumbles_are_bounded<S>(d: DeckView<S>, n: nat)
    requires
        d.splice_errors_left >= 0,
    ensures
        stumbled(d, n) is Some <==> n <= d.splice_errors_left,
        stumbled(d, n) is Some ==> stumbled(d, n)->0 == (DeckView {
            splice_errors_left: d.splice_errors_left - n,
            ..d
        }),
    decreases n,
{
    if n > 0 {
        law_stumbles_are_bounded(d, (n - 1) as nat);
    }
}

/// Once frames have left, no packet is waiting that has been played in full:
/// the byte cursor stands after the last such packet.
pub proof fn law_cursor_follows_playback<S>(d: DeckView<S>, n: int)
    requires
        d.wf(),
        0 <= n <= d.available(),
    ensures
        ({
            let done = d.left(n);
            let k = passed(d.marks, d.played_frames + n) as int;
            &&& forall|i: int|
                0 <= i < done.marks.len() ==> (#[trigger] done.marks[i]).0 > done.played_frames
            &&& k > 0 ==> done.played_demuxed == d.marks[k - 1].1
            &&& k == 0 ==> done.played_demuxed == d.played_demuxed
        }),
{
    let k = passed(d.marks, d.played_frames + n) as int;
    lemma_passed(d.marks, d.played_frames + n);
    let done = d.left(n);
    assert forall|i: int| 0 <= i < done.marks.len() implies (#[trigger] done.marks[i]).0
        > done.played_frames by {
        assert(done.marks[i] == d.marks[k + i]);
        assert(d.marks[k].0 <= d.marks[k + i].0);
    }
}

/// Passing over marks in two goes is passing over them in one.
proof fn lemma_passed_twice(marks: Seq<(int, int)>, first: int, second: int)
    requires
        first <= second,
    ensures
        passed(marks, second) == passed(marks, first) + passed(
            marks.skip(passed(marks, first) as int),
            second,
        ),
        passed(marks, first) <= marks.len(),
    decreases marks.len(),
{
    lemma_passed(marks, first);
    if marks.len() > 0 && marks[0].0 <= first {
        let tail = marks.skip(1);
        lemma_passed_twice(tail, first, second);
        assert(marks.skip(passed(marks, first) as int) =~= tail.skip(passed(tail, first) as int));
    } else {
        assert(marks.skip(0) =~= marks);
    }
}

/// Throwing frames away in two goes is throwing them away in one.
pub proof fn law_discarding_adds_up<S>(d: DeckView<S>, n: int, m: int)
    requires
        d.wf(),
        0 <= n,
        0 <= m,
        n + m <= d.available(),
    ensures
        d.left(n).left(m) == d.left(n + m),
{
    let k = passed(d.marks, d.played_frames + n) as int;
    let once = d.left(n);
    let twice = once.left(m);
    let whole = d.left(n + m);
    lemma_passed_twice(d.marks, d.played_frames + n, d.played_frames + n + m);
    lemma_passed(d.marks, d.played_frames + n + m);
    assert(d.marks.skip(0) =~= d.marks);
    assert(once.marks == d.marks.skip(k));
    let j = passed(once.marks, d.played_frames + n + m) as int;
    if j > 0 {
        assert(once.marks[j - 1] == d.marks[k + j - 1]);
    }
    assert(d.marks.skip(k).skip(j) =~= d.marks.skip(k + j));
    assert(d.marks.skip(k).skip(0) =~= d.marks.skip(k));
    assert(twice.marks == d.marks.skip(k + j));
    assert(d.fifo.skip(2 * n).skip(2 * m) =~= d.fifo.skip(2 * (n + m)));
}

} // verus!
