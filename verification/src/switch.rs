//! The seamless switch from one stream of a station to another.
//!
//! The incoming deck is connected and decoded ahead while the other one is
//! still on air. A search over the audio of both finds the frame of the
//! incoming deck that plays at the same instant as the next frame of the
//! playing one, and the incoming deck is faded in there. Whatever goes wrong
//! on the way, the playing deck keeps playing.
//!
//! The functions here decide each step; connecting, decoding, the search and
//! the mixing are done around them.

use crate::deck;
use crate::deck::{Deck, Frames, Packet, Pull, CHUNK};
use crate::fault;
use crate::fault::Fault;
use vstd::prelude::*;

verus! {

/// Bytes the incoming pipe must hold before the format probe is attempted, so
/// that the probe can never block the playing deck.
pub const PROBE_BYTES: usize = 32_768;

/// A packet is pulled ahead only while its pipe holds at least this much, so
/// that the read completes without waiting for the network.
pub const PULL_MIN_BYTES: usize = 8_192;

/// Decode-ahead budget per step.
pub const PRIME_PULLS: usize = 24;

/// The incoming deck is decoded past what the search needs once its pipe holds
/// this much, so that a long wait never parks the network on a full pipe.
pub const PRIME_DRAIN_ABOVE: usize = 196_608;

/// A weak match usually means that somebody talks on one of the streams only,
/// so the search is repeated this many times before the estimate is accepted.
pub const ALIGN_RETRIES: u32 = 2;

/// Time between two searches.
pub const ALIGN_RETRY_GAP_MS: u64 = 1_500;

/// Give up on a switch whose connection never delivers.
pub const LINK_TIMEOUT_MS: u64 = 15_000;

/// Give up on a switch that never reaches alignment. It is longer than a
/// listener can be behind the live edge: so long the incoming stream may need
/// to reach the audio being heard, and the switch waits that out rather than
/// jump.
pub const PRIME_TIMEOUT_MS: u64 = 20_000;

/// The frames per byte of an ordinary stream: frames, then bytes.
pub const TYPICAL_RATIO: (u64, u64) = (1152, 418);

/// The frames of the playing deck that are looked for: two seconds.
pub open spec fn ref_frames(rate: int) -> int {
    2 * rate
}

/// How far from the estimate the search looks: one second either way.
pub open spec fn window(rate: int) -> int {
    rate
}

/// How far into the incoming audio the estimate must lie before a search: half
/// a second.
pub open spec fn lead(rate: int) -> int {
    rate / 2
}

/// The length of the crossfade: half a second.
pub open spec fn fade_frames(rate: int) -> int {
    rate / 2
}

/// The frames that the incoming deck must have decoded before a search: the
/// whole window around the estimate.
pub open spec fn needed(coarse: int, rate: int) -> int {
    let n = coarse + window(rate) + ref_frames(rate) + CHUNK;
    if n < 0 {
        0
    } else {
        n
    }
}

/// Time passed since `since`.
pub open spec fn elapsed(since: int, now: int) -> int {
    if now < since {
        0
    } else {
        now - since
    }
}

/// One of the two decks of a switch.
#[derive(Debug, Clone, Copy, PartialEq, Eq, Structural)]
pub enum Side {
    Playing,
    Incoming,
}

/// A switch under way.
#[derive(Debug, Clone, Copy, PartialEq, Eq, Structural)]
pub enum Incoming {
    /// Connected; waiting for enough bytes to probe.
    Linking { since: u64 },
    /// Decoding ahead until the audio around the estimate is on hand.
    Priming { since: u64, retries: u32, not_before: u64 },
    /// The search is running.
    Aligning { since: u64, retries: u32 },
    /// Throwing away what lies before the frame to begin with: `rest` frames
    /// more of one deck or the other.
    Positioning { side: Side, rest: u64, fine: bool },
    /// Positioned; crossfading over `total` frames. `fine` tells whether the
    /// search was trusted.
    Fading { done: usize, total: usize, fine: bool },
}

// ---------------------------------------------------------------------------
// Linking
// ---------------------------------------------------------------------------

/// What to do with an incoming connection.
pub enum Linked {
    /// Leave it alone for now.
    Wait,
    /// Probe its format.
    Probe,
    /// Abandon the switch.
    Fail(Fault),
}

/// What to do with an incoming connection that was opened at `since`.
pub open spec fn linked(
    next: Linked,
    since: int,
    net: Option<Fault>,
    buffered: int,
    closed: bool,
    now: int,
) -> bool {
    match net {
        Some(f) => next == Linked::Fail(f),
        None => if buffered >= PROBE_BYTES {
            next == Linked::Probe
        } else if closed {
            next matches Linked::Fail(f) && fault::saying(
                f,
                "dropped"@,
                "Stream ended before it started"@,
            )
        } else if elapsed(since, now) > LINK_TIMEOUT_MS {
            next matches Linked::Fail(f) && fault::saying(
                f,
                "timeout"@,
                "Stream did not answer in time"@,
            )
        } else {
            next == Linked::Wait
        },
    }
}

/// Decide about an incoming connection that was opened at `since`.
pub fn link_step(
    since: u64,
    net: Option<Fault>,
    buffered: usize,
    closed: bool,
    now: u64,
) -> (next: Linked)
    ensures
        linked(next, since as int, net, buffered as int, closed, now as int),
{
    match net {
        Some(f) => Linked::Fail(f),
        None => if buffered >= PROBE_BYTES {
            Linked::Probe
        } else if closed {
            Linked::Fail(
                Fault {
                    code: "dropped",
                    message: "Stream ended before it started".to_owned(),
                },
            )
        } else if now.saturating_sub(since) > LINK_TIMEOUT_MS {
            Linked::Fail(
                Fault { code: "timeout", message: "Stream did not answer in time".to_owned() },
            )
        } else {
            Linked::Wait
        },
    }
}

/// The incoming stream has been opened.
pub fn probed(now: u64) -> (inc: Incoming)
    ensures
        inc == (Incoming::Priming { since: now, retries: 0, not_before: 0 }),
{
    Incoming::Priming { since: now, retries: 0, not_before: 0 }
}

// ---------------------------------------------------------------------------
// Priming
// ---------------------------------------------------------------------------

/// Whether two decks can be blended: only if their sample rates agree.
pub fn blendable<S: Copy>(a: &Deck<S>, b: &Deck<S>) -> (r: bool)
    ensures
        r == (a@.rate == b@.rate),
{
    a.rate() == b.rate()
}

/// The byte of the incoming stream that is being played on the other deck.
/// Both carry the same programme and burst the same trailing window on
/// connect, so their live edges coincide, and how far one is behind the edge
/// translates straight across.
pub fn coarse_target(written: u64, depth: u64) -> (bytes: i64)
    requires
        written <= i64::MAX,
        depth <= i64::MAX,
    ensures
        bytes == written - depth,
{
    written as i64 - depth as i64
}

/// Whether `r` is the frames and the bytes they came from: those of the
/// incoming deck where it has any, or else those of the playing one, or else
/// the typical ones.
pub open spec fn ratio_of<S>(r: (u64, u64), a: deck::DeckView<S>, b: deck::DeckView<S>) -> bool {
    if b.demuxed > 0 {
        r.0 == b.decoded_frames && r.1 == b.demuxed
    } else if a.demuxed > 0 {
        r.0 == a.decoded_frames && r.1 == a.demuxed
    } else {
        r == TYPICAL_RATIO
    }
}

/// The smaller of two numbers.
pub open spec fn least(x: int, y: int) -> int {
    if x < y {
        x
    } else {
        y
    }
}

/// Frames of the stream and the bytes they came from.
pub fn frames_per_byte<S: Copy>(a: &Deck<S>, b: &Deck<S>) -> (r: (u64, u64))
    ensures
        r.1 > 0,
        ratio_of(r, a@, b@),
{
    match b.frames_per_byte() {
        Some(r) => r,
        None => match a.frames_per_byte() {
            Some(r) => r,
            None => TYPICAL_RATIO,
        },
    }
}

/// Whether the frame counts around an estimate can be held.
pub open spec fn estimate_holds(coarse: int, rate: int) -> bool {
    i64::MIN <= coarse - window(rate) && coarse + window(rate) + ref_frames(rate) + CHUNK
        <= i64::MAX
}

/// Whether the frame counts around an estimate can be held.
pub fn holds_estimate(coarse: i64, rate: u32) -> (b: bool)
    ensures
        b == estimate_holds(coarse as int, rate as int),
{
    let wide: i128 = coarse as i128;
    let rate: i128 = rate as i128;
    wide - rate >= i64::MIN as i128 && wide + 3 * rate + CHUNK as i128 <= i64::MAX as i128
}

/// The frames that the incoming deck must have decoded before a search.
pub fn frames_needed(coarse: i64, rate: u32) -> (n: u64)
    requires
        estimate_holds(coarse as int, rate as int),
    ensures
        n == needed(coarse as int, rate as int),
{
    let n: i64 = coarse + 3 * rate as i64 + CHUNK as i64;
    if n < 0 {
        0
    } else {
        n as u64
    }
}

/// Whether to pull another packet of the incoming deck in this step: only
/// while its pipe can satisfy the read without touching the network.
pub fn pulls_incoming<S: Copy>(
    b: &Deck<S>,
    buffered: usize,
    coarse: i64,
    pulls: usize,
) -> (more: bool)
    requires
        b@.wf(),
        estimate_holds(coarse as int, b@.rate),
    ensures
        more == (pulls < PRIME_PULLS && (b@.decoded_frames < needed(coarse as int, b@.rate)
            || buffered >= PRIME_DRAIN_ABOVE) && buffered >= PULL_MIN_BYTES),
{
    let enough: u64 = frames_needed(coarse, b.rate());
    pulls < PRIME_PULLS && (b.decoded_frames() < enough || buffered >= PRIME_DRAIN_ABOVE)
        && buffered >= PULL_MIN_BYTES
}

/// Whether to pull another packet of the playing deck in this step, so that
/// the audio to look for is audio that has not been heard yet.
pub fn pulls_playing<S: Copy>(
    a: &Deck<S>,
    buffered: usize,
    coarse: i64,
    pulls: usize,
) -> (more: bool)
    requires
        a@.wf(),
    ensures
        more == (coarse >= lead(a@.rate) && pulls < PRIME_PULLS && a@.available() < ref_frames(
            a@.rate,
        ) + 2 * CHUNK && buffered >= PULL_MIN_BYTES),
{
    let rate: u64 = a.rate() as u64;
    coarse >= (rate / 2) as i64 && pulls < PRIME_PULLS && (a.available() as u64) < 2 * rate + 2
        * CHUNK as u64 && buffered >= PULL_MIN_BYTES
}

/// What to look for, and where: frames `[anchor, until)` of the playing deck
/// in frames `[lo, hi)` of the incoming one.
#[derive(Debug, Clone, Copy, PartialEq, Eq, Structural)]
pub struct Search {
    pub anchor: u64,
    pub until: u64,
    pub lo: u64,
    pub hi: u64,
    /// The estimate for `anchor`, used when the search is not trusted.
    pub coarse: i64,
}

/// Whether all the audio that a search needs is on hand.
pub open spec fn ready<S>(a: deck::DeckView<S>, b: deck::DeckView<S>, coarse: int) -> bool {
    &&& coarse >= lead(a.rate)
    &&& a.available() >= ref_frames(a.rate) + CHUNK
    &&& b.decoded_frames >= needed(coarse, a.rate)
}

/// The search around an estimate.
pub open spec fn search_at<S>(
    s: Search,
    a: deck::DeckView<S>,
    b: deck::DeckView<S>,
    coarse: int,
) -> bool {
    &&& s.anchor == a.played_frames
    &&& s.until == a.played_frames + ref_frames(a.rate)
    &&& s.lo == (if coarse - window(a.rate) < b.played_frames {
        b.played_frames
    } else {
        coarse - window(a.rate)
    })
    &&& s.hi == (if coarse + window(a.rate) + ref_frames(a.rate) < s.lo {
        s.lo as int
    } else {
        coarse + window(a.rate) + ref_frames(a.rate)
    })
    &&& s.coarse == coarse
}

/// Whether priming has taken too long.
pub open spec fn late(since: int, now: int) -> bool {
    elapsed(since, now) > PRIME_TIMEOUT_MS
}

/// How long to go on priming.
#[derive(Debug, Clone, Copy, PartialEq, Eq, Structural)]
pub enum Outlook {
    /// Search now.
    Search(Search),
    /// Wait for more audio, or for a pause between two searches to be over.
    Wait,
    /// It has taken too long.
    GiveUp,
}

/// Decide whether to search now: once the audio is on hand and any pause
/// between two searches is over. When it has taken too long no pause is kept,
/// and audio that is still missing is not waited for.
pub fn prime_step<S: Copy>(
    since: u64,
    not_before: u64,
    a: &Deck<S>,
    b: &Deck<S>,
    coarse: i64,
    now: u64,
) -> (outlook: Outlook)
    requires
        a@.wf(),
        b@.wf(),
        estimate_holds(coarse as int, a@.rate),
        a@.played_frames + ref_frames(a@.rate) <= u64::MAX,
        b@.played_frames <= i64::MAX,
    ensures
        if ready(a@, b@, coarse as int) && (now >= not_before || late(since as int, now as int)) {
            outlook matches Outlook::Search(s) && search_at(s, a@, b@, coarse as int)
        } else if late(since as int, now as int) {
            outlook == Outlook::GiveUp
        } else {
            outlook == Outlook::Wait
        },
{
    let rate: u64 = a.rate() as u64;
    let half: i64 = (rate / 2) as i64;
    let span: i64 = rate as i64;
    let enough: u64 = frames_needed(coarse, a.rate());
    let on_hand = coarse >= half && a.available() as u64 >= 2 * rate + CHUNK as u64
        && b.decoded_frames() >= enough;
    let timed_out = now.saturating_sub(since) > PRIME_TIMEOUT_MS;
    if on_hand && (now >= not_before || timed_out) {
        let anchor: u64 = a.played_frames();
        let first: i64 = b.played_frames() as i64;
        let lo: i64 = if coarse - span < first {
            first
        } else {
            coarse - span
        };
        let hi: i64 = if coarse + 3 * span < lo {
            lo
        } else {
            coarse + 3 * span
        };
        Outlook::Search(
            Search { anchor, until: anchor + 2 * rate, lo: lo as u64, hi: hi as u64, coarse },
        )
    } else if timed_out {
        Outlook::GiveUp
    } else {
        Outlook::Wait
    }
}

// ---------------------------------------------------------------------------
// Aligning
// ---------------------------------------------------------------------------

/// Where the two streams coincide: frame `at` of the incoming deck plays at
/// the same instant as frame `anchor` of the playing one.
#[derive(Debug, Clone, Copy, PartialEq, Eq, Structural)]
pub struct Alignment {
    pub at: i64,
    pub anchor: u64,
    /// Whether the search was trusted, or `at` is the estimate.
    pub fine: bool,
}

/// The alignment that a search gives. `found` is how far into the searched
/// audio the match begins, if it was good enough to be trusted.
pub fn resolve_alignment(s: Search, found: Option<usize>) -> (al: Alignment)
    requires
        s.lo <= i64::MAX,
        found matches Some(idx) ==> s.lo + idx <= i64::MAX,
    ensures
        al.anchor == s.anchor,
        al.fine == (found is Some),
        al.at == (match found {
            Some(idx) => s.lo + idx,
            None => if s.coarse < s.lo {
                s.lo as int
            } else {
                s.coarse as int
            },
        }),
{
    match found {
        Some(idx) => Alignment { at: s.lo as i64 + idx as i64, anchor: s.anchor, fine: true },
        None => Alignment {
            at: if s.coarse < s.lo as i64 {
                s.lo as i64
            } else {
                s.coarse
            },
            anchor: s.anchor,
            fine: false,
        },
    }
}

/// What has been heard of the search.
#[derive(Debug, Clone, Copy, PartialEq, Eq, Structural)]
pub enum Heard {
    /// It is still running.
    Pending,
    /// It will never answer.
    Lost,
    /// It has answered.
    Found(Alignment),
}

/// How to go on from the search.
pub enum Aligned {
    /// Leave it alone for now.
    Wait,
    /// Search again later, with fresher audio.
    Retry(Incoming),
    /// Throw away so many frames of the incoming deck, then fade it in.
    SkipIncoming(u64),
    /// Throw away so many frames of the playing deck, then fade the other in:
    /// the matching audio predates what the incoming deck holds.
    SkipPlaying(u64),
    /// Abandon the switch.
    Fail(Fault),
}

/// How far the incoming deck has to move so that its next frame is the one
/// that plays at the same instant as the playing deck's next frame. The
/// playing deck has moved on since the search began; the offset between the
/// two carries across unchanged.
pub open spec fn shift(al: Alignment, a_played: int, b_played: int) -> int {
    a_played + (al.at - al.anchor) - b_played
}

/// Whether a weak match is tried again.
pub open spec fn retried(al: Alignment, since: int, retries: int, now: int) -> bool {
    !al.fine && retries < ALIGN_RETRIES && !late(since, now)
}

/// Whether the frame counts of an alignment can be held.
pub open spec fn alignment_holds(al: Alignment, a_played: int, b_played: int) -> bool {
    &&& al.anchor <= i64::MAX
    &&& a_played <= i64::MAX
    &&& b_played <= i64::MAX
    &&& i64::MIN <= al.at - al.anchor
    &&& i64::MIN <= a_played + (al.at - al.anchor) <= i64::MAX
    &&& -i64::MAX <= shift(al, a_played, b_played) <= i64::MAX
}

/// Whether the frame counts of an alignment can be held.
pub fn holds_alignment(al: Alignment, a_played: u64, b_played: u64) -> (b: bool)
    ensures
        b == alignment_holds(al, a_played as int, b_played as int),
{
    let delta: i128 = al.at as i128 - al.anchor as i128;
    let target: i128 = a_played as i128 + delta;
    let by: i128 = target - b_played as i128;
    let min: i128 = i64::MIN as i128;
    let max: i128 = i64::MAX as i128;
    al.anchor <= i64::MAX as u64 && a_played <= i64::MAX as u64 && b_played <= i64::MAX as u64
        && min <= delta && min <= target && target <= max && -max <= by && by <= max
}

/// Decide how to go on from the search.
pub fn align_step(
    since: u64,
    retries: u32,
    heard: Heard,
    a_played: u64,
    b_played: u64,
    now: u64,
) -> (next: Aligned)
    requires
        heard matches Heard::Found(al) ==> {
            &&& retried(al, since as int, retries as int, now as int) ==> now + ALIGN_RETRY_GAP_MS
                <= u64::MAX
            &&& !retried(al, since as int, retries as int, now as int) ==> alignment_holds(
                al,
                a_played as int,
                b_played as int,
            )
        },
    ensures
        match heard {
            Heard::Pending => next == Aligned::Wait,
            Heard::Lost => next matches Aligned::Fail(f) && fault::saying(
                f,
                "decode"@,
                "Alignment failed"@,
            ),
            Heard::Found(al) => if retried(al, since as int, retries as int, now as int) {
                next == Aligned::Retry(
                    Incoming::Priming {
                        since,
                        retries: (retries + 1) as u32,
                        not_before: (now + ALIGN_RETRY_GAP_MS) as u64,
                    },
                )
            } else {
                let by = shift(al, a_played as int, b_played as int);
                if by >= 0 {
                    next == Aligned::SkipIncoming(by as u64)
                } else {
                    next == Aligned::SkipPlaying((-by) as u64)
                }
            },
        },
{
    match heard {
        Heard::Pending => Aligned::Wait,
        Heard::Lost => Aligned::Fail(
            Fault { code: "decode", message: "Alignment failed".to_owned() },
        ),
        Heard::Found(al) => {
            if !al.fine && retries < ALIGN_RETRIES && now.saturating_sub(since)
                <= PRIME_TIMEOUT_MS {
                Aligned::Retry(
                    Incoming::Priming {
                        since,
                        retries: retries + 1,
                        not_before: now + ALIGN_RETRY_GAP_MS,
                    },
                )
            } else {
                let delta: i64 = al.at - al.anchor as i64;
                let target: i64 = a_played as i64 + delta;
                let first: i64 = b_played as i64;
                if target >= first {
                    Aligned::SkipIncoming((target - first) as u64)
                } else {
                    Aligned::SkipPlaying((first - target) as u64)
                }
            }
        },
    }
}

/// The decks have been positioned.
pub fn positioned(rate: u32, fine: bool) -> (inc: Incoming)
    ensures
        inc == (Incoming::Fading { done: 0, total: fade_frames(rate as int) as usize, fine }),
{
    Incoming::Fading { done: 0, total: (rate / 2) as usize, fine }
}

// ---------------------------------------------------------------------------
// Fading
// ---------------------------------------------------------------------------

/// The share of the incoming deck in frame `i` after `done` frames of a fade:
/// a numerator and a denominator.
pub open spec fn share(done: int, i: int, total: int) -> (int, int) {
    if done + i >= total {
        (1, 1)
    } else {
        (done + i, total)
    }
}

/// The share of the incoming deck in frame `i` of a chunk. The fade is linear,
/// because the two streams are the same programme: a constant-power curve
/// would bump the level in the middle.
pub fn fade_share(done: usize, i: usize, total: usize) -> (r: (usize, usize))
    requires
        done + i <= usize::MAX,
    ensures
        (r.0 as int, r.1 as int) == share(done as int, i as int, total as int),
        r.1 > 0,
        r.0 <= r.1,
{
    if done + i >= total {
        (1, 1)
    } else {
        (done + i, total)
    }
}

/// So many frames more have been mixed. Nothing is returned once the fade is
/// complete.
pub fn fade_step(done: usize, total: usize, fine: bool, frames: usize) -> (next: Option<Incoming>)
    requires
        done + frames <= usize::MAX,
    ensures
        next == (if done + frames >= total {
            None
        } else {
            Some(Incoming::Fading { done: (done + frames) as usize, total, fine })
        }),
{
    if done + frames >= total {
        None
    } else {
        Some(Incoming::Fading { done: done + frames, total, fine })
    }
}

// ---------------------------------------------------------------------------
// The whole switch
// ---------------------------------------------------------------------------

/// How far the decoding ahead has come in one round of priming.
#[derive(Debug, Clone, Copy, PartialEq, Eq, Structural)]
pub enum Stage {
    /// So many packets of the incoming deck were pulled.
    Incoming(usize),
    /// So many packets of the playing deck were pulled, after those.
    Playing(usize),
    /// Nothing more is decoded in this round.
    Over,
}

/// What a round of priming asks for.
#[derive(Debug, Clone, Copy, PartialEq, Eq, Structural)]
pub enum Primed {
    /// Pull a packet of one of the decks, then ask again.
    Pull(Side),
    /// Search, off the audio thread.
    Search(Search),
    /// Leave it alone until the next round.
    Wait,
    /// The sample rates differ: reconnect the hard way.
    Retune,
    /// The audio to search was not on hand in time: abandon the switch.
    GiveUp,
}

/// What the answer of a search leads to.
pub enum Heeded {
    /// Leave it alone until the next round.
    Wait,
    /// Position the decks.
    Position,
    /// Abandon the switch.
    Fail(Fault),
}

/// A chunk of the incoming deck to be mixed in.
pub struct Faded<S> {
    pub samples: Vec<S>,
    /// Frames of the fade before this chunk, and in all.
    pub done: usize,
    pub total: usize,
    /// Whether the fade is complete with this chunk.
    pub complete: bool,
}

/// A switch under way, with the incoming deck once its stream is open.
pub struct Switch<S> {
    url: String,
    inc: Incoming,
    coarse: i64,
    stage: Stage,
    deck: Option<Deck<S>>,
}

/// What a [`Switch`] knows.
pub ghost struct SwitchView<S> {
    pub url: Seq<char>,
    pub inc: Incoming,
    pub coarse: int,
    pub stage: Stage,
    pub deck: Option<deck::DeckView<S>>,
}

impl<S> View for Switch<S> {
    type V = SwitchView<S>;

    closed spec fn view(&self) -> SwitchView<S> {
        SwitchView {
            url: self.url@,
            inc: self.inc,
            coarse: self.coarse as int,
            stage: self.stage,
            deck: match self.deck {
                Some(d) => Some(d@),
                None => None,
            },
        }
    }
}

impl<S> SwitchView<S> {
    /// A switch to the stream at `url`, whose connection was opened at `now`.
    pub open spec fn fresh(url: Seq<char>, now: u64) -> SwitchView<S> {
        SwitchView {
            url,
            inc: Incoming::Linking { since: now },
            coarse: 0,
            stage: Stage::Over,
            deck: None,
        }
    }

    /// The incoming deck is there from priming on.
    pub open spec fn wf(self) -> bool {
        &&& self.deck is Some <==> !(self.inc is Linking)
        &&& self.deck is Some ==> self.deck->0.wf()
        &&& self.inc matches Incoming::Priming { retries, .. } ==> retries <= ALIGN_RETRIES
        &&& self.inc matches Incoming::Aligning { retries, .. } ==> retries <= ALIGN_RETRIES
    }

    /// Whether another packet of the incoming deck is to be pulled.
    pub open spec fn wants_incoming(self, held: int) -> bool {
        self.stage matches Stage::Incoming(n) && n < PRIME_PULLS && (
        self.deck->0.decoded_frames < needed(self.coarse, self.deck->0.rate) || held
            >= PRIME_DRAIN_ABOVE) && held >= PULL_MIN_BYTES
    }

    /// The packets of the playing deck that were pulled in this round.
    pub open spec fn playing_pulls(self) -> int {
        match self.stage {
            Stage::Playing(n) => n as int,
            _ => 0,
        }
    }

    /// Whether another packet of the playing deck is to be pulled.
    pub open spec fn wants_playing(self, a: deck::DeckView<S>, held: int) -> bool {
        !(self.stage is Over) && self.coarse >= lead(a.rate) && self.playing_pulls() < PRIME_PULLS
            && a.available() < ref_frames(a.rate) + 2 * CHUNK && held >= PULL_MIN_BYTES
    }

    /// Whether to search, with the decoding ahead over.
    pub open spec fn searches(self, a: deck::DeckView<S>, now: int) -> bool {
        self.inc matches Incoming::Priming { since, not_before, .. } && ready(
            a,
            self.deck->0,
            self.coarse,
        ) && (now >= not_before || late(since as int, now))
    }

    /// Whether to give up, with the decoding ahead over and nothing to search.
    pub open spec fn gives_up(self, now: int) -> bool {
        self.inc matches Incoming::Priming { since, .. } && late(since as int, now)
    }

    /// Whether the frame counts of a round of priming can be held.
    pub open spec fn holds_round(self, a: deck::DeckView<S>) -> bool {
        a.rate == self.deck->0.rate ==> {
            &&& estimate_holds(self.coarse, a.rate)
            &&& a.played_frames + ref_frames(a.rate) <= u64::MAX
            &&& self.deck->0.played_frames <= i64::MAX
        }
    }

    /// Going on with a round of priming makes `after` of the switch, and asks
    /// for `next`.
    pub open spec fn primes(
        self,
        a: deck::DeckView<S>,
        held_incoming: int,
        held_playing: int,
        now: int,
        after: SwitchView<S>,
        next: Primed,
    ) -> bool {
        if a.rate != self.deck->0.rate {
            next == Primed::Retune && after == self
        } else if self.wants_incoming(held_incoming) {
            &&& next == Primed::Pull(Side::Incoming)
            &&& after == (SwitchView {
                stage: Stage::Incoming((self.stage->Incoming_0 + 1) as usize),
                ..self
            })
        } else if self.wants_playing(a, held_playing) {
            &&& next == Primed::Pull(Side::Playing)
            &&& after == (SwitchView {
                stage: Stage::Playing((self.playing_pulls() + 1) as usize),
                ..self
            })
        } else if self.searches(a, now) {
            &&& next matches Primed::Search(search) && search_at(
                search,
                a,
                self.deck->0,
                self.coarse,
            )
            &&& after == (SwitchView {
                stage: Stage::Over,
                inc: Incoming::Aligning {
                    since: self.inc->Priming_since,
                    retries: self.inc->Priming_retries,
                },
                ..self
            })
        } else {
            &&& next == (if self.gives_up(now) {
                Primed::GiveUp
            } else {
                Primed::Wait
            })
            &&& after == (SwitchView { stage: Stage::Over, ..self })
        }
    }

    /// Whether an answer of the search is to be tried again.
    pub open spec fn retries(self, al: Alignment, now: int) -> bool {
        retried(al, self.inc->Aligning_since as int, self.inc->Aligning_retries as int, now)
    }

    /// Whether the counts that an answer of the search brings can be held.
    pub open spec fn holds_heard(self, heard: Heard, a: deck::DeckView<S>, now: int) -> bool {
        heard matches Heard::Found(al) ==> {
            &&& self.retries(al, now) ==> now + ALIGN_RETRY_GAP_MS <= u64::MAX
            &&& !self.retries(al, now) ==> alignment_holds(
                al,
                a.played_frames,
                self.deck->0.played_frames,
            )
        }
    }

    /// What has been heard of the search makes `after` of the switch, and
    /// leads to `next`.
    pub open spec fn heeds(
        self,
        heard: Heard,
        a: deck::DeckView<S>,
        now: int,
        after: SwitchView<S>,
        next: Heeded,
    ) -> bool {
        match heard {
            Heard::Pending => next == Heeded::Wait && after == self,
            Heard::Lost => {
                &&& next matches Heeded::Fail(f) && fault::saying(
                    f,
                    "decode"@,
                    "Alignment failed"@,
                )
                &&& after == self
            },
            Heard::Found(al) => if self.retries(al, now) {
                &&& next == Heeded::Wait
                &&& after == (SwitchView {
                    inc: Incoming::Priming {
                        since: self.inc->Aligning_since,
                        retries: (self.inc->Aligning_retries + 1) as u32,
                        not_before: (now + ALIGN_RETRY_GAP_MS) as u64,
                    },
                    ..self
                })
            } else {
                let by = shift(al, a.played_frames, self.deck->0.played_frames);
                &&& next == Heeded::Position
                &&& after == (SwitchView {
                    inc: Incoming::Positioning {
                        side: if by >= 0 {
                            Side::Incoming
                        } else {
                            Side::Playing
                        },
                        rest: (if by >= 0 {
                            by
                        } else {
                            -by
                        }) as u64,
                        fine: al.fine,
                    },
                    ..self
                })
            },
        }
    }

    /// The fade begins.
    pub open spec fn positioned(self, rate: int) -> SwitchView<S> {
        SwitchView {
            inc: Incoming::Fading {
                done: 0,
                total: fade_frames(rate) as usize,
                fine: self.inc->Positioning_fine,
            },
            ..self
        }
    }

    /// Positioning throws away the frames to be skipped: it makes `after` of
    /// the switch and `a_after` of the playing deck. The incoming deck loses
    /// them as they are decoded. The playing deck, which plays on should the
    /// switch fail, loses nothing before all of them are on hand.
    pub open spec fn positions(
        self,
        a: deck::DeckView<S>,
        after: SwitchView<S>,
        a_after: deck::DeckView<S>,
        more: Option<Side>,
    ) -> bool {
        let rest = self.inc->rest as int;
        match self.inc->side {
            Side::Playing => if a.available() < rest {
                more == Some(Side::Playing) && a_after == a && after == self
            } else {
                more is None && a_after == a.left(rest) && after == self.positioned(a.rate)
            },
            Side::Incoming => {
                let b = self.deck->0;
                let n = least(rest, b.available());
                let skipped = SwitchView { deck: Some(b.left(n)), ..self };
                &&& a_after == a
                &&& if rest > n {
                    &&& more == Some(Side::Incoming)
                    &&& after == (SwitchView {
                        inc: Incoming::Positioning {
                            side: Side::Incoming,
                            rest: (rest - n) as u64,
                            fine: self.inc->Positioning_fine,
                        },
                        ..skipped
                    })
                } else {
                    more is None && after == skipped.positioned(a.rate)
                }
            },
        }
    }

    /// Fading takes a chunk of the incoming deck, where one is decoded.
    pub open spec fn fades(
        self,
        frames: int,
        after: SwitchView<S>,
        chunk: Option<Faded<S>>,
    ) -> bool {
        let b = self.deck->0;
        let done = self.inc->done;
        let total = self.inc->total;
        match chunk {
            Some(c) => {
                &&& b.available() >= frames
                &&& c.samples@ == b.fifo.take(2 * frames)
                &&& c.done == done
                &&& c.total == total
                &&& c.complete == (done + frames >= total)
                &&& after == (SwitchView {
                    inc: Incoming::Fading {
                        done: (done + frames) as usize,
                        total,
                        fine: self.inc->Fading_fine,
                    },
                    deck: Some(b.left(frames)),
                    ..self
                })
            },
            None => b.available() < frames && after == self,
        }
    }
}

impl<S: Copy> Switch<S> {
    /// A switch to the stream at `url`, whose connection has been opened.
    pub fn new(url: String, now: u64) -> (s: Switch<S>)
        ensures
            s@ == SwitchView::<S>::fresh(url@, now),
            s@.wf(),
    {
        Switch {
            url,
            inc: Incoming::Linking { since: now },
            coarse: 0,
            stage: Stage::Over,
            deck: None,
        }
    }

    pub fn url(&self) -> (u: &str)
        ensures
            u@ == self@.url,
    {
        self.url.as_str()
    }

    /// How far the switch has come.
    pub fn phase(&self) -> (inc: Incoming)
        ensures
            inc == self@.inc,
    {
        self.inc
    }

    /// The incoming deck, once its stream is open.
    pub fn deck(&self) -> (d: Option<&Deck<S>>)
        ensures
            match d {
                Some(b) => self@.deck == Some(b@),
                None => self@.deck is None,
            },
    {
        self.deck.as_ref()
    }

    /// How the connection stands.
    pub fn on_link(&self, net: Option<Fault>, buffered: usize, closed: bool, now: u64) -> (
        next: Linked)
        requires
            self@.inc is Linking,
        ensures
            linked(next, self@.inc->Linking_since as int, net, buffered as int, closed, now as int),
    {
        let since: u64 = match self.inc {
            Incoming::Linking { since } => since,
            _ => now,
        };
        link_step(since, net, buffered, closed, now)
    }

    /// The stream has been opened.
    pub fn on_opened(&mut self, track_id: u32, rate: Option<u32>, now: u64)
        requires
            old(self)@.wf(),
            old(self)@.inc is Linking,
        ensures
            final(self)@ == (SwitchView {
                inc: Incoming::Priming { since: now, retries: 0, not_before: 0 },
                stage: Stage::Over,
                deck: Some(
                    deck::DeckView::<S>::fresh(track_id as int, deck::told_rate(rate)),
                ),
                ..old(self)@
            }),
            final(self)@.wf(),
    {
        self.inc = probed(now);
        self.stage = Stage::Over;
        self.deck = Some(Deck::new(track_id, rate));
    }

    /// What the estimate is computed from: the byte of the incoming stream
    /// that is being played, and frames with the bytes they came from.
    pub fn estimate(&self, a: &Deck<S>, written: u64, depth: u64) -> (e: (i64, (u64, u64)))
        requires
            self@.wf(),
            self@.deck is Some,
            written <= i64::MAX,
            depth <= i64::MAX,
        ensures
            e.0 == written - depth,
            ratio_of(e.1, a@, self@.deck->0),
            e.1.1 > 0,
    {
        let target: i64 = coarse_target(written, depth);
        match &self.deck {
            Some(b) => (target, frames_per_byte(a, b)),
            None => (target, TYPICAL_RATIO),
        }
    }

    /// A round of priming begins, around an estimate.
    pub fn begin_round(&mut self, coarse: i64)
        requires
            old(self)@.wf(),
        ensures
            final(self)@ == (SwitchView {
                coarse: coarse as int,
                stage: Stage::Incoming(0),
                ..old(self)@
            }),
            final(self)@.wf(),
    {
        self.coarse = coarse;
        self.stage = Stage::Incoming(0);
    }

    /// Whether the frame counts of a round of priming can be held.
    pub fn holds_round(&self, a: &Deck<S>) -> (b: bool)
        requires
            self@.wf(),
            self@.deck is Some,
            a@.wf(),
        ensures
            b == self@.holds_round(a@),
    {
        match &self.deck {
            Some(d) => a.rate() != d.rate() || (holds_estimate(self.coarse, a.rate())
                && a.played_frames() <= u64::MAX - 2 * a.rate() as u64 && d.played_frames()
                <= i64::MAX as u64),
            None => true,
        }
    }

    /// Whether the counts that an answer of the search brings can be held.
    pub fn holds_heard(&self, heard: Heard, a: &Deck<S>, now: u64) -> (b: bool)
        requires
            self@.wf(),
            self@.inc is Aligning,
        ensures
            b == self@.holds_heard(heard, a@, now as int),
    {
        let (since, retries): (u64, u32) = match self.inc {
            Incoming::Aligning { since, retries } => (since, retries),
            _ => (now, 0),
        };
        match (heard, &self.deck) {
            (Heard::Found(al), Some(d)) => {
                if !al.fine && retries < ALIGN_RETRIES && now.saturating_sub(since)
                    <= PRIME_TIMEOUT_MS {
                    now <= u64::MAX - ALIGN_RETRY_GAP_MS
                } else {
                    holds_alignment(al, a.played_frames(), d.played_frames())
                }
            },
            _ => true,
        }
    }

    /// Go on with a round of priming: `held_incoming` and `held_playing` bytes
    /// are waiting in the two pipes.
    pub fn prime(
        &mut self,
        a: &Deck<S>,
        held_incoming: usize,
        held_playing: usize,
        now: u64,
    ) -> (next: Primed)
        requires
            old(self)@.wf(),
            old(self)@.inc is Priming,
            a@.wf(),
            old(self)@.holds_round(a@),
        ensures
            final(self)@.wf(),
            old(self)@.primes(
                a@,
                held_incoming as int,
                held_playing as int,
                now as int,
                final(self)@,
                next,
            ),
    {
        let b: &Deck<S> = match &self.deck {
            Some(b) => b,
            None => {
                return Primed::Wait;
            },
        };
        if !blendable(a, b) {
            return Primed::Retune;
        }
        if let Stage::Incoming(n) = self.stage {
            if pulls_incoming(b, held_incoming, self.coarse, n) {
                self.stage = Stage::Incoming(n + 1);
                return Primed::Pull(Side::Incoming);
            }
        }
        let pulls: Option<usize> = match self.stage {
            Stage::Incoming(_) => Some(0),
            Stage::Playing(n) => Some(n),
            Stage::Over => None,
        };
        if let Some(n) = pulls {
            if pulls_playing(a, held_playing, self.coarse, n) {
                self.stage = Stage::Playing(n + 1);
                return Primed::Pull(Side::Playing);
            }
        }
        self.stage = Stage::Over;
        if let Incoming::Priming { since, retries, not_before } = self.inc {
            return match prime_step(since, not_before, a, b, self.coarse, now) {
                Outlook::Search(search) => {
                    self.inc = Incoming::Aligning { since, retries };
                    Primed::Search(search)
                },
                Outlook::Wait => Primed::Wait,
                Outlook::GiveUp => Primed::GiveUp,
            };
        }
        Primed::Wait
    }

    /// The playing deck came to its end while it was decoded ahead. That is
    /// dealt with when its audio is used up; here it ends the decoding ahead.
    pub fn on_playing_ended(&mut self)
        requires
            old(self)@.wf(),
        ensures
            final(self)@ == (SwitchView { stage: Stage::Over, ..old(self)@ }),
            final(self)@.wf(),
    {
        self.stage = Stage::Over;
    }

    /// A packet of the incoming deck was pulled, or not.
    pub fn on_packet(&mut self, packet: Packet, net: Option<Fault>) -> (next: Pull)
        requires
            old(self)@.wf(),
            old(self)@.deck is Some,
            packet matches Packet::Read { len, dur, .. } ==> old(self)@.deck->0.holds_packet(
                len as int,
                dur as int,
            ),
        ensures
            final(self)@.wf(),
            final(self)@.deck is Some,
            final(self)@ == (SwitchView { deck: final(self)@.deck, ..old(self)@ }),
            deck::packet_leads_to(old(self)@.deck->0, packet, net, final(self)@.deck->0, next),
    {
        let mut held: Option<Deck<S>> = None;
        core::mem::swap(&mut held, &mut self.deck);
        match held {
            Some(mut b) => {
                let next = b.on_packet(packet, net);
                self.deck = Some(b);
                next
            },
            None => Pull::Again,
        }
    }

    /// A packet of the incoming deck was decoded, or not.
    pub fn on_frames(&mut self, frames: Frames<S>, net: Option<Fault>) -> (next: Pull)
        requires
            old(self)@.wf(),
            old(self)@.deck is Some,
            frames matches Frames::Decoded { samples, channels } ==> old(
                self,
            )@.deck->0.decoded_frames + deck::frame_count(samples@.len() as int, channels as int)
                <= u64::MAX,
        ensures
            final(self)@.wf(),
            final(self)@.deck is Some,
            final(self)@ == (SwitchView { deck: final(self)@.deck, ..old(self)@ }),
            deck::frames_lead_to(old(self)@.deck->0, frames, net, final(self)@.deck->0, next),
    {
        let mut held: Option<Deck<S>> = None;
        core::mem::swap(&mut held, &mut self.deck);
        match held {
            Some(mut b) => {
                let next = b.on_frames(frames, net);
                self.deck = Some(b);
                next
            },
            None => Pull::Again,
        }
    }

    /// The search has answered, or not yet.
    pub fn on_heard(&mut self, heard: Heard, a: &Deck<S>, now: u64) -> (next: Heeded)
        requires
            old(self)@.wf(),
            old(self)@.inc is Aligning,
            old(self)@.holds_heard(heard, a@, now as int),
        ensures
            final(self)@.wf(),
            old(self)@.heeds(heard, a@, now as int, final(self)@, next),
    {
        let (since, retries): (u64, u32) = match self.inc {
            Incoming::Aligning { since, retries } => (since, retries),
            _ => (now, 0),
        };
        let b_played: u64 = match &self.deck {
            Some(b) => b.played_frames(),
            None => 0,
        };
        let fine = match heard {
            Heard::Found(al) => al.fine,
            _ => false,
        };
        match align_step(since, retries, heard, a.played_frames(), b_played, now) {
            Aligned::Wait => Heeded::Wait,
            Aligned::Retry(inc) => {
                self.inc = inc;
                Heeded::Wait
            },
            Aligned::SkipIncoming(rest) => {
                self.inc = Incoming::Positioning { side: Side::Incoming, rest, fine };
                Heeded::Position
            },
            Aligned::SkipPlaying(rest) => {
                self.inc = Incoming::Positioning { side: Side::Playing, rest, fine };
                Heeded::Position
            },
            Aligned::Fail(f) => Heeded::Fail(f),
        }
    }

    /// Throw away the frames to be skipped. Names the deck that has to be
    /// decoded further, if any; otherwise the fade begins.
    pub fn position(&mut self, a: &mut Deck<S>) -> (more: Option<Side>)
        requires
            old(self)@.wf(),
            old(self)@.inc is Positioning,
            old(a)@.wf(),
        ensures
            final(self)@.wf(),
            final(a)@.wf(),
            old(self)@.positions(old(a)@, final(self)@, final(a)@, more),
    {
        let (side, rest, fine): (Side, u64, bool) = match self.inc {
            Incoming::Positioning { side, rest, fine } => (side, rest, fine),
            _ => (Side::Incoming, 0, false),
        };
        let left: u64 = match side {
            Side::Playing => if (a.available() as u64) < rest {
                rest
            } else {
                a.discard(rest)
            },
            Side::Incoming => {
                let mut held: Option<Deck<S>> = None;
                core::mem::swap(&mut held, &mut self.deck);
                match held {
                    Some(mut b) => {
                        let left: u64 = b.discard(rest);
                        self.deck = Some(b);
                        left
                    },
                    None => 0,
                }
            },
        };
        if left > 0 {
            self.inc = Incoming::Positioning { side, rest: left, fine };
            Some(side)
        } else {
            self.inc = positioned(a.rate(), fine);
            None
        }
    }

    /// The next chunk of the incoming deck, to be mixed in, or nothing while
    /// it has to be decoded further.
    pub fn fade(&mut self, frames: usize) -> (chunk: Option<Faded<S>>)
        requires
            old(self)@.wf(),
            old(self)@.inc is Fading,
            old(self)@.inc->done + frames <= usize::MAX,
        ensures
            final(self)@.wf(),
            old(self)@.fades(frames as int, final(self)@, chunk),
    {
        let (done, total, fine): (usize, usize, bool) = match self.inc {
            Incoming::Fading { done, total, fine } => (done, total, fine),
            _ => (0, 0, false),
        };
        let mut held: Option<Deck<S>> = None;
        core::mem::swap(&mut held, &mut self.deck);
        match held {
            Some(mut b) => {
                if b.wants(frames) {
                    self.deck = Some(b);
                    return None;
                }
                let samples = b.take(frames);
                self.deck = Some(b);
                self.inc = Incoming::Fading { done: done + frames, total, fine };
                let complete = fade_step(done, total, fine, frames).is_none();
                Some(Faded { samples, done, total, complete })
            },
            None => None,
        }
    }

    /// The incoming deck, to be the playing one.
    pub fn into_deck(self) -> (d: Option<Deck<S>>)
        ensures
            match d {
                Some(b) => self@.deck == Some(b@),
                None => self@.deck is None,
            },
    {
        self.deck
    }
}

// ---------------------------------------------------------------------------
// Laws
// ---------------------------------------------------------------------------

/// A search, early or late, looks at nothing but real audio: all the frames
/// that it looks for and all those that it looks at are decoded.
pub proof fn law_search_sees_real_audio<S>(
    s: SwitchView<S>,
    a: deck::DeckView<S>,
    held_incoming: int,
    held_playing: int,
    now: int,
    after: SwitchView<S>,
    search: Search,
)
    requires
        s.wf(),
        a.wf(),
        s.primes(a, held_incoming, held_playing, now, after, Primed::Search(search)),
    ensures
        ready(a, s.deck->0, s.coarse),
        a.pairs(search.anchor as int, search.until as int).len() == ref_frames(a.rate),
        s.deck->0.pairs(search.lo as int, search.hi as int).len() == search.hi - search.lo,
{
}

/// The window of a search holds room for a match at the estimate, wherever
/// the incoming deck has not been played past it.
pub proof fn law_search_covers_the_estimate<S>(
    a: deck::DeckView<S>,
    b: deck::DeckView<S>,
    coarse: int,
    s: Search,
)
    requires
        a.wf(),
        b.wf(),
        search_at(s, a, b, coarse),
        b.played_frames <= coarse,
    ensures
        s.lo <= coarse,
        coarse + ref_frames(a.rate) <= s.hi,
{
}

/// After positioning, the next frames of the two decks play at the same
/// instant: they are as far apart as the aligned ones.
pub proof fn law_positioning_aligns<S>(
    a: deck::DeckView<S>,
    b: deck::DeckView<S>,
    al: Alignment,
)
    ensures
        ({
            let by = shift(al, a.played_frames, b.played_frames);
            &&& by >= 0 ==> b.left(by).played_frames - a.played_frames == al.at - al.anchor
            &&& by < 0 ==> b.played_frames - a.left(-by).played_frames == al.at - al.anchor
        }),
{
}

/// Playing on keeps two decks aligned: both move by the same number of frames.
pub proof fn law_playing_keeps_alignment<S>(
    a: deck::DeckView<S>,
    b: deck::DeckView<S>,
    n: int,
)
    ensures
        b.left(n).played_frames - a.left(n).played_frames == b.played_frames - a.played_frames,
{
}

/// A fade begins with the playing deck alone.
pub proof fn law_fade_begins_at_nothing(total: int)
    requires
        total > 0,
    ensures
        share(0, 0, total).0 == 0,
{
}

/// The share of the incoming deck never falls, and it is a share: between
/// nothing and all.
pub proof fn law_fade_only_rises(done: int, i: int, j: int, total: int)
    requires
        0 <= done,
        0 <= i <= j,
        0 <= total,
    ensures
        share(done, i, total).1 > 0,
        0 <= share(done, i, total).0 <= share(done, i, total).1,
        share(done, i, total).0 * share(done, j, total).1 <= share(done, j, total).0 * share(
            done,
            i,
            total,
        ).1,
{
    let (n, d) = share(done, i, total);
    let (m, e) = share(done, j, total);
    assert(n * e <= m * d) by (nonlinear_arith)
        requires
            0 <= n <= d,
            (m == 1 && e == 1) || (n <= m && d == e),
    ;
}

/// A fade carries on across chunks: where one ends, the next begins.
pub proof fn law_fade_is_continuous(done: int, frames: int, i: int, total: int)
    ensures
        share(done, frames + i, total) == share(done + frames, i, total),
{
}

/// A fade of `total` frames has become the incoming deck alone by the frame
/// that follows them.
pub proof fn law_fade_ends_complete(done: int, i: int, total: int)
    requires
        done + i >= total,
    ensures
        share(done, i, total).0 == share(done, i, total).1,
{
}

/// The fade after a number of chunks: the frames done, until it is complete.
pub open spec fn faded(total: int, frames: int, chunks: nat) -> Option<int>
    decreases chunks,
{
    if chunks == 0 {
        Some(0)
    } else {
        match faded(total, frames, (chunks - 1) as nat) {
            None => None,
            Some(done) => if done + frames >= total {
                None
            } else {
                Some(done + frames)
            },
        }
    }
}

/// A fade completes with the chunk that covers its last frame, and not before.
pub proof fn law_fade_completes(total: int, frames: int, chunks: nat)
    requires
        frames > 0,
        chunks > 0,
    ensures
        (faded(total, frames, chunks) is None) == (chunks * frames >= total),
        faded(total, frames, chunks) is Some ==> faded(total, frames, chunks)->0 == chunks
            * frames,
    decreases chunks,
{
    if chunks == 1 {
        reveal_with_fuel(faded, 2);
        assert(chunks * frames == frames) by (nonlinear_arith)
            requires
                chunks == 1,
        ;
    } else {
        let before = (chunks - 1) as nat;
        law_fade_completes(total, frames, before);
        assert(chunks * frames == before * frames + frames) by (nonlinear_arith)
            requires
                chunks == before + 1,
        ;
    }
}

/// A switch searches a bounded number of times: each retry is counted, and
/// once they are used up the estimate is accepted.
pub proof fn law_searches_are_bounded(al: Alignment, since: int, retries: int, now: int)
    ensures
        retried(al, since, retries, now) ==> retries + 1 <= ALIGN_RETRIES,
        retries >= ALIGN_RETRIES ==> !retried(al, since, retries, now),
        al.fine ==> !retried(al, since, retries, now),
{
}

/// A switch that has taken too long waits no longer: with its decoding ahead
/// over it is searched if all its audio is on hand, and given up if not, and
/// what is found is not tried again.
pub proof fn law_late_switches_wait_no_longer<S>(
    s: SwitchView<S>,
    a: deck::DeckView<S>,
    held_incoming: int,
    held_playing: int,
    now: int,
    after: SwitchView<S>,
    next: Primed,
    al: Alignment,
)
    ensures
        s.gives_up(now) && s.primes(a, held_incoming, held_playing, now, after, next) ==> {
            &&& !(next is Wait)
            &&& next is Search ==> ready(a, s.deck->0, s.coarse)
            &&& next is GiveUp ==> !ready(a, s.deck->0, s.coarse)
        },
        s.inc matches Incoming::Aligning { since, .. } && late(since as int, now) ==> !s.retries(
            al,
            now,
        ),
{
}

/// A connection that has taken too long is given up, unless it is ready to be
/// probed.
pub proof fn law_late_links_wait_no_longer(
    next: Linked,
    since: int,
    net: Option<Fault>,
    buffered: int,
    closed: bool,
    now: int,
)
    requires
        linked(next, since, net, buffered, closed, now),
        elapsed(since, now) > LINK_TIMEOUT_MS,
    ensures
        !(next is Wait),
        next is Probe <==> net is None && buffered >= PROBE_BYTES,
{
}

} // verus!
