//! Laws of the seamless switch: what each of its steps is for.

use crate::deck::{Deck, Frames, Packet, Pull, CHUNK};
use crate::deck_laws;
use crate::fault::Fault;
use crate::switch;
use crate::switch::{
    align_step, blendable, coarse_target, fade_share, fade_step, frames_needed, frames_per_byte,
    holds_alignment, holds_estimate, link_step, positioned, prime_step, probed, pulls_incoming,
    pulls_playing, resolve_alignment, Aligned, Alignment, Faded, Heard, Heeded, Incoming, Linked,
    Outlook, Primed, Search, Side, Stage, Switch, ALIGN_RETRIES, ALIGN_RETRY_GAP_MS,
    LINK_TIMEOUT_MS, PRIME_DRAIN_ABOVE, PRIME_PULLS, PRIME_TIMEOUT_MS, PROBE_BYTES,
    PULL_MIN_BYTES, TYPICAL_RATIO,
};
use vstd::prelude::*;

verus! {

/// The limits of a switch. A listener may be fifteen seconds behind the live
/// edge, and priming outlasts that.
pub proof fn law_limits()
    ensures
        CHUNK == 1_152,
        PROBE_BYTES == 32_768,
        PULL_MIN_BYTES == 8_192,
        PRIME_PULLS == 24,
        PRIME_DRAIN_ABOVE == 196_608,
        ALIGN_RETRIES == 2,
        ALIGN_RETRY_GAP_MS == 1_500,
        LINK_TIMEOUT_MS == 15_000,
        PRIME_TIMEOUT_MS == 20_000,
        TYPICAL_RATIO == (1_152u64, 418u64),
{
}

// ---------------------------------------------------------------------------
// Linking
// ---------------------------------------------------------------------------

/// A connection that has broken fails the switch with its own fault. One that
/// holds enough is probed, even at its end; one that has ended before, or has
/// had fifteen seconds, fails; any other is waited for.
pub proof fn law_links(
    since: u64,
    net: Option<Fault>,
    buffered: usize,
    closed: bool,
    now: u64,
    next: Linked,
)
    requires
        call_ensures(link_step, (since, net, buffered, closed, now), next),
    ensures
        net matches Some(f) ==> next == Linked::Fail(f),
        net is None && buffered >= 32_768 ==> next is Probe,
        net is None && buffered < 32_768 ==> {
            let late = now > since + 15_000;
            &&& next is Wait <==> !closed && !late
            &&& !(next is Probe)
            &&& closed ==> next->0.code@ == "dropped"@ && next->0.message@
                == "Stream ended before it started"@
            &&& !closed && late ==> next->0.code@ == "timeout"@ && next->0.message@
                == "Stream did not answer in time"@
        },
{
}

/// A switch hands the state of its connection on as it is.
pub proof fn law_a_switch_links<S: Copy>(
    s: Switch<S>,
    net: Option<Fault>,
    buffered: usize,
    closed: bool,
    now: u64,
    next: Linked,
)
    requires
        call_ensures(Switch::<S>::on_link, (&s, net, buffered, closed, now), next),
        s@.inc is Linking,
    ensures
        ({
            let late = now > s@.inc->Linking_since + 15_000;
            &&& net matches Some(f) ==> next == Linked::Fail(f)
            &&& next is Probe <==> net is None && buffered >= 32_768
            &&& next is Wait <==> net is None && buffered < 32_768 && !closed && !late
        }),
{
}

// ---------------------------------------------------------------------------
// Priming
// ---------------------------------------------------------------------------

/// The incoming stream is where the listener is when as many bytes of it are
/// still to come as of the one that is playing.
pub proof fn law_the_estimate_keeps_the_depth(written: u64, depth: u64, bytes: i64)
    requires
        call_ensures(coarse_target, (written, depth), bytes),
    ensures
        written - bytes == depth,
{
}

/// Streams are blended where a frame of each lasts as long.
pub proof fn law_blending_needs_equal_rates<S: Copy>(a: Deck<S>, b: Deck<S>, r: bool)
    requires
        call_ensures(blendable, (&a, &b), r),
    ensures
        r <==> a@.rate == b@.rate,
{
}

/// Frames go by bytes as they did on the incoming deck so far, or else on the
/// playing one, or else as they usually do.
pub proof fn law_frames_by_bytes<S: Copy>(a: Deck<S>, b: Deck<S>, r: (u64, u64))
    requires
        call_ensures(frames_per_byte, (&a, &b), r),
        a@.demuxed >= 0,
        b@.demuxed >= 0,
    ensures
        r.1 > 0,
        b@.demuxed > 0 ==> r.0 == b@.decoded_frames && r.1 == b@.demuxed,
        b@.demuxed == 0 && a@.demuxed > 0 ==> r.0 == a@.decoded_frames && r.1 == a@.demuxed,
        b@.demuxed == 0 && a@.demuxed == 0 ==> r.0 == 1_152 && r.1 == 418,
{
}

/// A search around an estimate needs the second after it, the two seconds that
/// are looked for, and a chunk to spare.
pub proof fn law_what_a_search_needs(coarse: i64, rate: u32, n: u64)
    requires
        call_ensures(frames_needed, (coarse, rate), n),
    ensures
        coarse + 3 * rate + 1_152 >= 0 ==> n == coarse + 3 * rate + 1_152,
        coarse + 3 * rate + 1_152 < 0 ==> n == 0,
{
}

/// The incoming deck is decoded ahead while it lacks what a search needs, or
/// its pipe fills up: a bounded number of packets a step, and none that the
/// pipe does not hold.
pub proof fn law_when_the_incoming_deck_is_decoded<S: Copy>(
    b: Deck<S>,
    held: usize,
    coarse: i64,
    pulls: usize,
    more: bool,
)
    requires
        call_ensures(pulls_incoming, (&b, held, coarse, pulls), more),
        b@.wf(),
    ensures
        more <==> {
            &&& pulls < 24
            &&& held >= 8_192
            &&& b@.decoded_frames < coarse + 3 * b@.rate + 1_152 || held >= 196_608
        },
{
}

/// The playing deck is decoded ahead once the estimate lies within the incoming
/// audio, until what is looked for and two chunks are on hand.
pub proof fn law_when_the_playing_deck_is_decoded<S: Copy>(
    a: Deck<S>,
    held: usize,
    coarse: i64,
    pulls: usize,
    more: bool,
)
    requires
        call_ensures(pulls_playing, (&a, held, coarse, pulls), more),
        a@.wf(),
    ensures
        more <==> {
            &&& coarse >= a@.rate / 2
            &&& pulls < 24
            &&& a@.decoded_frames - a@.played_frames < 2 * a@.rate + 2 * 1_152
            &&& held >= 8_192
        },
{
}

/// Whether the audio that a search needs is on hand: half a second of the
/// incoming stream before the estimate, two seconds and a chunk of the playing
/// one not yet heard, and the whole window of the incoming one.
pub open spec fn on_hand(
    coarse: int,
    rate: int,
    a_decoded: int,
    a_played: int,
    b_decoded: int,
) -> bool {
    &&& coarse >= rate / 2
    &&& a_decoded - a_played >= 2 * rate + 1_152
    &&& b_decoded >= coarse + 3 * rate + 1_152
}

/// Whether `s` looks for the next two seconds of the playing deck within a
/// second of the estimate, as far as the incoming deck has not been played.
pub open spec fn looks_around(
    s: Search,
    coarse: int,
    rate: int,
    a_played: int,
    b_played: int,
) -> bool {
    &&& s.anchor == a_played
    &&& s.until - s.anchor == 2 * rate
    &&& s.coarse == coarse
    &&& b_played <= coarse - rate ==> s.lo == coarse - rate
    &&& b_played > coarse - rate ==> s.lo == b_played
    &&& coarse + 3 * rate >= s.lo ==> s.hi == coarse + 3 * rate
    &&& coarse + 3 * rate < s.lo ==> s.hi == s.lo
}

/// A search begins once its audio is on hand and any pause is over. After
/// twenty seconds no pause is kept, and audio that is missing is given up on.
pub proof fn law_when_to_search<S: Copy>(
    since: u64,
    not_before: u64,
    a: Deck<S>,
    b: Deck<S>,
    coarse: i64,
    now: u64,
    outlook: Outlook,
)
    requires
        call_ensures(prime_step, (since, not_before, &a, &b, coarse, now), outlook),
        a@.wf(),
        b@.wf(),
    ensures
        ({
            let late = now > since + 20_000;
            let ready = on_hand(
                coarse as int,
                a@.rate,
                a@.decoded_frames,
                a@.played_frames,
                b@.decoded_frames,
            );
            &&& outlook is Search <==> ready && (now >= not_before || late)
            &&& outlook is GiveUp <==> late && !ready
            &&& outlook matches Outlook::Search(s) ==> looks_around(
                s,
                coarse as int,
                a@.rate,
                a@.played_frames,
                b@.played_frames,
            )
        }),
{
}

/// A round of priming decodes the incoming deck ahead, then the playing one,
/// and then searches, gives up, or waits; decks of other rates are never
/// blended.
pub proof fn law_how_a_round_goes<S: Copy>(
    s: &mut Switch<S>,
    a: &Deck<S>,
    held_incoming: usize,
    held_playing: usize,
    now: u64,
    next: Primed,
)
    requires
        call_ensures(Switch::<S>::prime, (s, a, held_incoming, held_playing, now), next),
        old(s)@.wf(),
        old(s)@.inc is Priming,
        a@.wf(),
    ensures
        ({
            let b = old(s)@.deck->0;
            let coarse = old(s)@.coarse;
            let since = old(s)@.inc->Priming_since;
            let late = now > since + 20_000;
            let ready = on_hand(
                coarse,
                a@.rate,
                a@.decoded_frames,
                a@.played_frames,
                b.decoded_frames,
            );
            let ahead = match old(s)@.stage {
                Stage::Incoming(n) => n < 24 && held_incoming >= 8_192 && (b.decoded_frames
                    < coarse + 3 * b.rate + 1_152 || held_incoming >= 196_608),
                _ => false,
            };
            let pulls: int = match old(s)@.stage {
                Stage::Playing(n) => n as int,
                _ => 0,
            };
            let along = !(old(s)@.stage is Over) && coarse >= a@.rate / 2 && pulls < 24
                && a@.decoded_frames - a@.played_frames < 2 * a@.rate + 2 * 1_152 && held_playing
                >= 8_192;
            &&& next is Retune <==> a@.rate != b.rate
            &&& next is Retune ==> final(s)@ == old(s)@
            &&& a@.rate == b.rate ==> {
                &&& next == Primed::Pull(Side::Incoming) <==> ahead
                &&& next == Primed::Pull(Side::Playing) <==> !ahead && along
                &&& next is Search <==> !ahead && !along && ready && (now
                    >= old(s)@.inc->not_before || late)
                &&& next is GiveUp <==> !ahead && !along && late && !ready
                &&& next matches Primed::Search(search) ==> looks_around(
                    search,
                    coarse,
                    a@.rate,
                    a@.played_frames,
                    b.played_frames,
                )
                &&& ahead ==> final(s)@.stage == Stage::Incoming(
                    (old(s)@.stage->Incoming_0 + 1) as usize,
                )
                &&& !ahead && along ==> final(s)@.stage == Stage::Playing((pulls + 1) as usize)
                &&& !ahead && !along ==> final(s)@.stage is Over
            }
            &&& next is Search ==> final(s)@.inc == (Incoming::Aligning {
                since,
                retries: old(s)@.inc->Priming_retries,
            })
            &&& !(next is Search) ==> final(s)@.inc == old(s)@.inc
            &&& final(s)@.deck == old(s)@.deck
            &&& final(s)@.coarse == old(s)@.coarse
            &&& final(s)@.url == old(s)@.url
        }),
{
}

// ---------------------------------------------------------------------------
// Aligning
// ---------------------------------------------------------------------------

/// What a search found stands where it was found; without a trusted find the
/// estimate stands, as far as there is audio to begin with.
pub proof fn law_what_a_search_gives(s: Search, found: Option<usize>, al: Alignment)
    requires
        call_ensures(resolve_alignment, (s, found), al),
    ensures
        al.anchor == s.anchor,
        al.fine <==> found is Some,
        found matches Some(idx) ==> al.at == s.lo + idx,
        found is None && s.coarse >= s.lo ==> al.at == s.coarse,
        found is None && s.coarse < s.lo ==> al.at == s.lo,
{
}

/// However the decks have moved since the search, the frames that are skipped
/// make them play the same instant: the decks are then as far apart as the
/// search found them. A weak match is searched again, twice at most and not
/// after twenty seconds; a search that is lost fails the switch.
pub proof fn law_skipping_aligns(
    since: u64,
    retries: u32,
    heard: Heard,
    a_played: u64,
    b_played: u64,
    now: u64,
    next: Aligned,
)
    requires
        call_ensures(align_step, (since, retries, heard, a_played, b_played, now), next),
    ensures
        next is Wait <==> heard is Pending,
        next is Fail <==> heard is Lost,
        next matches Aligned::Fail(f) ==> f.code@ == "decode"@ && f.message@
            == "Alignment failed"@,
        heard matches Heard::Found(al) ==> {
            let again = !al.fine && retries < 2 && now <= since + 20_000;
            &&& next is Retry <==> again
            &&& next matches Aligned::Retry(inc) ==> inc == (Incoming::Priming {
                since,
                retries: (retries + 1) as u32,
                not_before: (now + 1_500) as u64,
            })
            &&& next is SkipIncoming && alignable(al, a_played, b_played) ==> b_played
                + next->SkipIncoming_0 - a_played == al.at - al.anchor
            &&& next is SkipPlaying && alignable(al, a_played, b_played) ==> b_played - a_played
                - next->SkipPlaying_0 == al.at - al.anchor
            &&& !again ==> next is SkipIncoming || next is SkipPlaying
        },
{
}

/// Whether the frame counts of an alignment are ones that occur.
pub open spec fn alignable(al: Alignment, a_played: u64, b_played: u64) -> bool {
    let by = a_played + (al.at - al.anchor) - b_played;
    -i64::MAX <= by <= i64::MAX
}

/// A switch heeds the search as the decks then stand.
pub proof fn law_a_switch_heeds<S: Copy>(
    s: &mut Switch<S>,
    heard: Heard,
    a: &Deck<S>,
    now: u64,
    next: Heeded,
)
    requires
        call_ensures(Switch::<S>::on_heard, (s, heard, a, now), next),
        old(s)@.wf(),
        old(s)@.inc is Aligning,
        old(s)@.holds_heard(heard, a@, now as int),
    ensures
        next is Fail <==> heard is Lost,
        next matches Heeded::Fail(f) ==> f.code@ == "decode"@ && f.message@
            == "Alignment failed"@,
        heard is Pending || heard is Lost ==> final(s)@ == old(s)@,
        heard is Pending ==> next is Wait,
        final(s)@ == (switch::SwitchView { inc: final(s)@.inc, ..old(s)@ }),
        heard matches Heard::Found(al) ==> {
            let since = old(s)@.inc->Aligning_since;
            let retries = old(s)@.inc->Aligning_retries;
            let again = !al.fine && retries < 2 && now <= since + 20_000;
            let apart = old(s)@.deck->0.played_frames - a@.played_frames;
            &&& next is Wait <==> again
            &&& next is Position <==> !again
            &&& again ==> final(s)@.inc == (Incoming::Priming {
                since,
                retries: (retries + 1) as u32,
                not_before: (now + 1_500) as u64,
            })
            &&& !again ==> {
                let inc = final(s)@.inc;
                &&& inc is Positioning
                &&& inc->Positioning_fine == al.fine
                &&& inc->side is Incoming ==> apart + inc->rest == al.at - al.anchor
                &&& inc->side is Playing ==> apart - inc->rest == al.at - al.anchor
            }
        },
{
}

// ---------------------------------------------------------------------------
// Positioning and fading
// ---------------------------------------------------------------------------

/// Positioning skips as many frames as it has to. The playing deck loses them
/// all at once, when they are all decoded; then a fade of half a second begins.
pub proof fn law_positioning_skips_what_it_must<S: Copy>(
    s: &mut Switch<S>,
    a: &mut Deck<S>,
    more: Option<Side>,
)
    requires
        call_ensures(Switch::<S>::position, (s, a), more),
        old(s)@.wf(),
        old(s)@.inc is Positioning,
        old(a)@.wf(),
    ensures
        ({
            let rest = old(s)@.inc->rest;
            let waiting = old(a)@.decoded_frames - old(a)@.played_frames;
            let b = old(s)@.deck->0;
            let incoming = b.decoded_frames - b.played_frames;
            &&& old(s)@.inc->side is Playing ==> {
                &&& final(s)@.deck == old(s)@.deck
                &&& more is None <==> waiting >= rest
                &&& more is Some ==> more->0 is Playing && final(a)@ == old(a)@ && final(s)@
                    == old(s)@
                &&& more is None ==> {
                    &&& final(a)@.played_frames == old(a)@.played_frames + rest
                    &&& final(a)@.fifo == old(a)@.fifo.skip(2 * rest)
                    &&& deck_laws::follows(old(a)@, final(a)@)
                }
            }
            &&& old(s)@.inc->side is Incoming ==> {
                &&& final(a)@ == old(a)@
                &&& more is None <==> incoming >= rest
                &&& more is Some ==> more->0 is Incoming
                &&& more is None ==> final(s)@.deck->0.played_frames == b.played_frames + rest
                &&& more is None ==> final(s)@.deck->0.fifo == b.fifo.skip(2 * rest)
                &&& more is Some ==> final(s)@.deck->0.fifo == b.fifo.skip(2 * incoming)
                &&& deck_laws::follows(b, final(s)@.deck->0)
                &&& more is Some ==> final(s)@.inc == (Incoming::Positioning {
                    side: Side::Incoming,
                    rest: (rest - incoming) as u64,
                    fine: old(s)@.inc->Positioning_fine,
                }) && final(s)@.deck->0.played_frames == b.decoded_frames
            }
            &&& more is None ==> final(s)@.inc == (Incoming::Fading {
                done: 0,
                total: (old(a)@.rate / 2) as usize,
                fine: old(s)@.inc->Positioning_fine,
            })
            &&& final(s)@.url == old(s)@.url
        }),
{
    let rest = old(s)@.inc->rest as int;
    let b = old(s)@.deck->0;
    deck_laws::lemma_follows(old(a)@, rest);
    deck_laws::lemma_follows(
        b,
        switch::least(rest, b.decoded_frames - b.played_frames),
    );
}

/// A fade lasts half a second.
pub proof fn law_a_fade_lasts_half_a_second(rate: u32, fine: bool, inc: Incoming)
    requires
        call_ensures(positioned, (rate, fine), inc),
    ensures
        inc matches Incoming::Fading { done, total, fine: f } && done == 0 && f == fine && 2
            * total <= rate < 2 * total + 2,
{
}

/// The fade is linear: so far into it, the incoming deck's share is so much of
/// the whole, and all of it from the end on.
pub proof fn law_the_fade_is_linear(done: usize, i: usize, total: usize, r: (usize, usize))
    requires
        call_ensures(fade_share, (done, i, total), r),
    ensures
        r.1 > 0,
        done + i < total ==> r.0 * total == (done + i) * r.1,
        done + i >= total ==> r.0 == r.1,
{
}

/// From each frame of the fade to the next the share grows by one part of the
/// whole.
pub proof fn law_the_fade_grows_evenly(
    done: usize,
    i: usize,
    total: usize,
    here: (usize, usize),
    there: (usize, usize),
)
    requires
        call_ensures(fade_share, (done, i, total), here),
        call_ensures(fade_share, (done, (i + 1) as usize, total), there),
        i < usize::MAX,
        done + i + 1 <= total,
    ensures
        there.0 * here.1 * total == here.0 * there.1 * total + here.1 * there.1,
{
    let (n, d) = (here.0 as int, here.1 as int);
    let (m, e) = (there.0 as int, there.1 as int);
    let t = total as int;
    let k = done + i;
    if k + 1 == t {
        assert(m * t == (k + 1) * e) by (nonlinear_arith)
            requires
                m == e,
                k + 1 == t,
        ;
    }
    assert(m * d * t == n * e * t + d * e) by (nonlinear_arith)
        requires
            n * t == k * d,
            m * t == (k + 1) * e,
    ;
}

/// A fade goes on until all its frames are mixed.
pub proof fn law_when_a_fade_is_over(
    done: usize,
    total: usize,
    fine: bool,
    frames: usize,
    next: Option<Incoming>,
)
    requires
        call_ensures(fade_step, (done, total, fine, frames), next),
        done + frames <= usize::MAX,
    ensures
        next is None <==> done + frames >= total,
        next matches Some(inc) ==> inc == (Incoming::Fading {
            done: (done + frames) as usize,
            total,
            fine,
        }),
{
}

/// A part of the fade is the next audio of the incoming deck, which is then
/// played; where there is too little, nothing happens.
pub proof fn law_fading_plays_the_incoming_deck<S: Copy>(
    s: &mut Switch<S>,
    frames: usize,
    part: Option<Faded<S>>,
)
    requires
        call_ensures(Switch::<S>::fade, (s, frames), part),
        old(s)@.wf(),
        old(s)@.inc is Fading,
        old(s)@.inc->done + frames <= usize::MAX,
    ensures
        ({
            let b = old(s)@.deck->0;
            &&& part is None <==> b.decoded_frames - b.played_frames < frames
            &&& part is None ==> final(s)@ == old(s)@
            &&& part matches Some(c) ==> {
                &&& c.samples@ == b.fifo.take(2 * frames)
                &&& c.done == old(s)@.inc->done
                &&& c.total == old(s)@.inc->total
                &&& c.complete <==> c.done + frames >= c.total
                &&& final(s)@.deck->0.fifo == b.fifo.skip(2 * frames)
                &&& final(s)@.deck->0.played_frames == b.played_frames + frames
                &&& deck_laws::follows(b, final(s)@.deck->0)
                &&& final(s)@.inc == (Incoming::Fading {
                    done: (c.done + frames) as usize,
                    total: c.total,
                    fine: old(s)@.inc->Fading_fine,
                })
                &&& final(s)@.url == old(s)@.url
            }
        }),
{
    deck_laws::lemma_follows(old(s)@.deck->0, frames as int);
}

// ---------------------------------------------------------------------------
// The switch
// ---------------------------------------------------------------------------

/// A switch begins with its connection; with its stream open it primes, with a
/// deck that has played nothing.
pub proof fn law_how_a_switch_begins<S: Copy>(
    url: String,
    since: u64,
    fresh: Switch<S>,
    s: &mut Switch<S>,
    track: u32,
    rate: Option<u32>,
    now: u64,
    d: Deck<S>,
)
    requires
        call_ensures(Switch::<S>::new, (url, since), fresh),
        call_ensures(Switch::<S>::on_opened, (s, track, rate, now), ()),
        call_ensures(Deck::<S>::new, (track, rate), d),
    ensures
        fresh@.url == url@,
        fresh@.inc == (Incoming::Linking { since }),
        fresh@.deck is None,
        final(s)@.url == old(s)@.url,
        final(s)@.inc == (Incoming::Priming { since: now, retries: 0, not_before: 0 }),
        final(s)@.deck == Some(d@),
        final(s)@.deck matches Some(b) && {
            &&& b.track_id == track
            &&& rate is Some && rate->0 > 0 ==> b.rate == rate->0
            &&& rate == Some(0u32) ==> b.rate == 1
            &&& rate is None ==> b.rate == 44_100
            &&& b.played_frames == 0
            &&& b.decoded_frames == 0
            &&& b.demuxed == 0
            &&& b.fifo.len() == 0
        },
{
}

/// The stream has been opened.
pub proof fn law_an_opened_stream_is_primed(now: u64, inc: Incoming)
    requires
        call_ensures(probed, (now,), inc),
    ensures
        inc == (Incoming::Priming { since: now, retries: 0, not_before: 0 }),
{
}

/// What the estimate rests on: the depth of the playing stream within the
/// incoming one, and how frames go by bytes.
pub proof fn law_what_the_estimate_rests_on<S: Copy>(
    s: Switch<S>,
    a: Deck<S>,
    written: u64,
    depth: u64,
    e: (i64, (u64, u64)),
)
    requires
        call_ensures(Switch::<S>::estimate, (&s, &a, written, depth), e),
        s@.deck is Some,
        a@.demuxed >= 0,
        s@.deck->0.demuxed >= 0,
    ensures
        written - e.0 == depth,
        ({
            let b = s@.deck->0;
            let (frames, bytes) = e.1;
            &&& b.demuxed > 0 ==> frames == b.decoded_frames && bytes == b.demuxed
            &&& b.demuxed == 0 && a@.demuxed > 0 ==> frames == a@.decoded_frames && bytes
                == a@.demuxed
            &&& b.demuxed == 0 && a@.demuxed == 0 ==> frames == 1_152 && bytes == 418
        }),
{
}

/// Each round of priming begins anew, around its own estimate. It is over for
/// the playing deck when that one has ended.
pub proof fn law_rounds_begin_anew<S: Copy>(s: &mut Switch<S>, coarse: i64, t: &mut Switch<S>)
    requires
        call_ensures(Switch::<S>::begin_round, (s, coarse), ()),
        call_ensures(Switch::<S>::on_playing_ended, (t,), ()),
    ensures
        final(s)@ == (switch::SwitchView {
            coarse: coarse as int,
            stage: Stage::Incoming(0),
            ..old(s)@
        }),
        final(t)@ == (switch::SwitchView { stage: Stage::Over, ..old(t)@ }),
{
}

/// What is decoded of the incoming deck goes to the incoming deck, and does
/// there what audio does.
pub proof fn law_incoming_audio_joins_the_incoming_deck<S: Copy>(
    s: &mut Switch<S>,
    frames: Frames<S>,
    net: Option<Fault>,
    next: Pull,
    d: &mut Deck<S>,
    alone: Pull,
)
    requires
        call_ensures(Switch::<S>::on_frames, (s, frames, net), next),
        call_ensures(Deck::<S>::on_frames, (d, frames, net), alone),
        old(s)@.deck == Some(old(d)@),
    ensures
        final(s)@ == (switch::SwitchView { deck: Some(final(d)@), ..old(s)@ }),
        next is Done <==> alone is Done,
        next is Again <==> alone is Again,
        next is End <==> alone is End,
{
}

/// What is read of the incoming deck goes to the incoming deck, and does there
/// what packets do.
pub proof fn law_incoming_packets_are_counted<S: Copy>(
    s: &mut Switch<S>,
    packet: Packet,
    net: Option<Fault>,
    next: Pull,
    d: &mut Deck<S>,
    alone: Pull,
)
    requires
        call_ensures(Switch::<S>::on_packet, (s, packet, net), next),
        call_ensures(Deck::<S>::on_packet, (d, packet, net), alone),
        old(s)@.deck == Some(old(d)@),
    ensures
        final(s)@ == (switch::SwitchView { deck: Some(final(d)@), ..old(s)@ }),
        next is Decode <==> alone is Decode,
        next is Again <==> alone is Again,
        next is End <==> alone is End,
{
}

/// What can be asked of a switch is what it knows, and its deck is handed over
/// as it is.
pub proof fn law_switches_can_be_asked<S: Copy>(
    s: Switch<S>,
    url: &str,
    phase: Incoming,
    deck: Option<&Deck<S>>,
    gone: Option<Deck<S>>,
)
    requires
        call_ensures(Switch::<S>::url, (&s,), url),
        call_ensures(Switch::<S>::phase, (&s,), phase),
        call_ensures(Switch::<S>::deck, (&s,), deck),
        call_ensures(Switch::<S>::into_deck, (s,), gone),
    ensures
        url@ == s@.url,
        phase == s@.inc,
        deck is Some <==> s@.deck is Some,
        deck matches Some(b) ==> b@ == s@.deck->0,
        gone is Some <==> s@.deck is Some,
        gone matches Some(b) ==> b@ == s@.deck->0,
{
}

/// The limits of frame counts are told as they are.
pub proof fn law_limits_of_frame_counts(
    coarse: i64,
    rate: u32,
    estimate: bool,
    al: Alignment,
    a_played: u64,
    b_played: u64,
    alignment: bool,
)
    requires
        call_ensures(holds_estimate, (coarse, rate), estimate),
        call_ensures(holds_alignment, (al, a_played, b_played), alignment),
    ensures
        -0x4000_0000_0000_0000 <= coarse <= 0x4000_0000_0000_0000 ==> estimate,
        al.anchor <= 0x1000_0000_0000_0000 && a_played <= 0x1000_0000_0000_0000 && b_played
            <= 0x1000_0000_0000_0000 && -0x1000_0000_0000_0000 <= al.at <= 0x1000_0000_0000_0000
            ==> alignment,
{
}

/// Whether a frame count is one that occurs.
pub open spec fn ordinary(n: int) -> bool {
    -0x1000_0000_0000_0000 <= n <= 0x1000_0000_0000_0000
}

/// Ordinary rounds and finds can be taken: only counts that no stream reaches
/// cannot.
pub proof fn law_what_a_switch_can_take<S: Copy>(
    s: Switch<S>,
    a: Deck<S>,
    round: bool,
    heard: Heard,
    now: u64,
    find: bool,
)
    requires
        call_ensures(Switch::<S>::holds_round, (&s, &a), round),
        call_ensures(Switch::<S>::holds_heard, (&s, heard, &a, now), find),
        s@.wf(),
        a@.wf(),
    ensures
        ordinary(s@.coarse) && ordinary(a@.played_frames) && ordinary(s@.deck->0.played_frames)
            ==> round,
        !(heard is Found) ==> find,
        now <= 0x1000_0000_0000_0000 && ordinary(a@.played_frames) && ordinary(
            s@.deck->0.played_frames,
        ) && heard is Found && ordinary(heard->0.at as int) && ordinary(heard->0.anchor as int)
            ==> find,
{
}

} // verus!
