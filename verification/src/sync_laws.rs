//! Laws of the drift controller, over every sequence of events.

use crate::icy::StreamUrl;
use crate::sync;
use crate::sync::{
    bytes_to_ms, ms_to_bytes, wall_ms, Action, BlockVerdict, Drift, Report, CATCHUP_AT_MS,
    CATCHUP_WINDOW_MS, CEILING_MS, COOLDOWN_MS, DEFAULT_BITRATE_KBPS, EPISODE_CLEAR_MS,
    MAX_CATCHUPS_PER_EPISODE, MAX_DROP_BYTES, POLL_MS, SEQ_RESET_SLACK, SETTLE_MS, SUSTAIN_MS,
    TARGET_LAG_MS,
};
use vstd::prelude::*;

verus! {

/// What can happen to a controller.
pub ghost enum Event {
    /// The buffers are measured and a decision is asked for.
    Poll { buffer_bytes: int, ring_ms: int, now: int },
    /// A metadata block reaches the speakers.
    Block { seq: int, lag: int },
    /// The first packet is decoded.
    FirstPacket { now: int },
    /// A trim discarded audio.
    Trimmed { bytes: int },
    /// The bitrate was measured.
    Bitrate { kbps: int },
}

/// One event: the controller after it, and what it asked for.
pub open spec fn step(m: sync::Model, e: Event) -> (sync::Model, Action) {
    match e {
        Event::Poll { buffer_bytes, ring_ms, now } => m.polled(buffer_bytes, ring_ms, now),
        Event::Block { seq, lag } => (m.observed(seq, lag).0, Action::Nothing),
        Event::FirstPacket { now } => (
            sync::Model {
                first_packet_at: if m.first_packet_at is Some {
                    m.first_packet_at
                } else {
                    Some(now)
                },
                ..m
            },
            Action::Nothing,
        ),
        Event::Trimmed { bytes } => (m.trimmed(bytes), Action::Nothing),
        Event::Bitrate { kbps } => (
            sync::Model { bitrate_kbps: sync::sane(kbps), ..m },
            Action::Nothing,
        ),
    }
}

/// The controller after a sequence of events.
pub open spec fn after(m: sync::Model, events: Seq<Event>) -> sync::Model
    decreases events.len(),
{
    if events.len() == 0 {
        m
    } else {
        step(after(m, events.drop_last()), events.last()).0
    }
}

/// What the controller asked for at event `i`.
pub open spec fn asked(m: sync::Model, events: Seq<Event>, i: int) -> Action {
    step(after(m, events.take(i)), events[i]).1
}

/// The depth of the buffers that a poll measures.
pub open spec fn depth(m: sync::Model, buffer_bytes: int, ring_ms: int) -> int {
    sync::ms_of(buffer_bytes, m.bitrate_kbps) + ring_ms
}

/// Whether the counters can hold an event, and its values are natural.
pub open spec fn admissible(m: sync::Model, e: Event) -> bool {
    match e {
        Event::Poll { buffer_bytes, ring_ms, now } => {
            &&& 0 <= buffer_bytes <= u64::MAX
            &&& 0 <= ring_ms <= u64::MAX
            &&& 0 <= now <= u64::MAX
            &&& m.holds_poll(buffer_bytes, ring_ms, now)
        },
        Event::Block { seq, lag } => 0 <= seq <= u64::MAX && m.holds_block(seq, lag),
        Event::FirstPacket { now } => 0 <= now <= u64::MAX,
        Event::Trimmed { bytes } => 0 <= bytes <= u64::MAX,
        Event::Bitrate { kbps } => 0 <= kbps <= u32::MAX,
    }
}

proof fn lemma_after_take(m: sync::Model, events: Seq<Event>, i: int)
    requires
        0 <= i < events.len(),
    ensures
        after(m, events.take(i + 1)) == step(after(m, events.take(i)), events[i]).0,
{
    assert(events.take(i + 1).drop_last() =~= events.take(i));
}

/// Every event keeps the controller's invariant. In it: an episode has at most
/// [`sync::MAX_CATCHUPS_PER_EPISODE`] catch-ups, a connection at most one reconnect,
/// and no lag is reported before the connection has settled.
pub proof fn law_invariant(m: sync::Model, e: Event)
    requires
        m.wf(),
        admissible(m, e),
    ensures
        step(m, e).0.wf(),
{
}

/// A poll within [`POLL_MS`] of the last one changes nothing and asks for
/// nothing.
pub proof fn law_polls_are_gated(m: sync::Model, buffer_bytes: int, ring_ms: int, now: int)
    requires
        m.last_poll is Some,
        m.last_poll->0 + POLL_MS <= u64::MAX,
        now < m.last_poll->0 + POLL_MS,
    ensures
        m.polled(buffer_bytes, ring_ms, now) == (m, Action::Nothing),
{
}

/// Nothing is asked for while the connection settles, however deep the
/// buffers are.
pub proof fn law_settling_never_acts(m: sync::Model, e: Event)
    requires
        m.state is Settling,
    ensures
        step(m, e).1 is Nothing,
        step(m, e).0.state is Settling || step(m, e).0.state is Steady,
{
}

/// Only the first packet starts the settle clock, and only a poll at least
/// [`SETTLE_MS`] after it ends the settling.
pub proof fn law_settling_outlasts_the_grace(m: sync::Model, e: Event)
    requires
        m.state is Settling,
        !(step(m, e).0.state is Settling),
    ensures
        m.first_packet_at is Some,
        e is Poll,
        e->Poll_now - m.first_packet_at->0 >= SETTLE_MS,
{
}

/// A block seen before the connection has settled is never measured.
pub proof fn law_burst_blocks_are_not_measured(m: sync::Model, seq: int, lag: int)
    requires
        m.state is Settling,
    ensures
        !(m.observed(seq, lag).1 is Fresh),
        m.wf() ==> m.observed(seq, lag).0.lag_ms is None,
        m.wf() ==> m.observed(seq, lag).0.baseline_lag is None,
{
}

/// A deep local buffer is a necessary condition for acting: a catch-up begins
/// only at a poll that measured at least the target lag.
pub proof fn law_deep_buffer_is_necessary(m: sync::Model, e: Event)
    requires
        !(m.state is CatchingUp),
        step(m, e).0.state is CatchingUp,
    ensures
        m.state is Steady,
        e is Poll,
        depth(m, e->buffer_bytes, e->ring_ms) >= TARGET_LAG_MS,
        step(m, e).1 == m.trim_request(),
{
}

/// However late the metadata says the listener is, a controller whose buffers
/// stay below the target lag never asks for anything.
pub proof fn law_metadata_alone_never_acts(m: sync::Model, events: Seq<Event>, i: int)
    requires
        m.state is Settling || m.state is Steady,
        0 <= i < events.len(),
        forall|j: int| 0 <= j <= i ==> (#[trigger] events[j] matches Event::Poll { buffer_bytes, ring_ms, .. }
            ==> depth(after(m, events.take(j)), buffer_bytes, ring_ms) < TARGET_LAG_MS),
    ensures
        asked(m, events, i) is Nothing,
        after(m, events.take(i + 1)).state is Settling
            || after(m, events.take(i + 1)).state is Steady,
    decreases i,
{
    lemma_after_take(m, events, i);
    if i == 0 {
        assert(events.take(0) =~= Seq::<Event>::empty());
    } else {
        law_metadata_alone_never_acts(m, events, i - 1);
    }
    assert(events[i] == events[i]);
}

/// While no catch-up has been asked for by the metadata, a buffer at or below
/// the arming depth is never trimmed, for as long as it stays there.
pub proof fn law_healthy_buffer_never_acts(m: sync::Model, events: Seq<Event>, i: int)
    requires
        m.state is Settling || m.state is Steady,
        !m.meta_trigger,
        0 <= i < events.len(),
        forall|j: int| 0 <= j <= i ==> !(#[trigger] events[j] is Block),
        forall|j: int| 0 <= j <= i ==> (#[trigger] events[j] matches Event::Poll { buffer_bytes, ring_ms, .. }
            ==> depth(after(m, events.take(j)), buffer_bytes, ring_ms) <= CATCHUP_AT_MS),
    ensures
        asked(m, events, i) is Nothing,
        after(m, events.take(i + 1)).state is Settling
            || after(m, events.take(i + 1)).state is Steady,
        !after(m, events.take(i + 1)).meta_trigger,
    decreases i,
{
    lemma_after_take(m, events, i);
    if i == 0 {
        assert(events.take(0) =~= Seq::<Event>::empty());
    } else {
        law_healthy_buffer_never_acts(m, events, i - 1);
    }
    assert(!(events[i] is Block));
}

/// A breach shorter than [`SUSTAIN_MS`] is ignored: from a steady controller
/// with no breach open, no poll of the span asks for anything, whatever it
/// measures.
pub proof fn law_brief_spike_is_ignored(m: sync::Model, events: Seq<Event>, i: int, start: int)
    requires
        m.state is Steady,
        m.over_since is None,
        !m.meta_trigger,
        0 <= i < events.len(),
        forall|j: int| 0 <= j <= i ==> (#[trigger] events[j] matches Event::Poll { now, .. }
            && start <= now < start + SUSTAIN_MS),
    ensures
        asked(m, events, i) is Nothing,
        after(m, events.take(i + 1)).state is Steady,
        !after(m, events.take(i + 1)).meta_trigger,
        after(m, events.take(i + 1)).over_since matches Some(t) ==> start <= t,
    decreases i,
{
    lemma_after_take(m, events, i);
    if i == 0 {
        assert(events.take(0) =~= Seq::<Event>::empty());
    } else {
        law_brief_spike_is_ignored(m, events, i - 1, start);
    }
    assert(events[i] is Poll);
}

/// A poll that finds a healthy buffer restarts the breach timer: breaches do
/// not accumulate across it.
pub proof fn law_healthy_poll_restarts_the_timer(
    m: sync::Model,
    buffer_bytes: int,
    ring_ms: int,
    now: int,
)
    requires
        m.state is Steady,
        !m.gated(now),
        depth(m, buffer_bytes, ring_ms) <= CATCHUP_AT_MS,
    ensures
        m.polled(buffer_bytes, ring_ms, now).0.over_since is None,
{
}

/// A breach that persists for [`SUSTAIN_MS`] begins a catch-up, down to the
/// target lag.
pub proof fn law_sustained_breach_trims(m: sync::Model, buffer_bytes: int, ring_ms: int, now: int)
    requires
        m.state is Steady,
        !m.gated(now),
        m.over_since is Some,
        now - m.over_since->0 >= SUSTAIN_MS,
        depth(m, buffer_bytes, ring_ms) > CATCHUP_AT_MS,
    ensures
        m.polled(buffer_bytes, ring_ms, now).1 == m.trim_request(),
        m.polled(buffer_bytes, ring_ms, now).0.state is CatchingUp,
        m.polled(buffer_bytes, ring_ms, now).0.catchup_until == sync::capped(
            now + CATCHUP_WINDOW_MS,
        ),
{
}

/// Excessive lag seen twice in a row, with a buffer a full target deep, begins
/// a catch-up at the next poll, without waiting for a breach to persist.
pub proof fn law_excessive_lag_bypasses_the_wait(
    m: sync::Model,
    seq1: int,
    lag1: int,
    seq2: int,
    lag2: int,
    buffer_bytes: int,
    ring_ms: int,
    now: int,
)
    requires
        m.wf(),
        m.state is Steady,
        m.local_ms >= TARGET_LAG_MS,
        m.last_seq is Some,
        m.lag_ms is Some,
        m.consecutive_excess >= 0,
        m.last_seq->0 < seq1 < seq2,
        m.excessive(lag1),
        m.excessive(lag2),
        !m.gated(now),
        depth(m, buffer_bytes, ring_ms) >= TARGET_LAG_MS,
    ensures
        ({
            let seen = m.observed(seq1, lag1).0.observed(seq2, lag2).0;
            &&& seen.polled(buffer_bytes, ring_ms, now).1 == m.trim_request()
            &&& seen.polled(buffer_bytes, ring_ms, now).0.state is CatchingUp
        }),
{
}

/// Through the whole catch-up window every poll repeats the request to trim,
/// until the episode's drop allowance is used up.
pub proof fn law_window_keeps_trimming(m: sync::Model, buffer_bytes: int, ring_ms: int, now: int)
    requires
        m.state is CatchingUp,
        !m.gated(now),
        now < m.catchup_until,
        m.dropped_bytes_episode < MAX_DROP_BYTES,
    ensures
        m.polled(buffer_bytes, ring_ms, now).1 == m.trim_request(),
        m.polled(buffer_bytes, ring_ms, now).0.state is CatchingUp,
{
}

/// While cooling down nothing is asked for, however deep the buffers are.
pub proof fn law_cooldown_suppresses(m: sync::Model, e: Event)
    requires
        m.state is Cooldown,
        e matches Event::Poll { now, .. } ==> now < m.cooldown_until,
    ensures
        step(m, e).1 is Nothing,
        step(m, e).0.state is Cooldown,
        step(m, e).0.cooldown_until == m.cooldown_until,
{
}

/// A backlog that trimming does not remove ends in a reconnect: polls of
/// buffers above the ceiling go from steady, by way of one catch-up and its
/// cooldown, to the reconnect.
pub proof fn law_persistent_backlog_reconnects(
    m: sync::Model,
    buffer_bytes: int,
    ring_ms: int,
    t1: int,
    t2: int,
    t3: int,
    t4: int,
)
    requires
        m.wf(),
        m.state is Steady,
        m.over_since is None,
        !m.meta_trigger,
        depth(m, buffer_bytes, ring_ms) > CEILING_MS,
        !m.gated(t1),
        t1 + SUSTAIN_MS <= t2,
        t2 + CATCHUP_WINDOW_MS <= t3,
        t3 + COOLDOWN_MS <= t4,
        t4 + COOLDOWN_MS <= u64::MAX,
    ensures
        ({
            let m1 = m.polled(buffer_bytes, ring_ms, t1).0;
            let m2 = m1.polled(buffer_bytes, ring_ms, t2).0;
            let m3 = m2.polled(buffer_bytes, ring_ms, t3).0;
            &&& m1.polled(buffer_bytes, ring_ms, t2).1 == m.trim_request()
            &&& m3.polled(buffer_bytes, ring_ms, t4).1 is Reconnect
            &&& m3.polled(buffer_bytes, ring_ms, t4).0.state is Reconnecting
        }),
{
}

/// A cooldown ends in a reconnect, whatever the depth, once the episode has
/// used up its catch-ups or its drop allowance.
pub proof fn law_used_up_episode_reconnects(
    m: sync::Model,
    buffer_bytes: int,
    ring_ms: int,
    now: int,
)
    requires
        m.state is Cooldown,
        !m.gated(now),
        now >= m.cooldown_until,
        m.sampled(buffer_bytes, ring_ms, now).used_up(),
    ensures
        m.polled(buffer_bytes, ring_ms, now).1 is Reconnect,
{
}

/// Whether an event makes a controller forget its episode.
pub open spec fn forgets(m: sync::Model, e: Event) -> bool {
    e matches Event::Poll { buffer_bytes, ring_ms, now } && !m.gated(now) && ({
        let calm = m.sampled(buffer_bytes, ring_ms, now).calm_since;
        calm is Some && now - calm->0 >= EPISODE_CLEAR_MS
    })
}

/// An episode that has used up its drop allowance is never trimmed again: as
/// long as it is not forgotten, nothing is asked for until the reconnect.
pub proof fn law_used_up_allowance_never_trims(m: sync::Model, events: Seq<Event>, i: int)
    requires
        m.state is CatchingUp || m.state is Cooldown,
        m.dropped_bytes_episode >= MAX_DROP_BYTES,
        0 <= i < events.len(),
        forall|j: int|
            0 <= j <= i ==> !forgets(after(m, events.take(j)), #[trigger] events[j]) && (
            events[j] matches Event::Trimmed { bytes } ==> bytes >= 0),
    ensures
        asked(m, events, i) is Nothing || asked(m, events, i) is Reconnect,
        ({
            let m2 = after(m, events.take(i + 1));
            &&& m2.dropped_bytes_episode >= MAX_DROP_BYTES
            &&& m2.state is CatchingUp || m2.state is Cooldown || m2.state is Reconnecting
        }),
    decreases i,
{
    lemma_after_take(m, events, i);
    if i == 0 {
        assert(events.take(0) =~= Seq::<Event>::empty());
    } else {
        law_used_up_allowance_never_trims(m, events, i - 1);
    }
    assert(!forgets(after(m, events.take(i)), events[i]));
}

/// And the reconnect comes: the first poll closes the window, and the first
/// one after the cooldown reconnects, unless the episode has been forgotten.
pub proof fn law_used_up_allowance_reconnects(m: sync::Model, first: Event, last: Event)
    requires
        m.state is CatchingUp,
        m.dropped_bytes_episode >= MAX_DROP_BYTES,
        first is Poll,
        last is Poll,
        !m.gated(first->Poll_now),
        !forgets(m, first),
        !forgets(step(m, first).0, last),
        first->Poll_now + COOLDOWN_MS <= last->Poll_now <= u64::MAX,
    ensures
        step(m, first).1 is Nothing,
        step(m, first).0.state is Cooldown,
        step(step(m, first).0, last).1 is Reconnect,
{
}

/// A controller that has asked for a reconnect asks for nothing more.
pub proof fn law_reconnect_is_final(m: sync::Model, events: Seq<Event>, i: int)
    requires
        m.state is Reconnecting,
        0 <= i < events.len(),
    ensures
        asked(m, events, i) is Nothing,
        after(m, events.take(i + 1)).state is Reconnecting,
        after(m, events.take(i + 1)).reconnects == m.reconnects,
    decreases i,
{
    lemma_after_take(m, events, i);
    if i == 0 {
        assert(events.take(0) =~= Seq::<Event>::empty());
    } else {
        law_reconnect_is_final(m, events, i - 1);
    }
}

/// The controller, had the listener's clock run `skew` ahead all along.
pub open spec fn skewed(m: sync::Model, skew: int) -> sync::Model {
    sync::Model {
        lag_ms: match m.lag_ms {
            Some(lag) => Some(lag + skew),
            None => None,
        },
        baseline_lag: match m.baseline_lag {
            Some(base) => Some(base + skew),
            None => None,
        },
        ..m
    }
}

/// An event, as seen with a clock that runs `skew` ahead.
pub open spec fn skewed_event(e: Event, skew: int) -> Event {
    match e {
        Event::Block { seq, lag } => Event::Block { seq, lag: lag + skew },
        _ => e,
    }
}

proof fn lemma_skew_step(m: sync::Model, e: Event, skew: int)
    ensures
        step(skewed(m, skew), skewed_event(e, skew)).0 == skewed(step(m, e).0, skew),
        step(skewed(m, skew), skewed_event(e, skew)).1 == step(m, e).1,
{
}

/// A constant clock skew is absorbed: whatever happens, a listener whose clock
/// is off by `skew` is asked for the same things, at the same events, and
/// reports the same excess lag, as one whose clock is right.
pub proof fn law_constant_skew_is_absorbed(kbps: int, events: Seq<Event>, skew: int, i: int)
    requires
        0 <= i < events.len(),
    ensures
        ({
            let m = sync::Model::fresh(kbps);
            let seen = events.map_values(|e: Event| skewed_event(e, skew));
            &&& asked(m, seen, i) == asked(m, events, i)
            &&& after(m, seen.take(i + 1)) == skewed(after(m, events.take(i + 1)), skew)
            &&& after(m, seen.take(i + 1)).excess_ms() == after(m, events.take(i + 1)).excess_ms()
        }),
    decreases i,
{
    let m = sync::Model::fresh(kbps);
    let seen = events.map_values(|e: Event| skewed_event(e, skew));
    assert(skewed(m, skew) == m);
    lemma_after_take(m, events, i);
    lemma_after_take(m, seen, i);
    if i == 0 {
        assert(events.take(0) =~= Seq::<Event>::empty());
        assert(seen.take(0) =~= Seq::<Event>::empty());
    } else {
        law_constant_skew_is_absorbed(kbps, events, skew, i - 1);
    }
    lemma_skew_step(after(m, events.take(i)), events[i], skew);
}

/// A repeated or slightly older block changes nothing at all.
pub proof fn law_stale_blocks_are_ignored(m: sync::Model, seq: int, lag: int, again: int)
    requires
        !m.stale(seq),
        seq - SEQ_RESET_SLACK <= again <= seq,
    ensures
        m.observed(seq, lag).0.observed(again, lag) == (
            m.observed(seq, lag).0,
            BlockVerdict::StaleSeq,
        ),
{
}

/// A restarted source re-anchors: its first block is the new baseline.
pub proof fn law_restart_re_anchors(m: sync::Model, seq: int, lag: int)
    requires
        m.settled(),
        m.restarted(seq),
    ensures
        m.observed(seq, lag).1 is Fresh,
        m.observed(seq, lag).0.excess_ms() == Some(0int),
        m.observed(seq, lag).0.last_seq == Some(seq),
{
}

/// The reported excess is never negative: the baseline is the least lag.
pub proof fn law_excess_is_never_negative(m: sync::Model)
    requires
        m.wf(),
    ensures
        m.excess_ms() matches Some(x) ==> x >= 0,
{
}

/// Turning milliseconds into bytes and back never adds time and loses less
/// than one byte and one millisecond of it; it loses nothing where the time is
/// a whole number of bytes.
pub proof fn law_conversions_agree(ms: int, kbps: int)
    requires
        0 <= ms,
        1 <= kbps,
        ms * kbps <= u64::MAX,
    ensures
        sync::ms_of(sync::bytes_of(ms, kbps), kbps) <= ms,
        (ms * kbps) % 8 == 0 ==> sync::ms_of(sync::bytes_of(ms, kbps), kbps) == ms,
        (ms - sync::ms_of(sync::bytes_of(ms, kbps), kbps)) * kbps < 8 + kbps,
{
    let bits = ms * kbps;
    let bytes = bits / 8;
    assert(0 <= bits) by (nonlinear_arith)
        requires
            0 <= ms,
            1 <= kbps,
            bits == ms * kbps,
    ;
    let back = (bytes * 8) / kbps;
    assert(bytes * 8 <= bits < bytes * 8 + 8);
    assert(back <= ms) by (nonlinear_arith)
        requires
            bytes * 8 <= ms * kbps,
            1 <= kbps,
            back == (bytes * 8) / kbps,
    ;
    if bits % 8 == 0 {
        assert(back == ms) by (nonlinear_arith)
            requires
                bytes * 8 == ms * kbps,
                1 <= kbps,
                back == (bytes * 8) / kbps,
        ;
    }
    assert((ms - back) * kbps < 8 + kbps) by (nonlinear_arith)
        requires
            ms * kbps < bytes * 8 + 8,
            1 <= kbps,
            back == (bytes * 8) / kbps,
    ;
}

// ---------------------------------------------------------------------------
// What the operations are for
// ---------------------------------------------------------------------------

/// The limits that the controller works by. A healthy listener sits eight
/// seconds behind the live edge, and each limit leaves room above the one
/// before.
pub proof fn law_limits()
    ensures
        TARGET_LAG_MS == 8_000,
        CATCHUP_AT_MS == 12_000,
        CEILING_MS == 15_000,
        TARGET_LAG_MS < SETTLE_MS == 10_000,
        SUSTAIN_MS == 3_000,
        CATCHUP_WINDOW_MS == 2_000,
        COOLDOWN_MS == 20_000,
        EPISODE_CLEAR_MS == 120_000,
        MAX_CATCHUPS_PER_EPISODE == 3,
        MAX_DROP_BYTES == 1_500_000,
        POLL_MS == 250,
        SEQ_RESET_SLACK == 32,
        DEFAULT_BITRATE_KBPS == 128,
{
}

/// Whether `ms` is the playing time of `bits` at a bitrate, in whole
/// milliseconds.
pub open spec fn plays_for(bits: int, kbps: int, ms: int) -> bool {
    ms * kbps <= bits < (ms + 1) * kbps
}

/// A quotient is the playing time of so many bits.
pub proof fn lemma_division(bits: int, kbps: int)
    requires
        0 <= bits,
        1 <= kbps,
    ensures
        plays_for(bits, kbps, bits / kbps),
{
    assert((bits / kbps) * kbps <= bits < (bits / kbps + 1) * kbps) by (nonlinear_arith)
        requires
            0 <= bits,
            1 <= kbps,
    ;
}

/// A kilobit a second is a bit a millisecond: so many bytes play for as many
/// milliseconds as their bits fill at the bitrate. Beyond what a counter holds
/// the bits are taken to be as many as it holds.
pub proof fn law_playing_time(bytes: u64, kbps: u32, ms: u64)
    requires
        call_ensures(bytes_to_ms, (bytes, kbps), ms),
    ensures
        kbps >= 1 && bytes * 8 <= u64::MAX ==> plays_for(bytes * 8, kbps as int, ms as int),
        kbps >= 1 && bytes * 8 > u64::MAX ==> plays_for(u64::MAX as int, kbps as int, ms as int),
        kbps == 0 && bytes * 8 <= u64::MAX ==> ms == bytes * 8,
        kbps == 0 && bytes * 8 > u64::MAX ==> ms == u64::MAX,
{
    if kbps >= 1 {
        lemma_division(bytes * 8, kbps as int);
        lemma_division(u64::MAX as int, kbps as int);
    }
}

/// As many bytes as fill so many milliseconds at a bitrate, less than one byte
/// short of it.
pub proof fn law_bytes_for_a_time(ms: u64, kbps: u32, bytes: u64)
    requires
        call_ensures(ms_to_bytes, (ms, kbps), bytes),
    ensures
        kbps >= 1 && ms * kbps <= u64::MAX ==> bytes * 8 <= ms * kbps < bytes * 8 + 8,
        kbps >= 1 && ms * kbps > u64::MAX ==> bytes == u64::MAX / 8,
        kbps == 0 ==> bytes * 8 <= ms < bytes * 8 + 8,
{
}

/// The wall clock reads what has passed since the epoch, and zero before it.
pub proof fn law_wall_clock(since: Option<u128>, ms: u64)
    requires
        call_ensures(wall_ms, (since,), ms),
    ensures
        since is None ==> ms == 0,
        since is Some ==> ms == since->0 % 0x1_0000_0000_0000_0000,
        since is Some && since->0 <= u64::MAX ==> ms == since->0,
{
}

/// Bitrates outside of what streams have are not believed.
pub open spec fn believed(told: int, kbps: int) -> bool {
    &&& 32 <= told <= 512 ==> kbps == told
    &&& told < 32 || told > 512 ==> kbps == 128
}

/// A new controller settles first. It has measured and done nothing.
pub proof fn law_controllers_start_fresh(told: u32, d: Drift)
    requires
        call_ensures(Drift::new, (told,), d),
    ensures
        d@.state is Settling,
        believed(told as int, d@.bitrate_kbps),
        d@.first_packet_at is None,
        d@.last_poll is None,
        d@.last_seq is None,
        d@.lag_ms is None,
        d@.baseline_lag is None,
        d@.over_since is None,
        d@.calm_since is None,
        d@.consecutive_excess == 0,
        !d@.meta_trigger,
        d@.catchups == 0,
        d@.reconnects == 0,
        d@.dropped_bytes_episode == 0,
        d@.dropped_bytes_total == 0,
        d@.buffer_bytes == 0,
        d@.local_ms == 0,
{
}

/// A new bitrate changes nothing else.
pub proof fn law_bitrates_are_believed_or_not(d: &mut Drift, told: u32)
    requires
        call_ensures(Drift::set_bitrate, (d, told), ()),
    ensures
        believed(told as int, final(d)@.bitrate_kbps),
        final(d)@ == (sync::Model { bitrate_kbps: final(d)@.bitrate_kbps, ..old(d)@ }),
{
}

/// The settle clock starts with the first packet and with no later one.
pub proof fn law_the_settle_clock_starts_once(d: &mut Drift, now: u64)
    requires
        call_ensures(Drift::first_packet, (d, now), ()),
    ensures
        old(d)@.first_packet_at is None ==> final(d)@.first_packet_at == Some(now as int),
        old(d)@.first_packet_at is Some ==> final(d)@ == old(d)@,
        final(d)@ == (sync::Model {
            first_packet_at: final(d)@.first_packet_at,
            ..old(d)@
        }),
{
}

/// What is discarded counts, towards the episode and in all, as far as the
/// counters go.
pub proof fn law_discarded_bytes_count(d: &mut Drift, bytes: u64)
    requires
        call_ensures(Drift::on_trimmed, (d, bytes), ()),
    ensures
        final(d)@ == (sync::Model {
            dropped_bytes_total: final(d)@.dropped_bytes_total,
            dropped_bytes_episode: final(d)@.dropped_bytes_episode,
            ..old(d)@
        }),
        counted(old(d)@.dropped_bytes_total + bytes, final(d)@.dropped_bytes_total),
        counted(old(d)@.dropped_bytes_episode + bytes, final(d)@.dropped_bytes_episode),
{
}

/// Whether a counter shows a number, or as much as it can.
pub open spec fn counted(x: int, shown: int) -> bool {
    &&& x <= u64::MAX ==> shown == x
    &&& x > u64::MAX ==> shown == u64::MAX
}

/// A block counts unless it repeats the last one or falls short of it by no
/// more than blocks out of order do. One that counts becomes the last one;
/// another changes nothing.
pub proof fn law_which_blocks_count(d: &mut Drift, url: &StreamUrl, now: u64, v: BlockVerdict)
    requires
        call_ensures(Drift::on_block, (d, url, now), v),
    ensures
        v is StaleSeq <==> {
            &&& old(d)@.last_seq is Some
            &&& old(d)@.last_seq->0 - 32 <= url.seq <= old(d)@.last_seq->0
        },
        v is StaleSeq ==> final(d)@ == old(d)@,
        !(v is StaleSeq) ==> final(d)@.last_seq == Some(url.seq as int),
        !(v is StaleSeq) ==> (v is Provisional <==> old(d)@.state is Settling),
        v is Provisional ==> final(d)@.lag_ms == old(d)@.lag_ms,
        v is Provisional ==> final(d)@.meta_trigger == old(d)@.meta_trigger,
        v is Provisional ==> {
            let restart = old(d)@.last_seq is Some && url.seq + 32 < old(d)@.last_seq->0;
            &&& restart ==> final(d)@.baseline_lag is None && final(d)@.consecutive_excess == 0
            &&& !restart ==> final(d)@.baseline_lag == old(d)@.baseline_lag
                && final(d)@.consecutive_excess == old(d)@.consecutive_excess
        },
{
}

/// The lag of a block is how long ago it was written, by the clock of the
/// listener, when it is heard. The least lag since the source started is the
/// baseline.
pub proof fn law_lag_is_measured_from_the_least(
    d: &mut Drift,
    url: &StreamUrl,
    now: u64,
    v: BlockVerdict,
)
    requires
        call_ensures(Drift::on_block, (d, url, now), v),
        v is Fresh,
    ensures
        ({
            let lag = clock(now as int) - url.wall_ms;
            let restart = old(d)@.last_seq is Some && url.seq + 32 < old(d)@.last_seq->0;
            let before = old(d)@.baseline_lag;
            &&& final(d)@.lag_ms == Some(lag)
            &&& final(d)@.baseline_lag is Some
            &&& restart || before is None ==> final(d)@.baseline_lag->0 == lag
            &&& !restart && before is Some ==> {
                &&& final(d)@.baseline_lag->0 <= lag
                &&& final(d)@.baseline_lag->0 <= before->0
                &&& final(d)@.baseline_lag->0 == lag || final(d)@.baseline_lag->0 == before->0
            }
        }),
{
    lemma_clock(now);
}

/// What the clock reads as a signed number.
pub open spec fn clock(now: int) -> int {
    if now <= i64::MAX {
        now
    } else {
        now - 0x1_0000_0000_0000_0000
    }
}

proof fn lemma_clock(now: u64)
    ensures
        now as i64 == clock(now as int),
{
    assert(now > 0x7fff_ffff_ffff_ffff ==> now as i64 == now - 0x1_0000_0000_0000_0000)
        by (bit_vector);
}

/// The lag of a block is excessive where it is more than seven seconds above
/// the baseline. Two such blocks in a row, over buffers that hold at least the
/// target, ask for a catch-up; any other block begins anew.
pub proof fn law_two_excessive_blocks_ask(
    d: &mut Drift,
    url: &StreamUrl,
    now: u64,
    v: BlockVerdict,
)
    requires
        call_ensures(Drift::on_block, (d, url, now), v),
        v is Fresh,
    ensures
        ({
            let lag = clock(now as int) - url.wall_ms;
            let restart = old(d)@.last_seq is Some && url.seq + 32 < old(d)@.last_seq->0;
            let above = lag - final(d)@.baseline_lag->0;
            let run = final(d)@.consecutive_excess;
            &&& above <= 7_000 ==> run == 0
            &&& above > 7_000 && !restart ==> run == old(d)@.consecutive_excess + 1
            &&& final(d)@.meta_trigger <==> old(d)@.meta_trigger || (run >= 2
                && old(d)@.local_ms >= 8_000)
        }),
{
    lemma_clock(now);
}

/// A block bears on nothing but what is measured of blocks.
pub proof fn law_blocks_leave_the_rest(d: &mut Drift, url: &StreamUrl, now: u64, v: BlockVerdict)
    requires
        call_ensures(Drift::on_block, (d, url, now), v),
    ensures
        final(d)@ == (sync::Model {
            last_seq: final(d)@.last_seq,
            lag_ms: final(d)@.lag_ms,
            baseline_lag: final(d)@.baseline_lag,
            consecutive_excess: final(d)@.consecutive_excess,
            meta_trigger: final(d)@.meta_trigger,
            ..old(d)@
        }),
{
}

/// Whether an event is a block that is measured.
pub open spec fn measures(m: sync::Model, e: Event) -> bool {
    e matches Event::Block { seq, lag } && m.observed(seq, lag).1 is Fresh
}

/// Whether an event is a block from a source that has restarted.
pub open spec fn restarts(m: sync::Model, e: Event) -> bool {
    e matches Event::Block { seq, .. } && m.last_seq is Some && seq + 32 < m.last_seq->0
}

/// Over any run of events without a restart of the source, the baseline is the
/// least of all the lags that were measured: none is smaller, and one of them
/// it is. The excess is by how much the last one is above it, so that a lag
/// that creeps up is never taken for a healthy one.
pub proof fn law_the_baseline_is_the_least_lag(m: sync::Model, events: Seq<Event>)
    requires
        m.lag_ms is None,
        m.baseline_lag is None,
        forall|j: int|
            0 <= j < events.len() ==> !restarts(after(m, events.take(j)), #[trigger] events[j]),
    ensures
        ({
            let end = after(m, events);
            &&& forall|j: int|
                0 <= j < events.len() && measures(after(m, events.take(j)), #[trigger] events[j])
                    ==> end.baseline_lag is Some && end.baseline_lag->0 <= events[j]->lag
            &&& end.baseline_lag is Some ==> exists|j: int|
                0 <= j < events.len() && measures(after(m, events.take(j)), #[trigger] events[j])
                    && events[j]->lag == end.baseline_lag->0
            &&& events.len() > 0 && measures(after(m, events.drop_last()), events.last()) ==> {
                &&& end.lag_ms == Some(events.last()->lag)
                &&& end.excess_ms() == Some(events.last()->lag - end.baseline_lag->0)
            }
        }),
{
    let n = events.len() as int;
    let bases = Seq::new((n + 1) as nat, |j: int| after(m, events.take(j)).baseline_lag);
    let lags = Seq::new(n as nat, |j: int| lag_at(after(m, events.take(j)), events[j]));
    assert(events.take(0) =~= Seq::<Event>::empty());
    assert(events.take(n) =~= events);
    assert forall|j: int| 0 <= j < n implies least_kept(
        bases[j],
        #[trigger] lags[j],
        bases[j + 1],
    ) by {
        assert(!restarts(after(m, events.take(j)), events[j]));
        lemma_after_take(m, events, j);
        lemma_baseline_step(after(m, events.take(j)), events[j]);
    }
    lemma_least(bases, lags);
    assert forall|j: int|
        0 <= j < n && measures(after(m, events.take(j)), #[trigger] events[j]) implies after(
        m,
        events,
    ).baseline_lag is Some && after(m, events).baseline_lag->0 <= events[j]->lag by {
        assert(lags[j] == Some(events[j]->lag));
    }
    if bases[n] is Some {
        let j = choose|j: int| 0 <= j < n && #[trigger] lags[j] == bases[n];
        assert(measures(after(m, events.take(j)), events[j]));
    }
    if n > 0 {
        assert(events.drop_last() =~= events.take(n - 1));
        assert(!restarts(after(m, events.take(n - 1)), events[n - 1]));
        lemma_baseline_step(after(m, events.take(n - 1)), events[n - 1]);
        lemma_after_take(m, events, n - 1);
    }
}

/// The lag that an event measures, if it measures one.
spec fn lag_at(m: sync::Model, e: Event) -> Option<int> {
    if measures(m, e) {
        Some(e->lag)
    } else {
        None
    }
}

/// Whether one step keeps the least of what was there and what was measured.
spec fn least_kept(before: Option<int>, lag: Option<int>, now: Option<int>) -> bool {
    match (before, lag) {
        (_, None) => now == before,
        (None, Some(x)) => now == Some(x),
        (Some(b), Some(x)) => now is Some && now->0 <= b && now->0 <= x && (now->0 == b || now->0
            == x),
    }
}

proof fn lemma_baseline_step(m: sync::Model, e: Event)
    requires
        !restarts(m, e),
    ensures
        least_kept(m.baseline_lag, lag_at(m, e), step(m, e).0.baseline_lag),
        measures(m, e) ==> step(m, e).0.lag_ms == Some(e->lag),
        measures(m, e) ==> step(m, e).0.excess_ms() == Some(
            e->lag - step(m, e).0.baseline_lag->0,
        ),
{
}

/// The least is kept over a run as in each of its steps.
proof fn lemma_least(bases: Seq<Option<int>>, lags: Seq<Option<int>>)
    requires
        bases.len() == lags.len() + 1,
        bases[0] is None,
        forall|j: int|
            0 <= j < lags.len() ==> least_kept(bases[j], #[trigger] lags[j], bases[j + 1]),
    ensures
        forall|j: int|
            0 <= j < lags.len() && (#[trigger] lags[j]) is Some ==> bases.last() is Some
                && bases.last()->0 <= lags[j]->0,
        bases.last() is Some ==> exists|j: int|
            0 <= j < lags.len() && #[trigger] lags[j] == bases.last(),
    decreases lags.len(),
{
    let n = lags.len() as int;
    if n > 0 {
        let b = bases.drop_last();
        let l = lags.drop_last();
        assert forall|j: int| 0 <= j < l.len() implies least_kept(
            b[j],
            #[trigger] l[j],
            b[j + 1],
        ) by {
            assert(l[j] == lags[j]);
        }
        lemma_least(b, l);
        assert(least_kept(bases[n - 1], lags[n - 1], bases[n - 1 + 1]));
        assert forall|j: int| 0 <= j < n && (#[trigger] lags[j]) is Some implies
            bases.last() is Some && bases.last()->0 <= lags[j]->0 by {
            if j < n - 1 {
                assert(l[j] == lags[j]);
            }
        }
        if bases.last() is Some && lags[n - 1] != bases.last() {
            let j = choose|j: int| 0 <= j < l.len() && #[trigger] l[j] == b.last();
            assert(lags[j] == bases.last());
        }
    }
}

/// Whether so many bytes are what plays for the target lag at a bitrate.
pub open spec fn lasts_the_target(keep: int, kbps: int) -> bool {
    keep * 8 <= 8_000 * kbps < keep * 8 + 8
}

/// Whatever the bitrate, a catch-up keeps as many bytes as play for the target
/// lag at that bitrate.
pub proof fn law_a_catch_up_keeps_the_target(
    d: &mut Drift,
    bytes: u64,
    ring_ms: u64,
    now: u64,
    a: Action,
)
    requires
        call_ensures(Drift::poll, (d, bytes, ring_ms, now), a),
        old(d)@.wf(),
    ensures
        a matches Action::CatchUp { keep_bytes } ==> lasts_the_target(
            keep_bytes as int,
            old(d)@.bitrate_kbps,
        ),
{
}

/// Whether a poll comes at least a quarter of a second after the last one.
pub open spec fn on_time(m: sync::Model, now: int) -> bool {
    m.last_poll is None || now >= m.last_poll->0 + 250
}

/// A poll that comes too soon does nothing. Any other measures the depth of the
/// buffers: what the bytes play for, and what waits in the output.
pub proof fn law_polls_measure_the_depth(
    d: &mut Drift,
    bytes: u64,
    ring_ms: u64,
    now: u64,
    a: Action,
)
    requires
        call_ensures(Drift::poll, (d, bytes, ring_ms, now), a),
        old(d)@.wf(),
    ensures
        !on_time(old(d)@, now as int) && now < u64::MAX ==> a is Nothing && final(d)@ == old(d)@,
        on_time(old(d)@, now as int) ==> {
            &&& final(d)@.last_poll == Some(now as int)
            &&& final(d)@.buffer_bytes == bytes
            &&& bytes * 8 <= u64::MAX ==> plays_for(
                bytes * 8,
                old(d)@.bitrate_kbps,
                final(d)@.local_ms - ring_ms,
            )
            &&& bytes * 8 > u64::MAX ==> plays_for(
                u64::MAX as int,
                old(d)@.bitrate_kbps,
                final(d)@.local_ms - ring_ms,
            )
        },
        final(d)@.bitrate_kbps == old(d)@.bitrate_kbps,
        final(d)@.first_packet_at == old(d)@.first_packet_at,
        final(d)@.last_seq == old(d)@.last_seq,
        final(d)@.lag_ms == old(d)@.lag_ms,
        final(d)@.baseline_lag == old(d)@.baseline_lag,
        final(d)@.dropped_bytes_total == old(d)@.dropped_bytes_total,
{
    lemma_division(bytes * 8, old(d)@.bitrate_kbps);
    lemma_division(u64::MAX as int, old(d)@.bitrate_kbps);
}

/// Buffers at or below the arming depth are calm. Two minutes of calm end the
/// episode: its catch-ups and what it discarded are forgotten, and only then.
pub proof fn law_calm_ends_the_episode(
    d: &mut Drift,
    bytes: u64,
    ring_ms: u64,
    now: u64,
    a: Action,
)
    requires
        call_ensures(Drift::poll, (d, bytes, ring_ms, now), a),
        old(d)@.wf(),
        on_time(old(d)@, now as int),
    ensures
        ({
            let calm = final(d)@.local_ms <= 12_000;
            let long = calm && old(d)@.calm_since is Some && now - old(d)@.calm_since->0
                >= 120_000;
            &&& !calm ==> final(d)@.calm_since is None
            &&& calm && old(d)@.calm_since is Some ==> final(d)@.calm_since == old(d)@.calm_since
            &&& calm && old(d)@.calm_since is None ==> final(d)@.calm_since == Some(now as int)
            &&& final(d)@.dropped_bytes_episode == (if long {
                0
            } else {
                old(d)@.dropped_bytes_episode
            })
            &&& !(old(d)@.state is Steady) ==> final(d)@.catchups == (if long {
                0
            } else {
                old(d)@.catchups
            })
            &&& old(d)@.state is Steady ==> final(d)@.catchups == (if long {
                0
            } else {
                old(d)@.catchups
            }) + (if a is CatchUp {
                1int
            } else {
                0
            })
        }),
{
}

/// A connection has settled ten seconds after its first packet; until then
/// nothing is asked for.
pub proof fn law_settling_takes_its_time(
    d: &mut Drift,
    bytes: u64,
    ring_ms: u64,
    now: u64,
    a: Action,
)
    requires
        call_ensures(Drift::poll, (d, bytes, ring_ms, now), a),
        old(d)@.wf(),
        on_time(old(d)@, now as int),
        old(d)@.state is Settling,
    ensures
        a is Nothing,
        ({
            let first = old(d)@.first_packet_at;
            if first is Some && now - first->0 >= 10_000 {
                final(d)@.state is Steady && final(d)@.over_since is None
            } else {
                final(d)@.state is Settling
            }
        }),
{
}

/// A steady controller begins a catch-up exactly when the buffers have been
/// above the arming depth for three seconds, or when the metadata has asked
/// for it and they hold at least the target. A catch-up lasts two seconds, and
/// what led to it is dealt with.
pub proof fn law_when_a_catch_up_begins(
    d: &mut Drift,
    bytes: u64,
    ring_ms: u64,
    now: u64,
    a: Action,
)
    requires
        call_ensures(Drift::poll, (d, bytes, ring_ms, now), a),
        old(d)@.wf(),
        on_time(old(d)@, now as int),
        old(d)@.state is Steady,
    ensures
        ({
            let deep = final(d)@.local_ms > 12_000;
            let since = old(d)@.over_since;
            let sustained = deep && since is Some && now - since->0 >= 3_000;
            let asked = old(d)@.meta_trigger && final(d)@.local_ms >= 8_000;
            &&& a is CatchUp <==> sustained || asked
            &&& a is CatchUp ==> {
                &&& final(d)@.state is CatchingUp
                &&& counted(now + 2_000, final(d)@.catchup_until)
                &&& final(d)@.over_since is None
                &&& !final(d)@.meta_trigger
                &&& final(d)@.consecutive_excess == 0
            }
            &&& !(a is CatchUp) ==> {
                &&& a is Nothing
                &&& final(d)@.state is Steady
                &&& final(d)@.meta_trigger == old(d)@.meta_trigger
                &&& final(d)@.consecutive_excess == old(d)@.consecutive_excess
                &&& !deep ==> final(d)@.over_since is None
                &&& deep && since is Some ==> final(d)@.over_since == since
                &&& deep && since is None ==> final(d)@.over_since == Some(now as int)
            }
        }),
{
}

/// A catch-up goes on until its two seconds are over, or the episode has
/// discarded all that it may. Twenty quiet seconds follow.
pub proof fn law_when_a_catch_up_ends(
    d: &mut Drift,
    bytes: u64,
    ring_ms: u64,
    now: u64,
    a: Action,
)
    requires
        call_ensures(Drift::poll, (d, bytes, ring_ms, now), a),
        old(d)@.wf(),
        on_time(old(d)@, now as int),
        old(d)@.state is CatchingUp,
    ensures
        ({
            let over = now >= old(d)@.catchup_until || final(d)@.dropped_bytes_episode
                >= 1_500_000;
            &&& a is CatchUp <==> !over
            &&& !over ==> final(d)@.state is CatchingUp
            &&& !over ==> final(d)@.catchup_until == old(d)@.catchup_until
            &&& over ==> a is Nothing && final(d)@.state is Cooldown && counted(
                now + 20_000,
                final(d)@.cooldown_until,
            )
        }),
{
}

/// Once the quiet period is over, a backlog above the ceiling, a third catch-up
/// or a used-up allowance lead to a reconnect. Otherwise trimming has held, and
/// the controller is steady again.
pub proof fn law_when_trimming_has_held(
    d: &mut Drift,
    bytes: u64,
    ring_ms: u64,
    now: u64,
    a: Action,
)
    requires
        call_ensures(Drift::poll, (d, bytes, ring_ms, now), a),
        old(d)@.wf(),
        on_time(old(d)@, now as int),
        old(d)@.state is Cooldown,
    ensures
        ({
            let over = now >= old(d)@.cooldown_until;
            let failed = final(d)@.local_ms > 15_000 || final(d)@.catchups >= 3
                || final(d)@.dropped_bytes_episode >= 1_500_000;
            &&& a is Reconnect <==> over && failed
            &&& !(a is Reconnect) ==> a is Nothing
            &&& !over ==> final(d)@.state is Cooldown
            &&& !over ==> final(d)@.cooldown_until == old(d)@.cooldown_until
            &&& over && failed ==> final(d)@.state is Reconnecting
            &&& over && failed ==> final(d)@.reconnects == old(d)@.reconnects + 1
            &&& over && !failed ==> final(d)@.state is Steady && final(d)@.over_since is None
        }),
{
}

/// After a reconnect was asked for, a connection asks for nothing.
pub proof fn law_a_reconnect_is_asked_for_once(
    d: &mut Drift,
    bytes: u64,
    ring_ms: u64,
    now: u64,
    a: Action,
)
    requires
        call_ensures(Drift::poll, (d, bytes, ring_ms, now), a),
        old(d)@.wf(),
        old(d)@.state is Reconnecting,
    ensures
        a is Nothing,
        final(d)@.state is Reconnecting,
        final(d)@.reconnects == old(d)@.reconnects,
{
}

/// A poll changes what it is about and leaves the rest: each deadline is set by
/// the step that begins what it ends, what the metadata asked for stands until
/// a catch-up begins, and reconnects are counted as they are asked for.
pub proof fn law_polls_leave_the_rest(
    d: &mut Drift,
    bytes: u64,
    ring_ms: u64,
    now: u64,
    a: Action,
)
    requires
        call_ensures(Drift::poll, (d, bytes, ring_ms, now), a),
        old(d)@.wf(),
    ensures
        final(d)@.reconnects == old(d)@.reconnects + (if a is Reconnect {
            1int
        } else {
            0
        }),
        !(old(d)@.state is Steady && a is CatchUp) ==> {
            &&& final(d)@.catchup_until == old(d)@.catchup_until
            &&& final(d)@.meta_trigger == old(d)@.meta_trigger
            &&& final(d)@.consecutive_excess == old(d)@.consecutive_excess
        },
        !(old(d)@.state is CatchingUp && final(d)@.state is Cooldown)
            ==> final(d)@.cooldown_until == old(d)@.cooldown_until,
        !(old(d)@.state is Steady) && !(final(d)@.state is Steady) ==> final(d)@.over_since
            == old(d)@.over_since,
{
}

/// A backlog is trimmed down to the target, not merely asked about: a pipe that
/// holds more than plays for the arming depth always holds more than a catch-up
/// keeps.
pub proof fn law_a_catch_up_has_something_to_trim(keep: int, kbps: int, held: int)
    requires
        32 <= kbps <= 512,
        lasts_the_target(keep, kbps),
        held * 8 >= 12_000 * kbps,
    ensures
        keep < held,
        (held - keep) * 8 >= 4_000 * kbps,
{
}

/// A report tells what was measured and done, and of the lag only once the
/// connection has settled.
pub proof fn law_reports_tell_the_truth(d: Drift, r: Report)
    requires
        call_ensures(Drift::report, (&d,), r),
        d@.wf(),
        d@.dropped_bytes_total * 8 <= u64::MAX,
    ensures
        r.state == d@.state,
        d@.state is Settling ==> r.lag_ms is None && r.excess_ms is None,
        r.lag_ms is Some <==> d@.lag_ms is Some,
        r.lag_ms matches Some(lag) ==> lag == d@.lag_ms->0,
        r.excess_ms is Some <==> d@.lag_ms is Some,
        r.excess_ms matches Some(x) ==> x == d@.lag_ms->0 - d@.baseline_lag->0,
        r.buffer_ms == d@.local_ms,
        r.buffer_bytes == d@.buffer_bytes,
        r.bitrate_kbps == d@.bitrate_kbps,
        plays_for(d@.dropped_bytes_total * 8, d@.bitrate_kbps, r.dropped_ms as int),
        r.catchups == d@.catchups,
        r.reconnects == d@.reconnects,
{
    lemma_division(d@.dropped_bytes_total * 8, d@.bitrate_kbps);
}

/// Ordinary polls and blocks can be taken: only counts that no machine reaches
/// cannot.
pub proof fn law_what_a_controller_can_take(
    d: Drift,
    bytes: u64,
    ring_ms: u64,
    now: u64,
    poll: bool,
    url: StreamUrl,
    block: bool,
)
    requires
        call_ensures(Drift::holds_poll, (&d, bytes, ring_ms, now), poll),
        call_ensures(Drift::holds_block, (&d, &url, now), block),
        d@.wf(),
    ensures
        ring_ms <= 0x4000_0000_0000_0000 ==> poll,
        now <= 0x1000_0000_0000_0000 && -0x1000_0000_0000_0000 <= url.wall_ms
            <= 0x1000_0000_0000_0000 && url.seq <= 0x1000_0000_0000_0000
            && d@.consecutive_excess < 0x1000_0000 && (d@.baseline_lag is Some
            ==> d@.baseline_lag->0 >= -0x4000_0000_0000_0000) ==> block,
{
    lemma_division(bytes * 8, d@.bitrate_kbps);
    lemma_division(u64::MAX as int, d@.bitrate_kbps);
    let bits: int = if bytes * 8 > u64::MAX {
        u64::MAX as int
    } else {
        bytes * 8
    };
    let ms = bits / d@.bitrate_kbps;
    assert(ms <= 0x0fff_ffff_ffff_ffff) by (nonlinear_arith)
        requires
            ms * d@.bitrate_kbps <= bits,
            bits <= 0xffff_ffff_ffff_ffff,
            d@.bitrate_kbps >= 32,
    ;
}

/// Each state has its name.
pub proof fn law_states_have_names(state: sync::State, name: &'static str)
    requires
        call_ensures(sync::State::as_str, (state,), name),
    ensures
        state is Settling ==> name@ == "settling"@,
        state is Steady ==> name@ == "steady"@,
        state is CatchingUp ==> name@ == "catching-up"@,
        state is Cooldown ==> name@ == "cooldown"@,
        state is Reconnecting ==> name@ == "reconnecting"@,
{
}

/// What can be asked of a controller is what it knows.
pub proof fn law_controllers_can_be_asked(d: Drift, kbps: u32, state: sync::State, settled: bool)
    requires
        call_ensures(Drift::bitrate_kbps, (&d,), kbps),
        call_ensures(Drift::state, (&d,), state),
        call_ensures(Drift::settled, (&d,), settled),
    ensures
        kbps == d@.bitrate_kbps,
        state == d@.state,
        settled <==> !(state is Settling),
{
}

} // verus!
