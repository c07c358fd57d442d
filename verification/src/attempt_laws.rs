//! What holds of an attempt as a whole.
//!
//! An attempt is a run of moves: each is a step of its own, or the report of
//! something that was done outside. Whatever becomes of the switches that are
//! begun on the way, the audio of the deck on air goes out whole and in order.

use crate::attempt;
use crate::attempt::{At, Scene, Settled, Todo};
use crate::deck;
use crate::deck::{Frames, Packet, Pull, CHUNK};
use crate::fault::{DeckEnd, Fault};
use crate::stream;
use crate::stream::StationInfo;
use crate::switch::{Heard, Side};
use vstd::prelude::*;

verus! {

// ---------------------------------------------------------------------------
// Single steps
// ---------------------------------------------------------------------------

/// How far a turn has come.
pub open spec fn progress(at: At) -> int {
    match at {
        At::Turn => 0,
        At::Fill => 1,
        At::Round => 2,
        At::Prime | At::Position | At::Fade => 3,
        At::Swap => 4,
        At::Ready => 5,
        At::Aired => 6,
    }
}

/// A turn never runs in circles: a step that asks for nothing outside brings
/// the turn further.
pub proof fn law_turns_move_on<S>(
    a: attempt::AttemptView<S>,
    scene: Scene,
    after: attempt::AttemptView<S>,
    todo: Todo<S>,
)
    requires
        a.wf(),
        a.proceeds(scene, after, todo),
        todo is Nothing,
    ensures
        progress(after.at) > progress(a.at),
{
}

/// From when a chunk is taken until it goes to the output, no step loses it or
/// takes another, and to abandon a switch leaves it as it is.
pub proof fn law_steps_keep_the_chunk<S>(
    a: attempt::AttemptView<S>,
    scene: Scene,
    after: attempt::AttemptView<S>,
    todo: Todo<S>,
)
    requires
        a.wf(),
        !(a.at is Turn) && !(a.at is Fill),
        a.proceeds(scene, after, todo),
    ensures
        after.chunk == a.chunk,
        a.abandoned().chunk == a.chunk,
        !(after.at is Turn) && !(after.at is Fill),
{
}

/// A step plays nothing of the deck on air but the chunk that it takes, unless
/// the deck has to be moved forward to meet the incoming one, or is replaced.
pub proof fn law_steps_play_whole_chunks<S>(
    a: attempt::AttemptView<S>,
    scene: Scene,
    after: attempt::AttemptView<S>,
    todo: Todo<S>,
)
    requires
        a.wf(),
        a.proceeds(scene, after, todo),
        !(a.at is Position && a.switch->0.inc->side is Playing),
        !(a.at is Swap),
    ensures
        after.active == (if a.at is Fill && todo is Nothing {
            a.active.left(CHUNK as int)
        } else {
            a.active
        }),
        a.at is Fill && todo is Nothing ==> after.chunk == a.active.fifo.take(2 * CHUNK),
{
}

/// To abandon a switch does nothing to the deck on air, and the attempt can
/// take up another one.
pub proof fn law_abandoning_spares_the_deck_on_air<S>(a: attempt::AttemptView<S>)
    requires
        a.wf(),
        a.chunk.len() == 2 * CHUNK,
    ensures
        a.abandoned().wf(),
        a.abandoned().active == a.active,
        a.abandoned().play == a.play,
        a.abandoned().switch is None,
{
}

/// The deck on air changes only at the end of a fade, or when it has ended
/// while another one was fading in: never before the other one is aligned.
pub proof fn law_only_an_aligned_deck_goes_on_air<S>(
    a: attempt::AttemptView<S>,
    scene: Scene,
    after: attempt::AttemptView<S>,
    todo: Todo<S>,
)
    requires
        a.wf(),
        todo is SwapIn,
        a.proceeds(scene, after, todo) || exists|side: Side, end: DeckEnd|
            a.ends(side, end, after, todo),
    ensures
        a.switch is Some,
        a.switch->0.inc is Fading,
        a.switch->0.deck == Some(after.active),
{
}

// ---------------------------------------------------------------------------
// Runs
// ---------------------------------------------------------------------------

/// One move of an attempt.
pub ghost enum Move<S> {
    /// A turn begins.
    Start,
    /// Another stream was opened alongside.
    Opening { url: Seq<char>, now: u64 },
    /// A step of its own.
    Proceed { scene: Scene, todo: Todo<S> },
    /// A packet was pulled, or not.
    Packet { side: Side, packet: Packet, net: Option<Fault>, next: Pull },
    /// A packet was decoded, or not.
    Frames { side: Side, frames: Frames<S>, net: Option<Fault>, next: Pull },
    /// A deck has ended.
    Ended { side: Side, end: DeckEnd, todo: Todo<S> },
    /// How the incoming connection stands.
    Link { net: Option<Fault>, buffered: int, closed: bool, now: u64, todo: Todo<S> },
    /// The incoming stream was opened.
    Opened { track_id: int, rate: int, now: u64 },
    /// The incoming stream could not be opened.
    Unopened,
    /// The estimate was made.
    Estimate { coarse: int },
    /// What was heard of the search.
    Heard { heard: Heard, now: u64, todo: Todo<S> },
    /// The incoming deck's part was mixed into the chunk.
    Mixed { chunk: Seq<S> },
    /// The chunk went to the output.
    Output { pipe: stream::PipeView, now: u64 },
    /// The connections were swapped.
    Swapped { pipe: stream::PipeView, station: Option<StationInfo>, now: u64 },
    /// A block was published.
    Publish { now: u64 },
    /// The controller looked after the drift.
    Control {
        pipe: stream::PipeView,
        ring_ms: int,
        now: u64,
        left: stream::PipeView,
        told: Settled,
    },
}

/// Whether a move makes `after` of an attempt.
pub open spec fn moves<S>(
    a: attempt::AttemptView<S>,
    m: Move<S>,
    after: attempt::AttemptView<S>,
) -> bool {
    match m {
        Move::Start => a.at is Turn && after == (attempt::AttemptView { at: At::Fill, ..a }),
        Move::Opening { url, now } => a.switch is None && after == a.opening(url, now),
        Move::Proceed { scene, todo } => a.proceeds(scene, after, todo),
        Move::Packet { side, packet, net, next } => {
            &&& after == a.with_deck(side, after.deck_of(side))
            &&& deck::packet_leads_to(a.deck_of(side), packet, net, after.deck_of(side), next)
        },
        Move::Frames { side, frames, net, next } => {
            &&& after == a.with_deck(side, after.deck_of(side))
            &&& deck::frames_lead_to(a.deck_of(side), frames, net, after.deck_of(side), next)
        },
        Move::Ended { side, end, todo } => a.ends(side, end, after, todo),
        Move::Link { net, buffered, closed, now, todo } => a.at is Round && a.links(
            net,
            buffered,
            closed,
            now as int,
            after,
            todo,
        ),
        Move::Opened { track_id, rate, now } => a.at is Round && after == a.opened(
            track_id,
            rate,
            now,
        ),
        Move::Unopened => a.at is Round && after == a.abandoned(),
        Move::Estimate { coarse } => a.at is Round && after == a.estimated(coarse),
        Move::Heard { heard, now, todo } => a.at is Round && a.heeds(
            heard,
            now as int,
            after,
            todo,
        ),
        Move::Mixed { chunk } => (a.at is Ready || a.at is Swap) && after
            == (attempt::AttemptView { chunk, ..a }),
        Move::Output { pipe, now } => a.at is Ready && after == a.aired(pipe, now as int),
        Move::Swapped { pipe, station, now } => after == a.swapped(
            pipe,
            station,
            now as int,
        ),
        Move::Publish { now } => a.pending.len() > 0 && after == a.published(now),
        Move::Control { pipe, ring_ms, now, left, told } => a.at is Aired && a.settles(
            pipe,
            ring_ms,
            now as int,
            after,
            left,
            told,
        ),
    }
}

/// Whether moves lead through states, one after the other.
pub open spec fn runs<S>(states: Seq<attempt::AttemptView<S>>, ms: Seq<Move<S>>) -> bool {
    &&& states.len() == ms.len() + 1
    &&& forall|i: int| 0 <= i < states.len() ==> (#[trigger] states[i]).wf()
    &&& forall|i: int| 0 <= i < ms.len() ==> moves(states[i], #[trigger] ms[i], states[i + 1])
}

/// What a move asks for, if it asks for anything.
pub open spec fn asks<S>(m: Move<S>) -> Option<Todo<S>> {
    match m {
        Move::Proceed { todo, .. } => Some(todo),
        Move::Ended { todo, .. } => Some(todo),
        Move::Link { todo, .. } => Some(todo),
        Move::Heard { todo, .. } => Some(todo),
        _ => None,
    }
}

/// Whether a switch fails with a move.
pub open spec fn fails<S>(m: Move<S>) -> bool {
    m is Unopened || (asks(m) matches Some(todo) && todo is Failed)
}

/// Whether another deck goes on air with a move.
pub open spec fn replaces<S>(m: Move<S>) -> bool {
    asks(m) matches Some(todo) && todo is SwapIn
}

/// Whether the deck on air is moved forward with a move, to meet the incoming
/// one.
pub open spec fn skips<S>(a: attempt::AttemptView<S>, m: Move<S>) -> bool {
    m matches Move::Proceed { todo, .. } && todo is Nothing && a.at is Position
        && a.switch->0.inc->side is Playing
}

/// The audio of the deck on air that a move takes for the listener.
pub open spec fn taken<S>(a: attempt::AttemptView<S>, m: Move<S>) -> Seq<S> {
    if m matches Move::Proceed { todo, .. } && todo is Nothing && a.at is Fill {
        a.active.fifo.take(2 * CHUNK)
    } else {
        Seq::empty()
    }
}

/// The audio of the deck on air that is decoded with a move.
pub open spec fn decoded<S>(m: Move<S>) -> Seq<S> {
    match m {
        Move::Frames { side: Side::Playing, frames: Frames::Decoded { samples, channels }, .. } => {
            deck::stereo(
                samples@,
                deck::width(channels as int),
                deck::frame_count(samples@.len() as int, channels as int) as nat,
            )
        },
        _ => Seq::empty(),
    }
}

/// All that was taken for the listener in a run.
pub open spec fn all_taken<S>(
    states: Seq<attempt::AttemptView<S>>,
    ms: Seq<Move<S>>,
) -> Seq<S>
    decreases ms.len(),
{
    if ms.len() == 0 {
        Seq::empty()
    } else {
        all_taken(states, ms.drop_last()) + taken(states[ms.len() - 1], ms.last())
    }
}

/// All that was decoded in a run.
pub open spec fn all_decoded<S>(ms: Seq<Move<S>>) -> Seq<S>
    decreases ms.len(),
{
    if ms.len() == 0 {
        Seq::empty()
    } else {
        all_decoded(ms.drop_last()) + decoded(ms.last())
    }
}

/// What one move takes leaves the deck on air, and what it decodes joins it.
proof fn lemma_move<S>(
    a: attempt::AttemptView<S>,
    m: Move<S>,
    after: attempt::AttemptView<S>,
)
    requires
        a.wf(),
        moves(a, m, after),
        !replaces(m),
        !skips(a, m),
    ensures
        taken(a, m) + after.active.fifo == a.active.fifo + decoded(m),
        2 * after.active.played_frames == 2 * a.active.played_frames + taken(a, m).len(),
{
    let fifo = a.active.fifo;
    assert(fifo + Seq::<S>::empty() =~= fifo);
    assert(Seq::<S>::empty() + after.active.fifo =~= after.active.fifo);
    if m matches Move::Proceed { todo, .. } && todo is Nothing && a.at is Fill {
        assert(fifo.take(2 * CHUNK) + fifo.skip(2 * CHUNK) =~= fifo);
    }
}

/// The first part of a run is a run.
proof fn lemma_run_before<S>(states: Seq<attempt::AttemptView<S>>, ms: Seq<Move<S>>)
    requires
        runs(states, ms),
        ms.len() > 0,
    ensures
        runs(states.drop_last(), ms.drop_last()),
        moves(states[ms.len() - 1], ms.last(), states.last()),
        all_taken(states.drop_last(), ms.drop_last()) == all_taken(states, ms.drop_last()),
{
    let s = states.drop_last();
    let k = ms.drop_last();
    assert(moves(states[ms.len() - 1], ms[ms.len() - 1], states[ms.len() - 1 + 1]));
    assert forall|i: int| 0 <= i < s.len() implies (#[trigger] s[i]).wf() by {
        assert(states[i].wf());
    }
    assert forall|i: int| 0 <= i < k.len() implies moves(s[i], #[trigger] k[i], s[i + 1]) by {
        assert(k[i] == ms[i]);
    }
    lemma_same_taken(states, s, k);
}

proof fn lemma_same_taken<S>(
    states: Seq<attempt::AttemptView<S>>,
    others: Seq<attempt::AttemptView<S>>,
    ms: Seq<Move<S>>,
)
    requires
        ms.len() <= states.len(),
        ms.len() <= others.len(),
        forall|i: int| 0 <= i < ms.len() ==> #[trigger] states[i] == others[i],
    ensures
        all_taken(states, ms) == all_taken(others, ms),
    decreases ms.len(),
{
    if ms.len() > 0 {
        lemma_same_taken(states, others, ms.drop_last());
    }
}

/// Whatever switches are begun and however they fail: as long as no other deck
/// goes on air and the one on air is not moved forward to meet it, the
/// listener is given its audio whole and in order. What was taken in a run,
/// followed by what is still waiting, is what was waiting before, followed by
/// what was decoded since.
pub proof fn law_failed_switches_lose_nothing<S>(
    states: Seq<attempt::AttemptView<S>>,
    ms: Seq<Move<S>>,
)
    requires
        runs(states, ms),
        forall|i: int|
            0 <= i < ms.len() ==> !replaces(#[trigger] ms[i]) && !skips(states[i], ms[i]),
    ensures
        all_taken(states, ms) + states.last().active.fifo == states[0].active.fifo + all_decoded(
            ms,
        ),
        2 * states.last().active.played_frames == 2 * states[0].active.played_frames + all_taken(
            states,
            ms,
        ).len(),
    decreases ms.len(),
{
    if ms.len() == 0 {
        assert(all_taken(states, ms) + states.last().active.fifo =~= states[0].active.fifo
            + all_decoded(ms));
    } else {
        let s = states.drop_last();
        let k = ms.drop_last();
        let m = ms.last();
        lemma_run_before(states, ms);
        assert forall|i: int| 0 <= i < k.len() implies !replaces(#[trigger] k[i]) && !skips(
            s[i],
            k[i],
        ) by {
            assert(k[i] == ms[i]);
        }
        law_failed_switches_lose_nothing(s, k);
        let a = states[ms.len() - 1];
        assert(s.last() == a);
        assert(s[0] == states[0]);
        assert(ms[ms.len() - 1] == m);
        lemma_move(a, m, states.last());
        let (before, now, fifo, left) = (
            all_taken(states, k),
            taken(a, m),
            a.active.fifo,
            states.last().active.fifo,
        );
        assert((before + now) + left =~= before + (now + left));
        assert(before + (fifo + decoded(m)) =~= (before + fifo) + decoded(m));
        assert((states[0].active.fifo + all_decoded(k)) + decoded(m) =~= states[0].active.fifo
            + all_decoded(ms));
    }
}

/// Whether a round of a switch is under way.
pub open spec fn in_round(at: At) -> bool {
    at is Round || at is Prime || at is Position || at is Fade
}

/// A round that ends with the failure of its switch leaves the deck on air
/// where it was: it has played no further, the audio that was next is next,
/// and the chunk to be heard is its own.
pub proof fn law_a_failing_round_changes_nothing_heard<S>(
    states: Seq<attempt::AttemptView<S>>,
    ms: Seq<Move<S>>,
)
    requires
        runs(states, ms),
        ms.len() > 0,
        forall|i: int| 0 <= i < ms.len() ==> in_round((#[trigger] states[i]).at),
        fails(ms.last()),
    ensures
        states.last().active.played_frames == states[0].active.played_frames,
        states.last().active.fifo == states[0].active.fifo + all_decoded(ms),
        states.last().chunk == states[0].chunk,
        states.last().at is Ready,
        states.last().switch is None,
{
    assert forall|i: int| 0 <= i < ms.len() implies !replaces(#[trigger] ms[i]) && !skips(
        states[i],
        ms[i],
    ) by {
        assert(moves(states[i], ms[i], states[i + 1]));
        assert(states[i].wf());
        lemma_round_move(states[i], ms[i], states[i + 1]);
    }
    law_failed_switches_lose_nothing(states, ms);
    lemma_round_takes_nothing(states, ms);
    assert(moves(states[ms.len() - 1], ms[ms.len() - 1], states[ms.len() - 1 + 1]));
    lemma_round_keeps_chunk(states, ms, ms.len() as int);
    assert(Seq::<S>::empty() + states.last().active.fifo =~= states.last().active.fifo);
}

/// Within a round, neither is the deck on air replaced or moved forward, nor
/// is its chunk another.
proof fn lemma_round_move<S>(
    a: attempt::AttemptView<S>,
    m: Move<S>,
    after: attempt::AttemptView<S>,
)
    requires
        a.wf(),
        moves(a, m, after),
        in_round(a.at),
        in_round(after.at) || fails(m),
    ensures
        !replaces(m),
        !skips(a, m),
        taken(a, m) == Seq::<S>::empty(),
        after.chunk == a.chunk,
{
}

proof fn lemma_round_takes_nothing<S>(
    states: Seq<attempt::AttemptView<S>>,
    ms: Seq<Move<S>>,
)
    requires
        ms.len() <= states.len(),
        forall|i: int| 0 <= i < ms.len() ==> in_round((#[trigger] states[i]).at),
    ensures
        all_taken(states, ms) == Seq::<S>::empty(),
    decreases ms.len(),
{
    if ms.len() > 0 {
        lemma_round_takes_nothing(states, ms.drop_last());
        assert(in_round(states[ms.len() - 1].at));
        assert(all_taken(states, ms) =~= Seq::<S>::empty());
    }
}

proof fn lemma_round_keeps_chunk<S>(
    states: Seq<attempt::AttemptView<S>>,
    ms: Seq<Move<S>>,
    n: int,
)
    requires
        runs(states, ms),
        0 <= n <= ms.len(),
        forall|i: int| 0 <= i < ms.len() ==> in_round((#[trigger] states[i]).at),
        ms.len() > 0,
        fails(ms.last()),
    ensures
        states[n].chunk == states[0].chunk,
    decreases n,
{
    if n > 0 {
        lemma_round_keeps_chunk(states, ms, n - 1);
        assert(moves(states[n - 1], ms[n - 1], states[n - 1 + 1]));
        assert(states[n - 1].wf());
        lemma_round_move(states[n - 1], ms[n - 1], states[n]);
    }
}

} // verus!
