//! Laws of the turns of an attempt: what each step and each report leads to.

use crate::attempt;
use crate::attempt::{At, Attempt, Scene, Settled, Started, Todo};
use crate::deck;
use crate::deck::{Deck, Frames, Packet, Pull};
use crate::deck_laws;
use crate::events::BlockEvents;
use crate::events_laws;
use crate::fault::{DeckEnd, DecodeOutcome, Fault};
use crate::icy::{Block, StreamUrl};
use crate::playback;
use crate::playback::{Control, Playback};
use crate::playback_laws;
use crate::stream::{BytePipe, StationInfo};
use crate::stream_laws;
use crate::switch;
use crate::switch::{Heard, Heeded, Incoming, Primed, Side, Stage, Switch};
use crate::sync;
use crate::sync::{BlockVerdict, Drift};
use crate::sync_laws;
use vstd::prelude::*;

verus! {

/// An attempt begins with its deck, before its first turn, and with no switch
/// under way.
pub proof fn law_attempts_begin_with_a_turn<S: Copy>(
    active: Deck<S>,
    station: Option<&StationInfo>,
    a: Attempt<S>,
)
    requires
        call_ensures(Attempt::<S>::new, (active, station), a),
    ensures
        a@.active == active@,
        a@.at is Turn,
        a@.switch is None,
        a@.ended is None,
        a@.pending.len() == 0,
        a@.depth == 0,
        !a@.play.live,
        !a@.play.station_sent,
        a@.play.last_title.len() == 0,
        playback_laws::fresh_controller(a@.play.drift),
        station is Some ==> sync_laws::believed(
            station->0.bitrate_kbps as int,
            a@.play.drift.bitrate_kbps,
        ),
{
}

/// What can be asked of an attempt is what it has.
pub proof fn law_attempts_can_be_asked<S: Copy>(
    a: Attempt<S>,
    active: &Deck<S>,
    accepts: bool,
    switch: Option<&Switch<S>>,
    chunk: &Vec<S>,
    block: Option<&Block>,
)
    requires
        call_ensures(Attempt::<S>::active, (&a,), active),
        call_ensures(Attempt::<S>::accepts_request, (&a,), accepts),
        call_ensures(Attempt::<S>::switch, (&a,), switch),
        call_ensures(Attempt::<S>::chunk, (&a,), chunk),
        call_ensures(Attempt::<S>::next_block, (&a,), block),
    ensures
        active@ == a@.active,
        accepts <==> a@.switch is None,
        switch is Some <==> a@.switch is Some,
        switch matches Some(s) ==> s@ == a@.switch->0,
        chunk@ == a@.chunk,
        block is Some <==> a@.pending.len() > 0,
        block matches Some(b) ==> b@ == a@.pending[0],
{
}

/// A turn begins with what was asked for: nothing for the stream that is
/// playing, another tuning as long as nothing was heard, and a switch
/// afterwards.
pub proof fn law_how_a_turn_begins<S: Copy>(
    a: &mut Attempt<S>,
    url: &String,
    request: Option<String>,
    s: Started,
)
    requires
        call_ensures(Attempt::<S>::start, (a, url, request), s),
    ensures
        final(a)@ == (attempt::AttemptView { at: At::Fill, ..old(a)@ }),
        s is Go <==> request is None || request->0@ == url@,
        request matches Some(next) ==> {
            &&& next@ != url@ && old(a)@.play.live ==> s is Open
            &&& next@ != url@ && !old(a)@.play.live ==> s is Retune
            &&& s matches Started::Open(u) ==> u@ == next@
            &&& s matches Started::Retune(u) ==> u@ == next@
        },
{
}

/// A switch that is opened is waited for; nothing else changes.
pub proof fn law_switches_are_opened_beside<S: Copy>(a: &mut Attempt<S>, url: String, now: u64)
    requires
        call_ensures(Attempt::<S>::open, (a, url, now), ()),
    ensures
        final(a)@ == (attempt::AttemptView { switch: final(a)@.switch, ..old(a)@ }),
        final(a)@.switch is Some,
        final(a)@.switch->0.url == url@,
        final(a)@.switch->0.inc == (Incoming::Linking { since: now }),
        final(a)@.switch->0.deck is None,
{
}

// ---------------------------------------------------------------------------
// Steps
// ---------------------------------------------------------------------------

/// Blocks that are due are published before anything else.
pub proof fn law_publishing_comes_first<S: Copy>(a: &mut Attempt<S>, scene: Scene, todo: Todo<S>)
    requires
        call_ensures(Attempt::<S>::proceed, (a, scene), todo),
    ensures
        todo is Publish <==> old(a)@.pending.len() > 0,
        todo is Publish ==> final(a)@ == old(a)@,
{
}

/// Each turn takes one chunk, the next of the deck on air, as soon as it is
/// decoded; a switch under way then has its round.
pub proof fn law_a_turn_takes_a_chunk<S: Copy>(a: &mut Attempt<S>, scene: Scene, todo: Todo<S>)
    requires
        call_ensures(Attempt::<S>::proceed, (a, scene), todo),
        old(a)@.wf(),
        old(a)@.pending.len() == 0,
        old(a)@.at is Fill,
    ensures
        ({
            let d = old(a)@.active;
            let enough = d.decoded_frames - d.played_frames >= 1_152;
            &&& !enough ==> todo == Todo::<S>::Pull(Side::Playing) && final(a)@ == old(a)@
            &&& enough ==> {
                &&& todo is Nothing
                &&& final(a)@.chunk + final(a)@.active.fifo == d.fifo
                &&& final(a)@.chunk.len() == 2_304
                &&& final(a)@.active.played_frames == d.played_frames + 1_152
                &&& deck_laws::follows(d, final(a)@.active)
                &&& final(a)@.ended is None
                &&& final(a)@.at is Round <==> old(a)@.switch is Some
                &&& final(a)@.at is Ready <==> old(a)@.switch is None
                &&& final(a)@ == (attempt::AttemptView {
                    active: final(a)@.active,
                    chunk: final(a)@.chunk,
                    ended: None,
                    at: final(a)@.at,
                    ..old(a)@
                })
            }
        }),
{
    let d = old(a)@.active;
    if d.decoded_frames - d.played_frames >= 1_152 {
        assert(d.fifo.take(2_304) + d.fifo.skip(2_304) =~= d.fifo);
        deck_laws::lemma_follows(d, 1_152);
    }
}

/// What a round does depends on how far the switch has come.
pub proof fn law_what_a_round_does<S: Copy>(a: &mut Attempt<S>, scene: Scene, todo: Todo<S>)
    requires
        call_ensures(Attempt::<S>::proceed, (a, scene), todo),
        old(a)@.pending.len() == 0,
        old(a)@.at is Round,
    ensures
        ({
            let inc = old(a)@.switch->0.inc;
            &&& inc is Linking ==> todo is Link && final(a)@ == old(a)@
            &&& inc is Priming ==> todo is Estimate && final(a)@ == old(a)@
            &&& inc is Aligning ==> todo is Listen && final(a)@ == old(a)@
            &&& inc is Positioning ==> todo is Nothing && final(a)@ == (attempt::AttemptView {
                at: At::Position,
                ..old(a)@
            })
            &&& inc is Fading ==> todo is Nothing && final(a)@ == (attempt::AttemptView {
                at: At::Fade,
                ..old(a)@
            })
        }),
{
}

/// Priming goes as the switch says; one that gives up is abandoned, and the
/// deck on air plays on.
pub proof fn law_priming_goes_as_the_switch_says<S: Copy>(
    a: &mut Attempt<S>,
    scene: Scene,
    todo: Todo<S>,
    s: &mut Switch<S>,
    active: &Deck<S>,
    next: Primed,
)
    requires
        call_ensures(Attempt::<S>::proceed, (a, scene), todo),
        old(a)@.wf(),
        old(a)@.pending.len() == 0,
        old(a)@.at is Prime,
        call_ensures(
            Switch::<S>::prime,
            (s, active, scene.held_incoming, scene.held_playing, scene.now),
            next,
        ),
        Some(old(s)@) == old(a)@.switch,
        active@ == old(a)@.active,
    ensures
        next matches Primed::Pull(side) ==> todo == Todo::<S>::Pull(side) && final(a)@ == (
        attempt::AttemptView { switch: Some(final(s)@), ..old(a)@ }),
        next matches Primed::Search(search) ==> todo == Todo::<S>::Search(search) && final(a)@
            == (attempt::AttemptView { switch: Some(final(s)@), at: At::Ready, ..old(a)@ }),
        next is Wait ==> todo is Nothing && final(a)@ == (attempt::AttemptView {
            switch: Some(final(s)@),
            at: At::Ready,
            ..old(a)@
        }),
        next is Retune ==> todo is Retune && todo->Retune_0@ == old(a)@.switch->0.url && final(a)@
            == old(a)@,
        next is GiveUp ==> todo is Failed && todo->Failed_0.code@ == "timeout"@
            && todo->Failed_0.message@ == "Stream did not align in time"@ && final(a)@ == (
        attempt::AttemptView { switch: None, at: At::Ready, ..old(a)@ }),
{
}

/// Positioning goes as the switch says; once it is done the chunk is ready.
pub proof fn law_positioning_goes_as_the_switch_says<S: Copy>(
    a: &mut Attempt<S>,
    scene: Scene,
    todo: Todo<S>,
    s: &mut Switch<S>,
    active: &mut Deck<S>,
    more: Option<Side>,
)
    requires
        call_ensures(Attempt::<S>::proceed, (a, scene), todo),
        old(a)@.wf(),
        old(a)@.pending.len() == 0,
        old(a)@.at is Position,
        call_ensures(Switch::<S>::position, (s, active), more),
        Some(old(s)@) == old(a)@.switch,
        old(active)@ == old(a)@.active,
    ensures
        more is Some ==> todo == Todo::<S>::Pull(more->0),
        more is None ==> todo is Nothing,
        final(a)@ == (attempt::AttemptView {
            switch: Some(final(s)@),
            active: final(active)@,
            at: if more is Some {
                At::Position
            } else {
                At::Ready
            },
            ..old(a)@
        }),
{
}

/// A fade mixes one chunk of the incoming deck a turn, and after the last one
/// that deck goes on air.
pub proof fn law_a_fade_mixes_a_chunk<S: Copy>(a: &mut Attempt<S>, scene: Scene, todo: Todo<S>)
    requires
        call_ensures(Attempt::<S>::proceed, (a, scene), todo),
        old(a)@.wf(),
        old(a)@.pending.len() == 0,
        old(a)@.at is Fade,
    ensures
        ({
            let b = old(a)@.switch->0.deck->0;
            let inc = old(a)@.switch->0.inc;
            let enough = b.decoded_frames - b.played_frames >= 1_152;
            &&& !enough ==> todo == Todo::<S>::Pull(Side::Incoming) && final(a)@ == old(a)@
            &&& enough ==> {
                &&& todo is Mix
                &&& todo->Mix_0.samples@ + final(a)@.switch->0.deck->0.fifo == b.fifo
                &&& todo->Mix_0.samples@.len() == 2_304
                &&& todo->Mix_0.done == inc->done
                &&& todo->Mix_0.total == inc->total
                &&& todo->Mix_0.complete <==> inc->done + 1_152 >= inc->total
                &&& final(a)@.at == (if inc->done + 1_152 >= inc->total {
                    At::Swap
                } else {
                    At::Ready
                })
                &&& final(a)@.switch->0.deck->0.played_frames == b.played_frames + 1_152
                &&& final(a)@.switch->0.inc is Fading
                &&& inc->done + 1_152 <= usize::MAX ==> final(a)@.switch->0.inc->done == inc->done
                    + 1_152
                &&& final(a)@.switch->0.inc->total == inc->total
                &&& final(a)@.switch->0.inc->Fading_fine == inc->Fading_fine
                &&& deck_laws::follows(b, final(a)@.switch->0.deck->0)
                &&& final(a)@ == (attempt::AttemptView {
                    switch: Some(
                        switch::SwitchView {
                            inc: final(a)@.switch->0.inc,
                            deck: final(a)@.switch->0.deck,
                            ..old(a)@.switch->0
                        },
                    ),
                    at: final(a)@.at,
                    ..old(a)@
                })
            }
        }),
{
    let b = old(a)@.switch->0.deck->0;
    if b.decoded_frames - b.played_frames >= 1_152 {
        assert(b.fifo.take(2_304) + b.fifo.skip(2_304) =~= b.fifo);
        deck_laws::lemma_follows(b, 1_152);
    }
}

/// After the last chunk of a fade the incoming deck is the one on air, and the
/// switch is over.
pub proof fn law_the_faded_deck_goes_on_air<S: Copy>(
    a: &mut Attempt<S>,
    scene: Scene,
    todo: Todo<S>,
)
    requires
        call_ensures(Attempt::<S>::proceed, (a, scene), todo),
        old(a)@.pending.len() == 0,
        old(a)@.at is Swap,
    ensures
        todo == (Todo::<S>::SwapIn { fine: old(a)@.switch->0.inc->Fading_fine }),
        final(a)@ == (attempt::AttemptView {
            active: old(a)@.switch->0.deck->0,
            switch: None,
            at: At::Ready,
            ..old(a)@
        }),
{
}

/// A turn starts, its chunk goes out, and the drift is looked after.
pub proof fn law_how_a_turn_goes<S: Copy>(a: &mut Attempt<S>, scene: Scene, todo: Todo<S>)
    requires
        call_ensures(Attempt::<S>::proceed, (a, scene), todo),
        old(a)@.pending.len() == 0,
    ensures
        old(a)@.at is Turn ==> todo is Start && final(a)@ == old(a)@,
        old(a)@.at is Ready ==> todo is Output && final(a)@ == old(a)@,
        old(a)@.at is Aired ==> todo is Control && final(a)@ == old(a)@,
{
}

// ---------------------------------------------------------------------------
// Reports
// ---------------------------------------------------------------------------

/// Whether a report on one deck bears on that deck alone.
pub open spec fn bears_on<S>(
    before: attempt::AttemptView<S>,
    after: attempt::AttemptView<S>,
    side: Side,
    was: deck::DeckView<S>,
    is: deck::DeckView<S>,
) -> bool {
    &&& side is Playing ==> {
        &&& before.active == was
        &&& after == (attempt::AttemptView { active: is, ..before })
    }
    &&& side is Incoming ==> {
        &&& before.switch is Some
        &&& before.switch->0.deck == Some(was)
        &&& after == (attempt::AttemptView {
            switch: Some(switch::SwitchView { deck: Some(is), ..before.switch->0 }),
            ..before
        })
    }
}

/// The deck that is meant by a side.
pub open spec fn meant<S>(a: attempt::AttemptView<S>, side: Side) -> deck::DeckView<S> {
    if side is Playing {
        a.active
    } else {
        a.switch->0.deck->0
    }
}

/// A packet goes to the deck that it was read for, and does there what packets
/// do.
pub proof fn law_packets_go_to_their_deck<S: Copy>(
    a: &mut Attempt<S>,
    side: Side,
    packet: Packet,
    net: Option<Fault>,
    next: Pull,
    d: &mut Deck<S>,
    alone: Pull,
)
    requires
        call_ensures(Attempt::<S>::on_packet, (a, side, packet, net), next),
        call_ensures(Deck::<S>::on_packet, (d, packet, net), alone),
        old(d)@ == meant(old(a)@, side),
        side is Incoming ==> old(a)@.switch is Some && old(a)@.switch->0.deck is Some,
    ensures
        bears_on(old(a)@, final(a)@, side, old(d)@, final(d)@),
        next is Decode <==> alone is Decode,
        next is Again <==> alone is Again,
        next is End <==> alone is End,
{
}

/// Audio goes to the deck that it was decoded for, and does there what audio
/// does.
pub proof fn law_audio_goes_to_its_deck<S: Copy>(
    a: &mut Attempt<S>,
    side: Side,
    frames: Frames<S>,
    net: Option<Fault>,
    next: Pull,
    d: &mut Deck<S>,
    alone: Pull,
)
    requires
        call_ensures(Attempt::<S>::on_frames, (a, side, frames, net), next),
        call_ensures(Deck::<S>::on_frames, (d, frames, net), alone),
        old(d)@ == meant(old(a)@, side),
        side is Incoming ==> old(a)@.switch is Some && old(a)@.switch->0.deck is Some,
    ensures
        bears_on(old(a)@, final(a)@, side, old(d)@, final(d)@),
        next is Done <==> alone is Done,
        next is Again <==> alone is Again,
        next is End <==> alone is End,
{
}

/// The end of the deck on air is the end of the attempt, unless another one is
/// fading in: that one takes over, and only where it gives no audio either is
/// the first end the outcome.
pub proof fn law_the_end_of_the_deck_on_air<S: Copy>(
    a: &mut Attempt<S>,
    end: DeckEnd,
    todo: Todo<S>,
)
    requires
        call_ensures(Attempt::<S>::on_ended, (a, Side::Playing, end), todo),
        old(a)@.at is Fill,
    ensures
        ({
            let fading = old(a)@.switch is Some && old(a)@.switch->0.inc is Fading;
            let first = old(a)@.ended;
            &&& first is None && fading ==> {
                &&& todo == (Todo::<S>::SwapIn { fine: old(a)@.switch->0.inc->Fading_fine })
                &&& final(a)@ == (attempt::AttemptView {
                    active: old(a)@.switch->0.deck->0,
                    switch: None,
                    ended: Some(end),
                    ..old(a)@
                })
            }
            &&& first is None && !fading ==> {
                &&& outcome_is(todo, end)
                &&& final(a)@ == (attempt::AttemptView { switch: None, ..old(a)@ })
            }
            &&& first is Some ==> outcome_is(todo, first->0) && final(a)@ == old(a)@
        }),
{
}

/// Whether the attempt ends as a deck did.
pub open spec fn outcome_is<S>(todo: Todo<S>, end: DeckEnd) -> bool {
    &&& todo is End
    &&& end is Ended ==> todo->End_0 is Ended
    &&& end matches DeckEnd::Failed(f) ==> todo->End_0 == DecodeOutcome::Failed(f)
}

/// Where a deck ends during a round: without the incoming deck there is no
/// switch, nor without the audio that it is to be aligned with; the audio that
/// is decoded of the deck on air can still be searched.
pub proof fn law_ends_during_a_round<S: Copy>(
    a: &mut Attempt<S>,
    side: Side,
    end: DeckEnd,
    todo: Todo<S>,
)
    requires
        call_ensures(Attempt::<S>::on_ended, (a, side, end), todo),
        old(a)@.at is Prime || old(a)@.at is Position || old(a)@.at is Fade,
    ensures
        side is Incoming || old(a)@.at is Position ==> {
            &&& todo is Failed
            &&& end matches DeckEnd::Failed(f) ==> todo->Failed_0 == f
            &&& end is Ended ==> todo->Failed_0.code@ == "dropped"@ && todo->Failed_0.message@
                == "Incoming stream ended"@
            &&& final(a)@ == (attempt::AttemptView { switch: None, at: At::Ready, ..old(a)@ })
        },
        side is Playing && old(a)@.at is Prime ==> {
            &&& todo is Nothing
            &&& final(a)@ == (attempt::AttemptView {
                switch: Some(
                    switch::SwitchView { stage: Stage::Over, ..old(a)@.switch->0 },
                ),
                ..old(a)@
            })
        },
        side is Playing && old(a)@.at is Fade ==> todo is Nothing && final(a)@ == old(a)@,
{
}

/// At any other time nothing is asked of a deck, and its end changes nothing.
pub proof fn law_ends_at_other_times<S: Copy>(
    a: &mut Attempt<S>,
    side: Side,
    end: DeckEnd,
    todo: Todo<S>,
)
    requires
        call_ensures(Attempt::<S>::on_ended, (a, side, end), todo),
        !(old(a)@.at is Prime || old(a)@.at is Position || old(a)@.at is Fade),
        side is Incoming || !(old(a)@.at is Fill),
    ensures
        todo is Nothing,
        final(a)@ == old(a)@,
{
}

/// Linking goes as the switch says.
pub proof fn law_linking_goes_as_the_switch_says<S: Copy>(
    a: &mut Attempt<S>,
    net: Option<Fault>,
    buffered: usize,
    closed: bool,
    now: u64,
    todo: Todo<S>,
)
    requires
        call_ensures(Attempt::<S>::on_link, (a, net, buffered, closed, now), todo),
        old(a)@.switch is Some,
        old(a)@.switch->0.inc is Linking,
    ensures
        ({
            let late = now > old(a)@.switch->0.inc->Linking_since + 15_000;
            &&& todo is Probe <==> net is None && buffered >= 32_768
            &&& todo is Nothing <==> net is None && buffered < 32_768 && !closed && !late
            &&& todo is Failed <==> net is Some || (buffered < 32_768 && (closed || late))
            &&& net is Some ==> todo->Failed_0 == net->0
            &&& todo is Failed && net is None && closed ==> todo->Failed_0.code@ == "dropped"@
                && todo->Failed_0.message@ == "Stream ended before it started"@
            &&& todo is Failed && net is None && !closed ==> todo->Failed_0.code@ == "timeout"@
                && todo->Failed_0.message@ == "Stream did not answer in time"@
            &&& todo is Probe ==> final(a)@ == old(a)@
            &&& todo is Nothing ==> final(a)@ == (attempt::AttemptView { at: At::Ready, ..old(a)@ })
            &&& todo is Failed ==> final(a)@ == (attempt::AttemptView {
                switch: None,
                at: At::Ready,
                ..old(a)@
            })
        }),
{
}

/// A stream that was opened is primed from then on; one that was not ends the
/// switch with its fault.
pub proof fn law_what_follows_a_probe<S: Copy>(
    a: &mut Attempt<S>,
    track_id: u32,
    rate: Option<u32>,
    now: u64,
    b: &mut Attempt<S>,
    f: Fault,
    todo: Todo<S>,
    fresh: Deck<S>,
)
    requires
        call_ensures(Deck::<S>::new, (track_id, rate), fresh),
        call_ensures(Attempt::<S>::on_opened, (a, track_id, rate, now), ()),
        call_ensures(Attempt::<S>::on_unopened, (b, f), todo),
        old(a)@.switch is Some,
    ensures
        final(a)@ == (attempt::AttemptView {
            at: At::Ready,
            switch: final(a)@.switch,
            ..old(a)@
        }),
        final(a)@.switch is Some,
        final(a)@.switch->0.url == old(a)@.switch->0.url,
        final(a)@.switch->0.inc == (Incoming::Priming { since: now, retries: 0, not_before: 0 }),
        final(a)@.switch->0.deck == Some(fresh@),
        ({
            let d = final(a)@.switch->0.deck->0;
            &&& d.track_id == track_id
            &&& rate is Some && rate->0 > 0 ==> d.rate == rate->0
            &&& rate is None ==> d.rate == 44_100
            &&& d.fifo.len() == 0
            &&& d.decoded_frames == 0
            &&& d.played_frames == 0
            &&& d.demuxed == 0
        }),
        todo == Todo::<S>::Failed(f),
        final(b)@ == (attempt::AttemptView { switch: None, at: At::Ready, ..old(b)@ }),
{
}

/// With an estimate a round of priming begins.
pub proof fn law_estimates_begin_rounds<S: Copy>(a: &mut Attempt<S>, coarse: i64)
    requires
        call_ensures(Attempt::<S>::on_estimate, (a, coarse), ()),
        old(a)@.switch is Some,
    ensures
        final(a)@ == (attempt::AttemptView {
            at: At::Prime,
            switch: Some(
                switch::SwitchView {
                    coarse: coarse as int,
                    stage: Stage::Incoming(0),
                    ..old(a)@.switch->0
                },
            ),
            ..old(a)@
        }),
{
}

/// The search is heeded as the switch says.
pub proof fn law_searches_are_heeded_as_the_switch_says<S: Copy>(
    a: &mut Attempt<S>,
    heard: Heard,
    now: u64,
    todo: Todo<S>,
    s: &mut Switch<S>,
    active: &Deck<S>,
    next: Heeded,
)
    requires
        call_ensures(Attempt::<S>::on_heard, (a, heard, now), todo),
        call_ensures(Switch::<S>::on_heard, (s, heard, active, now), next),
        old(a)@.switch == Some(old(s)@),
        active@ == old(a)@.active,
    ensures
        todo is Failed <==> next is Fail,
        todo is Nothing <==> !(next is Fail),
        next is Fail ==> final(a)@ == (attempt::AttemptView {
            switch: None,
            at: At::Ready,
            ..old(a)@
        }),
        next is Wait ==> final(a)@ == (attempt::AttemptView {
            switch: Some(final(s)@),
            at: At::Ready,
            ..old(a)@
        }),
        next is Position ==> final(a)@ == (attempt::AttemptView {
            switch: Some(final(s)@),
            at: At::Position,
            ..old(a)@
        }),
        todo is Failed ==> todo->Failed_0.code@ == "decode"@ && todo->Failed_0.message@
            == "Alignment failed"@,
{
}

/// The mixed chunk is the one to be heard.
pub proof fn law_the_mix_is_heard<S: Copy>(a: &mut Attempt<S>, chunk: Vec<S>)
    requires
        call_ensures(Attempt::<S>::on_mixed, (a, chunk), ()),
    ensures
        final(a)@ == (attempt::AttemptView { chunk: chunk@, ..old(a)@ }),
{
}

// ---------------------------------------------------------------------------
// After a chunk
// ---------------------------------------------------------------------------

/// With a chunk the blocks come due whose audio it carried out, in order, and
/// behind those that are due already. The first chunk goes live, and a bitrate
/// that was measured is used from then on.
pub proof fn law_what_follows_a_chunk<S: Copy>(
    a: &mut Attempt<S>,
    pipe: &mut BytePipe,
    now: u64,
    first: bool,
    i: int,
)
    requires
        call_ensures(Attempt::<S>::on_output, (a, pipe, now), first),
        old(a)@.wf(),
        old(pipe)@.wf(),
    ensures
        first <==> !old(a)@.play.live,
        ({
            let before = old(pipe)@;
            let cursor = before.dropped + old(a)@.active.played_demuxed;
            let had = old(a)@.pending.len();
            let n = final(a)@.pending.len() - had;
            &&& 0 <= n <= before.meta.len()
            &&& final(a)@.pending.take(had as int) == old(a)@.pending
            &&& 0 <= i < n ==> final(a)@.pending[had + i] == before.meta[i].block
            &&& 0 <= i < before.meta.len() ==> (i < n <==> before.meta[i].at <= cursor)
            &&& final(pipe)@.meta == before.meta.skip(n)
            &&& final(pipe)@.buf == before.buf
            &&& final(pipe)@.written == before.written
            &&& final(pipe)@.dropped == before.dropped
            &&& final(pipe)@.closed == before.closed
            &&& before.written >= cursor ==> final(a)@.depth == before.written - cursor
            &&& before.written < cursor ==> final(a)@.depth == 0
        }),
        final(a)@.at is Aired,
        final(a)@.active == (deck::DeckView { bitrate_update: None, ..old(a)@.active }),
        final(a)@.chunk == old(a)@.chunk,
        final(a)@.switch == old(a)@.switch,
        final(a)@.ended == old(a)@.ended,
        final(a)@.play == (playback::PlayView {
            live: true,
            drift: sync::Model {
                first_packet_at: final(a)@.play.drift.first_packet_at,
                bitrate_kbps: final(a)@.play.drift.bitrate_kbps,
                ..old(a)@.play.drift
            },
            ..old(a)@.play
        }),
        first && old(a)@.play.drift.first_packet_at is None
            ==> final(a)@.play.drift.first_packet_at == Some(now as int),
        !first ==> final(a)@.play.drift.first_packet_at == old(a)@.play.drift.first_packet_at,
        old(a)@.active.bitrate_update is Some ==> sync_laws::believed(
            old(a)@.active.bitrate_update->0,
            final(a)@.play.drift.bitrate_kbps,
        ),
        old(a)@.active.bitrate_update is None ==> final(a)@.play.drift.bitrate_kbps
            == old(a)@.play.drift.bitrate_kbps,
{
    let before = old(pipe)@;
    stream_laws::lemma_due(before, before.dropped + old(a)@.active.played_demuxed);
    assert(final(a)@.pending.take(old(a)@.pending.len() as int) =~= old(a)@.pending);
}

/// With a deck that takes over only the newest of the blocks that are due comes
/// along: the others describe audio that nobody heard. The stream is measured
/// anew.
pub proof fn law_what_follows_a_swap<S: Copy>(
    a: &mut Attempt<S>,
    pipe: &mut BytePipe,
    station: Option<&StationInfo>,
    now: u64,
    i: int,
)
    requires
        call_ensures(Attempt::<S>::on_swapped, (a, pipe, station, now), ()),
        old(a)@.wf(),
        old(pipe)@.wf(),
    ensures
        ({
            let before = old(pipe)@;
            let cursor = before.dropped + old(a)@.active.played_demuxed;
            let had = old(a)@.pending.len();
            let gone = before.meta.len() - final(pipe)@.meta.len();
            &&& 0 <= gone
            &&& final(pipe)@.meta == before.meta.skip(gone)
            &&& 0 <= i < before.meta.len() ==> (i < gone <==> before.meta[i].at <= cursor)
            &&& gone == 0 ==> final(a)@.pending == old(a)@.pending
            &&& gone > 0 ==> {
                &&& final(a)@.pending.len() == had + 1
                &&& final(a)@.pending.drop_last() == old(a)@.pending
                &&& final(a)@.pending.last() == before.meta[gone - 1].block
            }
        }),
        final(a)@ == (attempt::AttemptView {
            play: final(a)@.play,
            pending: final(a)@.pending,
            ..old(a)@
        }),
        final(a)@.play == (playback::PlayView {
            drift: final(a)@.play.drift,
            station_sent: false,
            ..old(a)@.play
        }),
        playback_laws::fresh_controller(final(a)@.play.drift),
        final(a)@.play.drift.first_packet_at == Some(now as int),
        station is Some && station->0.bitrate_kbps > 0 ==> sync_laws::believed(
            station->0.bitrate_kbps as int,
            final(a)@.play.drift.bitrate_kbps,
        ),
        station is None || station->0.bitrate_kbps == 0 ==> final(a)@.play.drift.bitrate_kbps
            == old(a)@.play.drift.bitrate_kbps,
{
    let before = old(pipe)@;
    stream_laws::lemma_due(before, before.dropped + old(a)@.active.played_demuxed);
    assert(final(a)@.pending.drop_last() =~= old(a)@.pending || final(a)@.pending
        =~= old(a)@.pending);
}

/// The block that has been due for longest is published, whole, and the others
/// stay due.
pub proof fn law_due_blocks_are_published_in_order<S: Copy>(
    a: &mut Attempt<S>,
    station: Option<&StationInfo>,
    now: u64,
    told: Option<BlockEvents>,
)
    requires
        call_ensures(Attempt::<S>::on_publish, (a, station, now), told),
        old(a)@.wf(),
        old(a)@.pending.len() > 0,
    ensures
        final(a)@.pending == old(a)@.pending.skip(1),
        final(a)@ == (attempt::AttemptView {
            play: final(a)@.play,
            pending: final(a)@.pending,
            ..old(a)@
        }),
        final(a)@.play.station_sent,
        told is None <==> events_laws::heard_already(old(a)@.play.drift, old(a)@.pending[0]),
        told matches Some(e) ==> {
            let block = old(a)@.pending[0];
            let announced = block.title.len() > 0 && block.title != old(a)@.play.last_title;
            &&& events_laws::shows(e.metadata, block)
            &&& e.metadata.station is Some <==> !old(a)@.play.station_sent && station is Some
            &&& e.metadata.station is Some ==> playback_laws::shows_station(
                e.metadata.station->0,
                *station->0,
                old(a)@.play.drift.bitrate_kbps,
            )
            &&& e.now_playing is Some <==> announced
            &&& e.now_playing matches Some(n) ==> n.title@ == block.title
            &&& final(a)@.play.last_title == (if announced {
                block.title
            } else {
                old(a)@.play.last_title
            })
        },
        told is None ==> final(a)@.play.last_title == old(a)@.play.last_title,
        final(a)@.play.live == old(a)@.play.live,
        final(a)@.play.last_sync_emit == old(a)@.play.last_sync_emit,
        old(a)@.pending[0].url is None ==> final(a)@.play.drift == old(a)@.play.drift,
{
    assert(old(a)@.pending.drop_first() =~= old(a)@.pending.skip(1));
}

/// The drift is looked after as the playback does it, with the depth that was
/// measured, and the turn is over. The controller is shown each second, but
/// for a reconnect, which tells all there is.
pub proof fn law_the_turn_ends_with_the_drift<S: Copy>(
    a: &mut Attempt<S>,
    pipe: &mut BytePipe,
    ring_ms: u64,
    now: u64,
    told: Settled,
    p: &mut Playback,
    active: &mut Deck<S>,
    q: &mut BytePipe,
    depth: u64,
    c: Control,
)
    requires
        call_ensures(Attempt::<S>::on_control, (a, pipe, ring_ms, now), told),
        call_ensures(Playback::control::<S>, (p, active, q, depth, ring_ms, now), c),
        old(p)@ == old(a)@.play,
        old(active)@ == old(a)@.active,
        old(q)@ == old(pipe)@,
        depth == old(a)@.depth,
    ensures
        final(a)@.at is Turn,
        final(pipe)@ == final(q)@,
        final(a)@.active == final(active)@,
        told.control is Resync <==> c is Resync,
        told.control is CaughtUp <==> c is CaughtUp,
        final(a)@.play.drift == final(p)@.drift,
        final(a)@ == (attempt::AttemptView {
            at: At::Turn,
            play: final(a)@.play,
            active: final(a)@.active,
            ..old(a)@
        }),
        ({
            let due = now >= final(p)@.last_sync_emit + 1_000;
            &&& told.readout is Some <==> !(c is Resync) && due
            &&& told.readout is Some ==> final(a)@.play.last_sync_emit == now
            &&& told.readout is None ==> final(a)@.play == final(p)@
            &&& told.readout is Some ==> told.readout->0.action@ == "none"@
            &&& told.readout is Some ==> playback_laws::tells(
                told.readout->0,
                final(a)@.play.drift,
            )
        }),
        told.control matches Control::CaughtUp(s) ==> s.action@ == "catchup"@
            && playback_laws::tells(s, final(a)@.play.drift),
        told.control matches Control::Resync(s) ==> s.action@ == "reconnect"@
            && playback_laws::tells(s, final(a)@.play.drift),
{
}

/// A published block is measured as the controller measures one.
pub proof fn law_published_blocks_are_measured<S: Copy>(
    a: &mut Attempt<S>,
    station: Option<&StationInfo>,
    now: u64,
    told: Option<BlockEvents>,
    d: &mut Drift,
    url: StreamUrl,
    v: BlockVerdict,
)
    requires
        call_ensures(Attempt::<S>::on_publish, (a, station, now), told),
        old(a)@.pending.len() > 0,
        old(a)@.pending[0].url == Some(url@),
        call_ensures(Drift::on_block, (d, &url, now), v),
        old(d)@ == old(a)@.play.drift,
    ensures
        final(a)@.play.drift == final(d)@,
        told is None <==> v is StaleSeq,
{
}

/// Ordinary steps and reports can be taken: only counts that no stream reaches
/// cannot.
pub proof fn law_what_an_attempt_can_take<S: Copy>(
    a: Attempt<S>,
    pipe: BytePipe,
    ring_ms: u64,
    now: u64,
    step: bool,
    cursor: bool,
    control: bool,
)
    requires
        call_ensures(Attempt::<S>::holds_step, (&a,), step),
        call_ensures(Attempt::<S>::holds_cursor, (&a, &pipe), cursor),
        call_ensures(Attempt::<S>::holds_control, (&a, &pipe, ring_ms, now), control),
        a@.wf(),
        pipe@.wf(),
    ensures
        a@.pending.len() > 0 || !(a@.at is Prime || a@.at is Fade) ==> step,
        a@.at is Fade ==> (step <==> a@.pending.len() > 0 || a@.switch->0.inc->done + 1_152
            <= usize::MAX),
        cursor <==> pipe@.dropped + a@.active.played_demuxed <= u64::MAX,
        control ==> pipe@.dropped + pipe@.buf.len() + a@.active.demuxed <= u64::MAX,
{
}

/// Whether the block that is next can be taken is what the playback says of it.
pub proof fn law_whether_the_next_block_can_be_taken<S: Copy>(
    a: Attempt<S>,
    now: u64,
    takes: bool,
    p: Playback,
    block: Block,
    same: bool,
)
    requires
        call_ensures(Attempt::<S>::holds_block, (&a, now), takes),
        call_ensures(Playback::holds_block, (&p, &block, now), same),
        p@ == a@.play,
    ensures
        a@.pending.len() == 0 ==> takes,
        a@.pending.len() > 0 && a@.pending[0] == block@ ==> takes == same,
{
}

/// Whether a poll and a block can be taken is what the controller says of it.
pub proof fn law_what_a_playback_can_take(
    p: Playback,
    depth: u64,
    ring_ms: u64,
    now: u64,
    poll: bool,
    d: Drift,
    same: bool,
    block: Block,
    takes: bool,
    url: StreamUrl,
    counts: bool,
)
    requires
        call_ensures(Playback::holds_poll, (&p, depth, ring_ms, now), poll),
        call_ensures(Drift::holds_poll, (&d, depth, ring_ms, now), same),
        call_ensures(Playback::holds_block, (&p, &block, now), takes),
        call_ensures(Drift::holds_block, (&d, &url, now), counts),
        d@ == p@.drift,
    ensures
        poll == same,
        block.url is None ==> takes,
        block.url == Some(url) ==> takes == counts,
{
}

} // verus!
