//! Laws of a playback: what follows each chunk of audio.

use crate::deck;
use crate::deck::Deck;
use crate::events::{BlockEvents, StationPayload, SyncPayload};
use crate::events_laws;
use crate::fault::{DeckEnd, DecodeOutcome};
use crate::icy::{Block, StreamUrl};
use crate::playback;
use crate::playback::{succeed, Control, Playback, Request, Succession, SYNC_EVERY_MS};
use crate::stream::{BytePipe, StationInfo};
use crate::stream_laws;
use crate::switch::{Incoming, Switch};
use crate::sync;
use crate::sync::{Action, BlockVerdict, Drift};
use crate::sync_laws;
use vstd::prelude::*;

verus! {

/// A playback begins silent, at the bitrate that the station tells, with
/// nothing announced. The controller is shown once a second.
pub proof fn law_playbacks_begin_silent(station: Option<&StationInfo>, p: Playback)
    requires
        call_ensures(Playback::new, (station,), p),
    ensures
        SYNC_EVERY_MS == 1_000,
        !p@.live,
        !p@.station_sent,
        p@.last_title.len() == 0,
        p@.last_sync_emit == 0,
        station is Some ==> sync_laws::believed(
            station->0.bitrate_kbps as int,
            p@.drift.bitrate_kbps,
        ),
        station is None ==> p@.drift.bitrate_kbps == 128,
        fresh_controller(p@.drift),
        p@.drift.first_packet_at is None,
{
}

/// Whether a controller has measured and done nothing yet.
pub open spec fn fresh_controller(m: sync::Model) -> bool {
    &&& m.state is Settling
    &&& m.last_poll is None
    &&& m.last_seq is None
    &&& m.lag_ms is None
    &&& m.baseline_lag is None
    &&& m.over_since is None
    &&& m.calm_since is None
    &&& m.consecutive_excess == 0
    &&& !m.meta_trigger
    &&& m.catchups == 0
    &&& m.reconnects == 0
    &&& m.dropped_bytes_episode == 0
    &&& m.dropped_bytes_total == 0
    &&& m.buffer_bytes == 0
    &&& m.local_ms == 0
}

/// A switch to the stream that is playing is none. Before anything is heard
/// the other stream is simply tuned to; afterwards it is opened beside.
pub proof fn law_what_a_switch_request_means(p: Playback, url: String, next: String, r: Request)
    requires
        call_ensures(Playback::on_switch_request, (&p, &url, next), r),
    ensures
        r is Ignore <==> next@ == url@,
        next@ != url@ && !p@.live ==> r is Retune,
        next@ != url@ && p@.live ==> r is Open,
        r matches Request::Retune(u) ==> u@ == next@,
        r matches Request::Open(u) ==> u@ == next@,
{
}

/// Playback is live from the first chunk on, and that one starts the settle
/// clock.
pub proof fn law_the_first_chunk_goes_live(p: &mut Playback, now: u64, first: bool)
    requires
        call_ensures(Playback::on_played, (p, now), first),
    ensures
        first <==> !old(p)@.live,
        final(p)@.live,
        !first ==> final(p)@ == old(p)@,
        first && old(p)@.drift.first_packet_at is None ==> final(p)@.drift.first_packet_at == Some(
            now as int,
        ),
        final(p)@ == (playback::PlayView {
            live: true,
            drift: sync::Model {
                first_packet_at: final(p)@.drift.first_packet_at,
                ..old(p)@.drift
            },
            ..old(p)@
        }),
        old(p)@.drift.first_packet_at is Some ==> final(p)@.drift.first_packet_at
            == old(p)@.drift.first_packet_at,
{
}

/// A measured bitrate is the controller's from then on, and changes nothing
/// else.
pub proof fn law_measured_bitrates_are_used(p: &mut Playback, update: Option<u32>)
    requires
        call_ensures(Playback::on_bitrate, (p, update), ()),
    ensures
        update is None ==> final(p)@ == old(p)@,
        update is Some ==> sync_laws::believed(update->0 as int, final(p)@.drift.bitrate_kbps),
        final(p)@ == (playback::PlayView {
            drift: sync::Model {
                bitrate_kbps: final(p)@.drift.bitrate_kbps,
                ..old(p)@.drift
            },
            ..old(p)@
        }),
{
}

/// A released block is shown, whole, unless it was heard already. The station
/// comes along with the first block and with no other.
pub proof fn law_released_blocks_are_shown(
    p: &mut Playback,
    block: Block,
    station: Option<&StationInfo>,
    now: u64,
    told: Option<BlockEvents>,
)
    requires
        call_ensures(Playback::on_released, (p, block, station, now), told),
    ensures
        told is None <==> events_laws::heard_already(old(p)@.drift, block@),
        final(p)@.station_sent,
        final(p)@.live == old(p)@.live,
        final(p)@.last_sync_emit == old(p)@.last_sync_emit,
        told is None ==> final(p)@.drift == old(p)@.drift && final(p)@.last_title
            == old(p)@.last_title,
        told matches Some(e) ==> {
            let announced = block.title@.len() > 0 && block.title@ != old(p)@.last_title;
            &&& events_laws::shows(e.metadata, block@)
            &&& e.metadata.station is Some <==> !old(p)@.station_sent && station is Some
            &&& e.metadata.station is Some ==> shows_station(
                e.metadata.station->0,
                *station->0,
                old(p)@.drift.bitrate_kbps,
            )
            &&& e.now_playing is Some <==> announced
            &&& e.now_playing matches Some(n) ==> n.title@ == block.title@
            &&& final(p)@.last_title == (if announced {
                block.title@
            } else {
                old(p)@.last_title
            })
        },
        block.url is None ==> final(p)@.drift == old(p)@.drift,
{
}

/// Whether a station is shown as it is, at a bitrate.
pub open spec fn shows_station(p: StationPayload, s: StationInfo, kbps: int) -> bool {
    &&& p.name@ == s.name@
    &&& p.description@ == s.description@
    &&& p.genre@ == s.genre@
    &&& p.url@ == s.url@
    &&& p.bitrate_kbps == kbps
}

/// A released block is measured as the controller measures one.
pub proof fn law_released_blocks_are_measured(
    p: &mut Playback,
    block: Block,
    station: Option<&StationInfo>,
    now: u64,
    told: Option<BlockEvents>,
    d: &mut Drift,
    url: StreamUrl,
    v: BlockVerdict,
)
    requires
        call_ensures(Playback::on_released, (p, block, station, now), told),
        block.url == Some(url),
        call_ensures(Drift::on_block, (d, &url, now), v),
        old(d)@ == old(p)@.drift,
    ensures
        final(p)@.drift == final(d)@,
        told is None <==> v is StaleSeq,
{
}

/// What the controller asks for is done, and nothing else: a reconnect is
/// passed on, and a catch-up throws the oldest of what waits away.
pub proof fn law_control_does_what_is_asked<S: Copy>(
    p: &mut Playback,
    active: &mut Deck<S>,
    pipe: &mut BytePipe,
    depth: u64,
    ring_ms: u64,
    now: u64,
    c: Control,
    d: &mut Drift,
    a: Action,
)
    requires
        call_ensures(Playback::control::<S>, (p, active, pipe, depth, ring_ms, now), c),
        call_ensures(Drift::poll, (d, depth, ring_ms, now), a),
        old(d)@ == old(p)@.drift,
        old(p)@.wf(),
        old(active)@.wf(),
        old(pipe)@.wf(),
        final(d)@.dropped_bytes_total + old(pipe)@.buf.len() <= u64::MAX,
        final(d)@.dropped_bytes_episode + old(pipe)@.buf.len() <= u64::MAX,
    ensures
        c is Resync <==> a is Reconnect,
        c is CaughtUp ==> a is CatchUp,
        ({
            let cut = final(pipe)@.dropped - old(pipe)@.dropped;
            &&& 0 <= cut <= old(pipe)@.buf.len()
            &&& final(pipe)@.buf == old(pipe)@.buf.skip(cut)
            &&& final(pipe)@.written == old(pipe)@.written
            &&& final(pipe)@.closed == old(pipe)@.closed
            &&& c is CaughtUp <==> cut > 0
            &&& cut == 0 ==> {
                &&& final(pipe)@ == old(pipe)@
                &&& final(active)@ == old(active)@
                &&& final(p)@ == (playback::PlayView { drift: final(d)@, ..old(p)@ })
            }
            &&& cut > 0 ==> {
                &&& final(active)@ == (deck::DeckView { splice_errors_left: 8, ..old(active)@ })
                &&& final(p)@ == (playback::PlayView {
                    last_sync_emit: now as int,
                    drift: sync::Model {
                        dropped_bytes_total: final(d)@.dropped_bytes_total + cut,
                        dropped_bytes_episode: final(d)@.dropped_bytes_episode + cut,
                        ..final(d)@
                    },
                    ..old(p)@
                })
            }
        }),
{
    let waiting = old(active)@.demuxed - old(active)@.played_demuxed;
    if let Action::CatchUp { keep_bytes } = a {
        let keep: int = if keep_bytes < waiting {
            0
        } else {
            keep_bytes - waiting
        };
        stream_laws::law_trim_leaves_at_most_keep(
            old(pipe)@,
            keep as nat,
            old(active)@.demuxed as nat,
        );
    }
    assert(old(pipe)@.buf.skip(0) =~= old(pipe)@.buf);
}

/// A catch-up lands on the target: what waits to be heard then, decoded or
/// not, plays for no more than the target lag, and for little less. It cuts
/// only where more waits than that.
pub proof fn law_catch_ups_land_on_the_target<S: Copy>(
    p: &mut Playback,
    active: &mut Deck<S>,
    pipe: &mut BytePipe,
    depth: u64,
    ring_ms: u64,
    now: u64,
    c: Control,
)
    requires
        call_ensures(Playback::control::<S>, (p, active, pipe, depth, ring_ms, now), c),
        old(p)@.wf(),
        old(active)@.wf(),
        old(pipe)@.wf(),
    ensures
        c is CaughtUp ==> {
            let waiting = old(active)@.demuxed - old(active)@.played_demuxed;
            let kbps = old(p)@.drift.bitrate_kbps;
            let held = old(pipe)@.buf.len();
            let left = final(pipe)@.buf.len();
            &&& (held + waiting) * 8 > 8_000 * kbps - 8 || waiting * 8 > 8_000 * kbps - 8
            &&& left == 0 || (left + waiting) * 8 <= 8_000 * kbps
            &&& waiting * 8 <= 8_000 * kbps - 8 ==> (left + waiting + 2_048) * 8 > 8_000 * kbps
                - 8
        },
{
    let kbps = old(p)@.drift.bitrate_kbps;
    let waiting = old(active)@.demuxed - old(active)@.played_demuxed;
    let a = old(p)@.drift.polled(depth as int, ring_ms as int, now as int).1;
    if let Action::CatchUp { keep_bytes } = a {
        assert(sync_laws::lasts_the_target(keep_bytes as int, kbps));
        let keep: int = if keep_bytes < waiting {
            0
        } else {
            keep_bytes - waiting
        };
        stream_laws::law_trim_leaves_at_most_keep(
            old(pipe)@,
            keep as nat,
            old(active)@.demuxed as nat,
        );
        if old(pipe)@.buf.len() > keep {
            let tail = old(pipe)@.buf.skip(old(pipe)@.buf.len() - keep);
            let end: int = if tail.len() < 2_048 {
                tail.len() as int
            } else {
                2_048
            };
            crate::stream::lemma_header_from(tail, 0, end);
        }
    }
}

/// A catch-up that finds more waiting than the target cuts.
pub proof fn law_backlogs_are_cut<S: Copy>(
    p: &mut Playback,
    active: &mut Deck<S>,
    pipe: &mut BytePipe,
    depth: u64,
    ring_ms: u64,
    now: u64,
    c: Control,
    d: &mut Drift,
    a: Action,
)
    requires
        call_ensures(Playback::control::<S>, (p, active, pipe, depth, ring_ms, now), c),
        call_ensures(Drift::poll, (d, depth, ring_ms, now), a),
        old(d)@ == old(p)@.drift,
        old(p)@.wf(),
        old(active)@.wf(),
        old(pipe)@.wf(),
        a is CatchUp,
        old(pipe)@.buf.len() > 0,
        (old(pipe)@.buf.len() + old(active)@.demuxed - old(active)@.played_demuxed) * 8 > 8_000
            * old(p)@.drift.bitrate_kbps,
    ensures
        c is CaughtUp,
{
    let kbps = old(p)@.drift.bitrate_kbps;
    let waiting = old(active)@.demuxed - old(active)@.played_demuxed;
    let keep_bytes = a->keep_bytes;
    assert(sync_laws::lasts_the_target(keep_bytes as int, kbps));
    let keep: int = if keep_bytes < waiting {
        0
    } else {
        keep_bytes - waiting
    };
    stream_laws::law_trim_leaves_at_most_keep(
        old(pipe)@,
        keep as nat,
        old(active)@.demuxed as nat,
    );
}

/// What is told of a catch-up or a reconnect is how the controller stands
/// after it.
pub proof fn law_control_is_told<S: Copy>(
    p: &mut Playback,
    active: &mut Deck<S>,
    pipe: &mut BytePipe,
    depth: u64,
    ring_ms: u64,
    now: u64,
    c: Control,
)
    requires
        call_ensures(Playback::control::<S>, (p, active, pipe, depth, ring_ms, now), c),
    ensures
        c matches Control::CaughtUp(s) ==> s.action@ == "catchup"@ && tells(s, final(p)@.drift),
        c matches Control::Resync(s) ==> s.action@ == "reconnect"@ && tells(s, final(p)@.drift),
{
}

/// Whether the display is told how a controller stands.
pub open spec fn tells(s: SyncPayload, m: sync::Model) -> bool {
    &&& s.lag_ms is Some <==> m.lag_ms is Some
    &&& s.lag_ms is Some ==> s.lag_ms->0 == m.lag_ms->0
    &&& s.excess_ms is Some <==> m.lag_ms is Some
    &&& s.excess_ms is Some ==> s.excess_ms->0 == m.lag_ms->0 - m.baseline_lag->0
    &&& s.buffer_ms == m.local_ms
    &&& s.buffer_bytes == m.buffer_bytes
    &&& s.bitrate_kbps == m.bitrate_kbps
    &&& s.catchups == m.catchups
    &&& s.reconnects == m.reconnects
    &&& s.target_ms == 8_000
    &&& s.ceiling_ms == 15_000
    &&& m.state is Settling ==> s.state@ == "settling"@
    &&& m.state is Steady ==> s.state@ == "steady"@
    &&& m.state is CatchingUp ==> s.state@ == "catching-up"@
    &&& m.state is Cooldown ==> s.state@ == "cooldown"@
    &&& m.state is Reconnecting ==> s.state@ == "reconnecting"@
}

/// The controller is shown when a second has passed since it was shown last.
pub proof fn law_the_controller_is_shown_each_second(
    p: &mut Playback,
    now: u64,
    s: Option<SyncPayload>,
)
    requires
        call_ensures(Playback::readout, (p, now), s),
        old(p)@.wf(),
    ensures
        s is Some <==> now >= old(p)@.last_sync_emit + 1_000,
        s matches Some(t) ==> t.action@ == "none"@ && tells(t, old(p)@.drift),
        s is Some ==> final(p)@ == (playback::PlayView { last_sync_emit: now as int, ..old(p)@ }),
        s is None ==> final(p)@ == old(p)@,
{
}

/// The stream that takes over is measured anew, at the bitrate that it tells,
/// or else at the one before; its station is told again. Title and clock of
/// the display stay.
pub proof fn law_a_new_stream_is_measured_anew(
    p: &mut Playback,
    station: Option<&StationInfo>,
    now: u64,
)
    requires
        call_ensures(Playback::swap_in, (p, station, now), ()),
        old(p)@.wf(),
    ensures
        fresh_controller(final(p)@.drift),
        final(p)@.drift.first_packet_at == Some(now as int),
        station is Some && station->0.bitrate_kbps > 0 ==> sync_laws::believed(
            station->0.bitrate_kbps as int,
            final(p)@.drift.bitrate_kbps,
        ),
        station is None || station->0.bitrate_kbps == 0 ==> final(p)@.drift.bitrate_kbps
            == old(p)@.drift.bitrate_kbps,
        !final(p)@.station_sent,
        final(p)@.live == old(p)@.live,
        final(p)@.last_title == old(p)@.last_title,
        final(p)@.last_sync_emit == old(p)@.last_sync_emit,
{
}

/// Where a stream ends, one that is fading in takes its place; otherwise the
/// end is the outcome.
pub proof fn law_what_follows_an_end<S: Copy>(
    end: DeckEnd,
    switch: Option<Switch<S>>,
    r: Succession<S>,
)
    requires
        call_ensures(succeed::<S>, (end, switch), r),
    ensures
        r is TakeOver <==> switch is Some && switch->0@.inc is Fading,
        r matches Succession::TakeOver { deck, fine, end: first } ==> {
            &&& switch->0@.deck == Some(deck@)
            &&& switch->0@.inc == (Incoming::Fading {
                done: switch->0@.inc->done,
                total: switch->0@.inc->total,
                fine,
            })
            &&& first == end
        },
        r matches Succession::Over(o) ==> {
            &&& end is Ended ==> o is Ended
            &&& end matches DeckEnd::Failed(f) ==> o == DecodeOutcome::Failed(f)
        },
{
}

/// Of the blocks that a catch-up passes over the newest stays, and those
/// further ahead.
pub proof fn law_catch_ups_keep_the_newest_block<S: Copy>(
    p: &mut Playback,
    active: &mut Deck<S>,
    pipe: &mut BytePipe,
    depth: u64,
    ring_ms: u64,
    now: u64,
    c: Control,
    i: int,
)
    requires
        call_ensures(Playback::control::<S>, (p, active, pipe, depth, ring_ms, now), c),
        old(p)@.wf(),
        old(active)@.wf(),
        old(pipe)@.wf(),
        c is CaughtUp,
        0 <= i < old(pipe)@.meta.len(),
    ensures
        ({
            let before = old(pipe)@;
            let cursor = final(pipe)@.dropped + old(active)@.demuxed;
            let gone = before.meta.len() - final(pipe)@.meta.len();
            &&& 0 <= gone
            &&& final(pipe)@.meta == before.meta.skip(gone)
            &&& i < gone ==> i + 1 < before.meta.len() && before.meta[i].at <= cursor
                && before.meta[i + 1].at <= cursor
            &&& i >= gone && i + 1 < before.meta.len() ==> before.meta[i + 1].at > cursor
        }),
{
    let cursor = final(pipe)@.dropped + old(active)@.demuxed;
    stream_laws::lemma_due(old(pipe)@, cursor);
}

} // verus!
