//! Laws of what the display is told: it is told all that there is, as it is.

use crate::events::{
    emit_block, error_state, source_payload, state_payload, station_payload, sync_payload,
    BlockEvents, MetadataPayload, SourcePayload, StatePayload, StationPayload, SyncPayload,
};
use crate::fault::Fault;
use crate::icy;
use crate::icy::{Block, StreamUrl};
use crate::stream::StationInfo;
use crate::sync;
use crate::sync::{BlockVerdict, Drift};
use crate::sync_laws;
use vstd::prelude::*;

verus! {

/// Whether `m` shows all of a block, and nothing that is not in it.
pub open spec fn shows(m: MetadataPayload, b: icy::BlockView) -> bool {
    &&& m.title@ == b.title
    &&& b.url matches Some(u) ==> {
        &&& m.kind@ == u.kind
        &&& m.seq == u.seq
        &&& m.playhead_ms == u.playhead_ms
        &&& m.item_id@ == u.item_id
        &&& m.schedule_truncated <==> u.payload is None
        &&& u.payload matches Some(p) ==> {
            &&& m.programme == p.daypart
            &&& m.now == p.now
            &&& m.next@ == p.next@
            &&& m.talk@ == p.talk@
            &&& m.jingles@ == p.jingles@
        }
        &&& u.payload is None ==> shows_no_schedule(m)
    }
    &&& b.url is None ==> {
        &&& m.kind@.len() == 0
        &&& m.seq == 0
        &&& m.playhead_ms == 0
        &&& m.item_id@.len() == 0
        &&& !m.schedule_truncated
        &&& shows_no_schedule(m)
    }
}

/// Whether `m` shows no schedule.
pub open spec fn shows_no_schedule(m: MetadataPayload) -> bool {
    &&& m.programme is None
    &&& m.now is None
    &&& m.next@.len() == 0
    &&& m.talk@.len() == 0
    &&& m.jingles@.len() == 0
}

/// Whether a block is one that was heard already: it repeats the last one, or
/// falls short of it by no more than blocks out of order do.
pub open spec fn heard_already(m: sync::Model, b: icy::BlockView) -> bool {
    b.url is Some && m.last_seq is Some && m.last_seq->0 - 32 <= b.url->0.seq <= m.last_seq->0
}

/// Publishing loses nothing of a block, and above all nothing of its schedule:
/// the segments to come, the talk and the jingles are shown as they stand
/// there, all of them and in order.
pub proof fn law_publishing_loses_nothing(
    block: Block,
    drift: &mut Drift,
    last_title: &mut String,
    station: Option<StationPayload>,
    now: u64,
    told: Option<BlockEvents>,
)
    requires
        call_ensures(emit_block, (block, drift, last_title, station, now), told),
        told is Some,
    ensures
        shows(told->0.metadata, block@),
        told->0.metadata.title@ == block.title@,
        told->0.metadata.station == station,
        block.url matches Some(u) ==> {
            &&& told->0.metadata.seq == u.seq
            &&& told->0.metadata.playhead_ms == u.playhead_ms
            &&& told->0.metadata.kind@ == u.kind@
            &&& told->0.metadata.item_id@ == u.item_id@
            &&& u.payload matches Some(p) ==> {
                &&& told->0.metadata.next@ == p.next@
                &&& told->0.metadata.talk@ == p.talk@
                &&& told->0.metadata.jingles@ == p.jingles@
                &&& told->0.metadata.now == p.now
                &&& told->0.metadata.programme == p.daypart
            }
        },
{
}

/// Blocks whose schedules list other segments to come are published with other
/// lists.
pub proof fn law_different_schedules_look_different(
    first: Block,
    second: Block,
    d1: &mut Drift,
    d2: &mut Drift,
    t1: &mut String,
    t2: &mut String,
    s1: Option<StationPayload>,
    s2: Option<StationPayload>,
    now1: u64,
    now2: u64,
    told1: BlockEvents,
    told2: BlockEvents,
)
    requires
        call_ensures(emit_block, (first, d1, t1, s1, now1), Some(told1)),
        call_ensures(emit_block, (second, d2, t2, s2, now2), Some(told2)),
        first.url is Some && first.url->0.payload is Some,
        second.url is Some && second.url->0.payload is Some,
        first.url->0.payload->0.next@ != second.url->0.payload->0.next@,
    ensures
        told1.metadata.next@ != told2.metadata.next@,
{
}

/// An empty list of segments to come means that none are, unless the schedule
/// was dropped, which is told apart.
pub proof fn law_a_dropped_schedule_is_told_apart(
    block: Block,
    drift: &mut Drift,
    last_title: &mut String,
    station: Option<StationPayload>,
    now: u64,
    told: BlockEvents,
)
    requires
        call_ensures(emit_block, (block, drift, last_title, station, now), Some(told)),
    ensures
        told.metadata.schedule_truncated <==> block.url is Some && block.url->0.payload is None,
        !told.metadata.schedule_truncated && told.metadata.next@.len() == 0 && block.url is Some
            ==> block.url->0.payload is Some && block.url->0.payload->0.next@.len() == 0,
{
}

/// A block that was heard already tells nothing and changes nothing; any other
/// is told. A title is announced exactly when it is one and not the one that
/// is showing, and is showing from then on.
pub proof fn law_what_is_announced(
    block: Block,
    drift: &mut Drift,
    last_title: &mut String,
    station: Option<StationPayload>,
    now: u64,
    told: Option<BlockEvents>,
)
    requires
        call_ensures(emit_block, (block, drift, last_title, station, now), told),
    ensures
        told is None <==> heard_already(old(drift)@, block@),
        told is None ==> final(drift)@ == old(drift)@ && final(last_title)@ == old(last_title)@,
        told matches Some(e) ==> {
            let announced = block.title@.len() > 0 && block.title@ != old(last_title)@;
            &&& e.now_playing is Some <==> announced
            &&& e.now_playing matches Some(n) ==> n.title@ == block.title@
            &&& final(last_title)@ == (if announced {
                block.title@
            } else {
                old(last_title)@
            })
        },
        block.url is None ==> final(drift)@ == old(drift)@,
        told is Some && block.url is Some ==> final(drift)@.last_seq == Some(
            block.url->0.seq as int,
        ),
        told is Some && block.url is Some && !(old(drift)@.state is Settling) && now <= i64::MAX
            ==> final(drift)@.lag_ms == Some(now - block.url->0.wall_ms),
{
}

/// The controller is shown as it stands.
pub proof fn law_the_controller_is_shown_as_it_stands(d: Drift, action: &str, p: SyncPayload)
    requires
        call_ensures(sync_payload, (&d, action), p),
        d@.wf(),
        d@.dropped_bytes_total * 8 <= u64::MAX,
    ensures
        p.action@ == action@,
        p.lag_ms is Some <==> d@.lag_ms is Some,
        p.lag_ms matches Some(lag) ==> lag == d@.lag_ms->0,
        p.excess_ms is Some <==> d@.lag_ms is Some,
        p.excess_ms matches Some(x) ==> x == d@.lag_ms->0 - d@.baseline_lag->0,
        p.buffer_ms == d@.local_ms,
        p.buffer_bytes == d@.buffer_bytes,
        p.bitrate_kbps == d@.bitrate_kbps,
        p.target_ms == 8_000,
        p.ceiling_ms == 15_000,
        sync_laws::plays_for(d@.dropped_bytes_total * 8, d@.bitrate_kbps, p.dropped_ms as int),
        p.catchups == d@.catchups,
        p.reconnects == d@.reconnects,
        d@.state is Settling ==> p.state@ == "settling"@,
        d@.state is Steady ==> p.state@ == "steady"@,
        d@.state is CatchingUp ==> p.state@ == "catching-up"@,
        d@.state is Cooldown ==> p.state@ == "cooldown"@,
        d@.state is Reconnecting ==> p.state@ == "reconnecting"@,
{
    sync_laws::lemma_division(d@.dropped_bytes_total * 8, d@.bitrate_kbps);
}

/// A station is shown by what it says of itself, at the bitrate measured.
pub proof fn law_stations_are_shown_as_they_are(info: StationInfo, kbps: u32, p: StationPayload)
    requires
        call_ensures(station_payload, (&info, kbps), p),
    ensures
        p.name@ == info.name@,
        p.description@ == info.description@,
        p.genre@ == info.genre@,
        p.url@ == info.url@,
        p.bitrate_kbps == kbps,
{
}

/// A state is shown with its message, and with a code only for a fault.
pub proof fn law_states_are_shown_as_they_are(
    state: &'static str,
    message: Option<&str>,
    p: StatePayload,
    fault: Fault,
    e: StatePayload,
)
    requires
        call_ensures(state_payload, (state, message), p),
        call_ensures(error_state, (&fault,), e),
    ensures
        p.state@ == state@,
        p.code is None,
        p.message is Some <==> message is Some,
        p.message matches Some(m) ==> m@ == message->0@,
        e.state@ == "error"@,
        e.message is Some && e.message->0@ == fault.message@,
        e.code is Some && e.code->0@ == fault.code@,
{
}

/// A stream is shown with all that is known of it.
pub proof fn law_sources_are_shown_as_they_are(
    url: &str,
    phase: &'static str,
    reason: Option<&str>,
    aligned: Option<bool>,
    rate: Option<u32>,
    p: SourcePayload,
)
    requires
        call_ensures(source_payload, (url, phase, reason, aligned, rate), p),
    ensures
        p.url@ == url@,
        p.phase@ == phase@,
        p.reason is Some <==> reason is Some,
        p.reason matches Some(r) ==> r@ == reason->0@,
        p.aligned == aligned,
        p.sample_rate == rate,
{
}

/// A block is measured as the controller measures one.
pub proof fn law_told_blocks_are_measured(
    block: Block,
    drift: &mut Drift,
    last_title: &mut String,
    station: Option<StationPayload>,
    now: u64,
    told: Option<BlockEvents>,
    d: &mut Drift,
    url: StreamUrl,
    v: BlockVerdict,
)
    requires
        call_ensures(emit_block, (block, drift, last_title, station, now), told),
        block.url == Some(url),
        call_ensures(Drift::on_block, (d, &url, now), v),
        old(d)@ == old(drift)@,
    ensures
        final(drift)@ == final(d)@,
        told is None <==> v is StaleSeq,
{
}

} // verus!
