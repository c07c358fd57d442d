//! What the engine tells the display.

use crate::fault::Fault;
use crate::icy;
use crate::icy::{Block, Daypart, Jingle, Payload, Segment, Talk};
use crate::stream::StationInfo;
use crate::sync;
use crate::sync::{BlockVerdict, Drift};
use vstd::prelude::*;

verus! {

/// A new title.
#[derive(Debug, Clone)]
pub struct NowPlaying {
    pub title: String,
}

/// Which station this is.
#[derive(Debug, Clone)]
pub struct StationPayload {
    pub name: String,
    pub description: String,
    pub genre: String,
    pub url: String,
    pub bitrate_kbps: u32,
}

/// The full metadata set, published when a block's audio reaches the speakers.
///
/// `playhead_ms` is the station's own timeline position for the audio being
/// heard right now, so a display can anchor on it and interpolate forward.
#[derive(Debug, Clone)]
pub struct MetadataPayload {
    pub title: String,
    /// track | jingle | talk | off | hb
    pub kind: String,
    pub seq: u64,
    pub playhead_ms: i64,
    pub item_id: String,
    pub station: Option<StationPayload>,
    pub programme: Option<Daypart>,
    pub now: Option<Segment>,
    pub next: Vec<Segment>,
    pub talk: Vec<Talk>,
    pub jingles: Vec<Jingle>,
    /// True when the schedule was dropped to fit the block's byte cap. The
    /// lists are then empty because we were not told, not because nothing is
    /// coming up: a display must not show those the same way.
    pub schedule_truncated: bool,
}

/// How far behind the live edge playback is.
#[derive(Debug, Clone)]
pub struct SyncPayload {
    /// End-to-end listener lag. None until the connection settles; negative
    /// where the listener's clock runs behind the station's.
    pub lag_ms: Option<i64>,
    /// Lag growth since this connection settled.
    pub excess_ms: Option<i64>,
    /// Our own buffers only. Always available, even without metadata.
    pub buffer_ms: u64,
    pub buffer_bytes: u64,
    pub bitrate_kbps: u32,
    pub target_ms: u64,
    pub ceiling_ms: u64,
    pub state: String,
    /// none | catchup | reconnect
    pub action: String,
    pub dropped_ms: u64,
    pub catchups: u32,
    pub reconnects: u32,
}

/// What the receiver is doing.
#[derive(Debug, Clone)]
pub struct StatePayload {
    pub state: &'static str,
    pub message: Option<String>,
    pub code: Option<&'static str>,
}

/// Which stream is, or is about to be, on air. `switching` when an incoming
/// one has been opened, `live` once a stream is what the speakers carry, and
/// `failed` when a switch was abandoned: `url` is then the one that kept
/// playing.
#[derive(Debug, Clone)]
pub struct SourcePayload {
    pub url: String,
    pub phase: &'static str,
    pub reason: Option<String>,
    /// Whether the crossfade was aligned by the search, or by the estimate.
    pub aligned: Option<bool>,
    /// The stream's sample rate.
    pub sample_rate: Option<u32>,
}

/// Whether `p` describes how a controller stands.
pub open spec fn sync_says(p: SyncPayload, d: sync::Model, action: Seq<char>) -> bool {
    &&& sync::duration(p.lag_ms) == d.lag_ms
    &&& sync::duration(p.excess_ms) == d.excess_ms()
    &&& p.buffer_ms == d.local_ms
    &&& p.buffer_bytes == d.buffer_bytes
    &&& p.bitrate_kbps == d.bitrate_kbps
    &&& p.target_ms == sync::TARGET_LAG_MS
    &&& p.ceiling_ms == sync::CEILING_MS
    &&& p.state@ == d.state.name()
    &&& p.action@ == action
    &&& p.dropped_ms == sync::ms_of(d.dropped_bytes_total, d.bitrate_kbps)
    &&& p.catchups == d.catchups
    &&& p.reconnects == d.reconnects
}

/// How the controller stands, and what it has just done.
pub fn sync_payload(drift: &Drift, action: &str) -> (p: SyncPayload)
    requires
        drift@.wf(),
    ensures
        sync_says(p, drift@, action@),
{
    let r = drift.report();
    SyncPayload {
        lag_ms: r.lag_ms,
        excess_ms: r.excess_ms,
        buffer_ms: r.buffer_ms,
        buffer_bytes: r.buffer_bytes,
        bitrate_kbps: r.bitrate_kbps,
        target_ms: sync::TARGET_LAG_MS,
        ceiling_ms: sync::CEILING_MS,
        state: r.state.as_str().to_owned(),
        action: action.to_owned(),
        dropped_ms: r.dropped_ms,
        catchups: r.catchups,
        reconnects: r.reconnects,
    }
}

/// Whether `p` names the station `info`.
pub open spec fn station_says(p: StationPayload, info: StationInfo, kbps: int) -> bool {
    &&& p.name@ == info.name@
    &&& p.description@ == info.description@
    &&& p.genre@ == info.genre@
    &&& p.url@ == info.url@
    &&& p.bitrate_kbps == kbps
}

/// Which station this is, at the bitrate that was measured.
pub fn station_payload(info: &StationInfo, bitrate_kbps: u32) -> (p: StationPayload)
    ensures
        station_says(p, *info, bitrate_kbps as int),
{
    StationPayload {
        name: info.name.clone(),
        description: info.description.clone(),
        genre: info.genre.clone(),
        url: info.url.clone(),
        bitrate_kbps,
    }
}

/// An optional text.
pub open spec fn text_view(s: Option<String>) -> Option<Seq<char>> {
    match s {
        Some(t) => Some(t@),
        None => None,
    }
}

/// An optional borrowed text.
pub open spec fn str_view(s: Option<&str>) -> Option<Seq<char>> {
    match s {
        Some(t) => Some(t@),
        None => None,
    }
}

/// A copy of an optional text.
fn owned(s: Option<&str>) -> (r: Option<String>)
    ensures
        text_view(r) == str_view(s),
{
    match s {
        Some(t) => Some(t.to_owned()),
        None => None,
    }
}

/// What the receiver is doing.
pub fn state_payload(state: &'static str, message: Option<&str>) -> (p: StatePayload)
    ensures
        p.state == state,
        text_view(p.message) == str_view(message),
        p.code is None,
{
    StatePayload { state, message: owned(message), code: None }
}

/// The receiver has stopped over a fault.
pub fn error_state(fault: &Fault) -> (p: StatePayload)
    ensures
        p.state@ == "error"@,
        text_view(p.message) == Some(fault.message@),
        p.code == Some(fault.code),
{
    StatePayload {
        state: "error",
        message: Some(fault.message.clone()),
        code: Some(fault.code),
    }
}

/// Which stream is, or is about to be, on air.
pub fn source_payload(
    url: &str,
    phase: &'static str,
    reason: Option<&str>,
    aligned: Option<bool>,
    sample_rate: Option<u32>,
) -> (p: SourcePayload)
    ensures
        p.url@ == url@,
        p.phase == phase,
        text_view(p.reason) == str_view(reason),
        p.aligned == aligned,
        p.sample_rate == sample_rate,
{
    SourcePayload { url: url.to_owned(), phase, reason: owned(reason), aligned, sample_rate }
}

// ---------------------------------------------------------------------------
// Blocks
// ---------------------------------------------------------------------------

/// What one released block has to tell.
#[derive(Debug, Clone)]
pub struct BlockEvents {
    /// The title, if it is a new one.
    pub now_playing: Option<NowPlaying>,
    pub metadata: MetadataPayload,
}

/// Whether a block brings a new title.
pub open spec fn new_title(block: icy::BlockView, last_title: Seq<char>) -> bool {
    block.title.len() > 0 && block.title != last_title
}

/// The title that is showing once a block has been published.
pub open spec fn title_after(block: icy::BlockView, last_title: Seq<char>) -> Seq<char> {
    if new_title(block, last_title) {
        block.title
    } else {
        last_title
    }
}

/// The schedule that came with a block.
pub open spec fn schedule_of(block: icy::BlockView) -> Option<Payload> {
    match block.url {
        Some(u) => u.payload,
        None => None,
    }
}

/// Whether `m` is the full metadata set of a block.
pub open spec fn metadata_says(
    m: MetadataPayload,
    block: icy::BlockView,
    station: Option<StationPayload>,
) -> bool {
    let schedule = schedule_of(block);
    &&& m.title@ == block.title
    &&& m.station == station
    &&& match block.url {
        Some(u) => {
            &&& m.kind@ == u.kind
            &&& m.seq == u.seq
            &&& m.playhead_ms == u.playhead_ms
            &&& m.item_id@ == u.item_id
        },
        None => {
            &&& m.kind@ == Seq::<char>::empty()
            &&& m.seq == 0
            &&& m.playhead_ms == 0
            &&& m.item_id@ == Seq::<char>::empty()
        },
    }
    &&& match schedule {
        Some(p) => {
            &&& m.programme == p.daypart
            &&& m.now == p.now
            &&& m.next@ == p.next@
            &&& m.talk@ == p.talk@
            &&& m.jingles@ == p.jingles@
        },
        None => {
            &&& m.programme is None
            &&& m.now is None
            &&& m.next@ == Seq::<Segment>::empty()
            &&& m.talk@ == Seq::<Talk>::empty()
            &&& m.jingles@ == Seq::<Jingle>::empty()
        },
    }
    &&& m.schedule_truncated == (block.url is Some && schedule is None)
}

/// Whether the controller's counters can hold what a block brings.
pub open spec fn block_holds(d: sync::Model, block: icy::BlockView, now: u64) -> bool {
    block.url matches Some(u) ==> d.holds_block(u.seq, now as i64 - u.wall_ms)
}

/// What a block does to the controller, and whether it is old news.
pub open spec fn block_observed(d: sync::Model, block: icy::BlockView, now: u64) -> (
    sync::Model,
    bool,
) {
    match block.url {
        Some(u) => {
            let (next, verdict) = d.observed(u.seq, now as i64 - u.wall_ms);
            (next, verdict is StaleSeq)
        },
        None => (d, false),
    }
}

/// Publish one released block. A block that is old news tells nothing.
///
/// Repeated titles are filtered here rather than where blocks are read:
/// heartbeats repeat them deliberately, and the drift measurement needs every
/// single one of them.
pub fn emit_block(
    block: Block,
    drift: &mut Drift,
    last_title: &mut String,
    station: Option<StationPayload>,
    now_ms: u64,
) -> (events: Option<BlockEvents>)
    requires
        old(drift)@.wf(),
        block_holds(old(drift)@, block@, now_ms),
    ensures
        final(drift)@.wf(),
        final(drift)@ == block_observed(old(drift)@, block@, now_ms).0,
        match events {
            Some(e) => {
                &&& !block_observed(old(drift)@, block@, now_ms).1
                &&& final(last_title)@ == title_after(block@, old(last_title)@)
                &&& match e.now_playing {
                    Some(n) => new_title(block@, old(last_title)@) && n.title@ == block@.title,
                    None => !new_title(block@, old(last_title)@),
                }
                &&& metadata_says(e.metadata, block@, station)
            },
            None => {
                &&& block_observed(old(drift)@, block@, now_ms).1
                &&& final(last_title)@ == old(last_title)@
            },
        },
{
    let Block { title, url } = block;
    match &url {
        Some(u) => match drift.on_block(u, now_ms) {
            BlockVerdict::StaleSeq => {
                return None;
            },
            _ => {},
        },
        None => {},
    }

    let now_playing: Option<NowPlaying> = if title.as_str().unicode_len() > 0 && title
        != *last_title {
        *last_title = title.clone();
        Some(NowPlaying { title: title.clone() })
    } else {
        None
    };

    let known = url.is_some();
    let (kind, seq, playhead_ms, item_id, schedule): (
        String,
        u64,
        i64,
        String,
        Option<Payload>,
    ) = match url {
        Some(u) => (u.kind, u.seq, u.playhead_ms, u.item_id, u.payload),
        None => (String::new(), 0, 0, String::new(), None),
    };
    let truncated = known && schedule.is_none();
    let metadata = match schedule {
        Some(p) => MetadataPayload {
            title,
            kind,
            seq,
            playhead_ms,
            item_id,
            station,
            programme: p.daypart,
            now: p.now,
            next: p.next,
            talk: p.talk,
            jingles: p.jingles,
            schedule_truncated: truncated,
        },
        None => MetadataPayload {
            title,
            kind,
            seq,
            playhead_ms,
            item_id,
            station,
            programme: None,
            now: None,
            next: Vec::new(),
            talk: Vec::new(),
            jingles: Vec::new(),
            schedule_truncated: truncated,
        },
    };
    Some(BlockEvents { now_playing, metadata })
}

/// A title is announced once: a block that repeats the title showing brings no
/// new one.
pub proof fn law_titles_are_announced_once(
    first: icy::BlockView,
    again: icy::BlockView,
    last_title: Seq<char>,
)
    requires
        again.title == first.title,
    ensures
        !new_title(again, title_after(first, last_title)),
{
}

/// A block without a title leaves the one showing.
pub proof fn law_untitled_blocks_keep_the_title(block: icy::BlockView, last_title: Seq<char>)
    requires
        block.title.len() == 0,
    ensures
        !new_title(block, last_title),
        title_after(block, last_title) == last_title,
{
}

} // verus!
