//! The playback of one attempt: what follows each chunk of audio once it has
//! gone to the output.

use crate::deck;
use crate::deck::{Deck, SPLICE_TOLERANCE};
use crate::events;
use crate::events::{emit_block, station_payload, sync_payload, BlockEvents, StationPayload,
    SyncPayload};
use crate::fault::{DeckEnd, DecodeOutcome};
use crate::icy;
use crate::icy::Block;
use crate::stream;
use crate::stream::{BytePipe, StationInfo};
use crate::stream_laws;
use crate::switch::{Incoming, Switch};
use crate::sync;
use crate::sync::{Action, Drift};
use vstd::prelude::*;

verus! {

/// The lag readout is refreshed at most this often.
pub const SYNC_EVERY_MS: u64 = 1_000;

/// What a switch request leads to.
pub enum Request {
    /// The stream asked for is the one that is playing.
    Ignore,
    /// Nothing is on air yet, so there is nothing to blend: tune to it.
    Retune(String),
    /// Open it alongside.
    Open(String),
}

/// What the controller had done after a chunk.
pub enum Control {
    Nothing,
    /// Audio was discarded.
    CaughtUp(SyncPayload),
    /// Give up on this connection.
    Resync(SyncPayload),
}

/// What follows the end of the playing deck.
pub enum Succession<S> {
    /// The incoming deck takes over. `end` is how the other one ended, in case
    /// that this one gives no audio either.
    TakeOver { deck: Deck<S>, fine: bool, end: DeckEnd },
    /// The attempt is over.
    Over(DecodeOutcome),
}

/// The playing deck has come to its end. A replacement that is already aligned
/// and fading in takes over on the spot: a hard cut beats silence.
pub fn succeed<S: Copy>(end: DeckEnd, switch: Option<Switch<S>>) -> (r: Succession<S>)
    requires
        switch is Some ==> switch->0@.wf(),
    ensures
        match r {
            Succession::TakeOver { deck, fine, end: first } => {
                &&& switch is Some && switch->0@.inc is Fading
                &&& switch->0@.deck == Some(deck@)
                &&& fine == switch->0@.inc->Fading_fine
                &&& first == end
            },
            Succession::Over(o) => {
                &&& switch is None || !(switch->0@.inc is Fading)
                &&& o == end.outcome()
            },
        },
{
    if let Some(s) = switch {
        if let Incoming::Fading { fine, .. } = s.phase() {
            if let Some(deck) = s.into_deck() {
                return Succession::TakeOver { deck, fine, end };
            }
        }
    }
    Succession::Over(end.into_outcome())
}

/// The state of one attempt. Drift lives per connection, so every reconnect
/// settles and measures its baseline anew.
pub struct Playback {
    live: bool,
    drift: Drift,
    last_title: String,
    station_sent: bool,
    last_sync_emit: u64,
}

/// What a [`Playback`] knows.
pub ghost struct PlayView {
    pub live: bool,
    pub drift: sync::Model,
    pub last_title: Seq<char>,
    pub station_sent: bool,
    pub last_sync_emit: int,
}

impl View for Playback {
    type V = PlayView;

    closed spec fn view(&self) -> PlayView {
        PlayView {
            live: self.live,
            drift: self.drift@,
            last_title: self.last_title@,
            station_sent: self.station_sent,
            last_sync_emit: self.last_sync_emit as int,
        }
    }
}

/// The bitrate that a station tells, or 0.
pub open spec fn told_bitrate(station: Option<StationInfo>) -> int {
    match station {
        Some(s) => s.bitrate_kbps as int,
        None => 0,
    }
}

/// How much a catch-up may leave in the pipe: audio that is decoded already is
/// beyond its reach, and counts against the allowance.
pub open spec fn allowance(keep_bytes: int, fifo_bytes: int) -> int {
    if keep_bytes < fifo_bytes {
        0
    } else {
        keep_bytes - fifo_bytes
    }
}

impl PlayView {
    pub open spec fn wf(self) -> bool {
        self.drift.wf()
    }

    /// An attempt that has played nothing.
    pub open spec fn fresh(station: Option<StationInfo>) -> PlayView {
        PlayView {
            live: false,
            drift: sync::Model::fresh(told_bitrate(station)),
            last_title: Seq::empty(),
            station_sent: false,
            last_sync_emit: 0,
        }
    }

    /// A chunk has gone to the output.
    pub open spec fn played(self, now: int) -> PlayView {
        if self.live {
            self
        } else {
            PlayView {
                live: true,
                drift: sync::Model {
                    first_packet_at: if self.drift.first_packet_at is Some {
                        self.drift.first_packet_at
                    } else {
                        Some(now)
                    },
                    ..self.drift
                },
                ..self
            }
        }
    }

    /// The bitrate may have been measured anew.
    pub open spec fn measured(self, update: Option<int>) -> PlayView {
        match update {
            Some(kbps) => PlayView {
                drift: sync::Model { bitrate_kbps: sync::sane(kbps), ..self.drift },
                ..self
            },
            None => self,
        }
    }

    /// The bitrate to start from on a new connection: the one that its station
    /// tells, or else the one of the old connection.
    pub open spec fn seed(self, station: Option<StationInfo>) -> int {
        if told_bitrate(station) > 0 {
            told_bitrate(station)
        } else {
            self.drift.bitrate_kbps
        }
    }

    /// Another deck is what the speakers carry.
    pub open spec fn swapped(self, station: Option<StationInfo>, now: int) -> PlayView {
        PlayView {
            drift: sync::Model {
                first_packet_at: Some(now),
                ..sync::Model::fresh(self.seed(station))
            },
            station_sent: false,
            ..self
        }
    }

    /// A block was published, or was old news.
    pub open spec fn published(self, block: icy::BlockView, now: u64) -> PlayView {
        let (drift, stale) = events::block_observed(self.drift, block, now);
        PlayView {
            drift,
            last_title: if stale {
                self.last_title
            } else {
                events::title_after(block, self.last_title)
            },
            station_sent: true,
            ..self
        }
    }

    /// What is told of a block whose audio has reached the speakers. The first
    /// one of a connection tells the station along with it.
    pub open spec fn tells_block(
        self,
        block: icy::BlockView,
        station: Option<StationInfo>,
        now: u64,
        told: Option<BlockEvents>,
    ) -> bool {
        match told {
            Some(e) => {
                &&& !events::block_observed(self.drift, block, now).1
                &&& match e.now_playing {
                    Some(n) => events::new_title(block, self.last_title) && n.title@
                        == block.title,
                    None => !events::new_title(block, self.last_title),
                }
                &&& events::metadata_says(e.metadata, block, e.metadata.station)
                &&& match e.metadata.station {
                    Some(p) => {
                        &&& !self.station_sent
                        &&& station is Some
                        &&& events::station_says(p, station->0, self.drift.bitrate_kbps)
                    },
                    None => self.station_sent || station is None,
                }
            },
            None => events::block_observed(self.drift, block, now).1,
        }
    }

    /// What the controller makes of the playback, of the deck on air and of
    /// its pipe.
    pub open spec fn controlled<S>(
        self,
        active: deck::DeckView<S>,
        pipe: stream::PipeView,
        depth_bytes: int,
        ring_ms: int,
        now: int,
    ) -> (PlayView, deck::DeckView<S>, stream::PipeView) {
        let (drift, action) = self.drift.polled(depth_bytes, ring_ms, now);
        let polled = PlayView { drift, ..self };
        match action {
            Action::CatchUp { keep_bytes } => {
                let keep = allowance(keep_bytes as int, active.demuxed - active.played_demuxed);
                let left = pipe.trimmed(keep, active.demuxed);
                let cut = pipe.cut(keep);
                if cut > 0 {
                    (
                        PlayView {
                            drift: drift.trimmed(cut),
                            last_sync_emit: now,
                            ..self
                        },
                        deck::DeckView {
                            splice_errors_left: SPLICE_TOLERANCE as int,
                            ..active
                        },
                        left,
                    )
                } else {
                    (polled, active, left)
                }
            },
            _ => (polled, active, pipe),
        }
    }

    /// What is told of it.
    pub open spec fn tells_control<S>(
        self,
        active: deck::DeckView<S>,
        pipe: stream::PipeView,
        depth_bytes: int,
        ring_ms: int,
        now: int,
        c: Control,
    ) -> bool {
        let after = self.controlled(active, pipe, depth_bytes, ring_ms, now).0;
        match self.drift.polled(depth_bytes, ring_ms, now).1 {
            Action::Nothing => c is Nothing,
            Action::CatchUp { keep_bytes } => if pipe.cut(
                allowance(keep_bytes as int, active.demuxed - active.played_demuxed),
            ) > 0 {
                c matches Control::CaughtUp(p) && events::sync_says(p, after.drift, "catchup"@)
            } else {
                c is Nothing
            },
            Action::Reconnect => c matches Control::Resync(p) && events::sync_says(
                p,
                after.drift,
                "reconnect"@,
            ),
        }
    }

    /// Whether the lag readout is due.
    pub open spec fn readout_due(self, now: int) -> bool {
        now - self.last_sync_emit >= SYNC_EVERY_MS
    }

    /// The lag readout has been given, if it was due.
    pub open spec fn read_out(self, now: int) -> PlayView {
        if self.readout_due(now) {
            PlayView { last_sync_emit: now, ..self }
        } else {
            self
        }
    }

    /// What the lag readout tells.
    pub open spec fn tells_readout(self, now: int, p: Option<SyncPayload>) -> bool {
        match p {
            Some(s) => self.readout_due(now) && events::sync_says(s, self.drift, "none"@),
            None => !self.readout_due(now),
        }
    }
}

impl Playback {
    pub fn new(station: Option<&StationInfo>) -> (p: Playback)
        ensures
            p@ == PlayView::fresh(
                match station {
                    Some(s) => Some(*s),
                    None => None,
                },
            ),
            p@.wf(),
    {
        let kbps: u32 = match station {
            Some(s) => s.bitrate_kbps,
            None => 0,
        };
        Playback {
            live: false,
            drift: Drift::new(kbps),
            last_title: String::new(),
            station_sent: false,
            last_sync_emit: 0,
        }
    }

    /// A switch was asked for while `url` is playing.
    pub fn on_switch_request(&self, url: &String, next: String) -> (r: Request)
        ensures
            r == (if next@ == url@ {
                Request::Ignore
            } else if !self@.live {
                Request::Retune(next)
            } else {
                Request::Open(next)
            }),
    {
        if next == *url {
            Request::Ignore
        } else if !self.live {
            Request::Retune(next)
        } else {
            Request::Open(next)
        }
    }

    /// A chunk has gone to the output. Tells whether it was the first one.
    pub fn on_played(&mut self, now: u64) -> (first: bool)
        ensures
            first == !old(self)@.live,
            final(self)@ == old(self)@.played(now as int),
            old(self)@.wf() ==> final(self)@.wf(),
    {
        if self.live {
            return false;
        }
        self.live = true;
        self.drift.first_packet(now);
        true
    }

    /// The deck may have measured the bitrate anew.
    pub fn on_bitrate(&mut self, update: Option<u32>)
        ensures
            final(self)@ == old(self)@.measured(
                match update {
                    Some(kbps) => Some(kbps as int),
                    None => None,
                },
            ),
            old(self)@.wf() ==> final(self)@.wf(),
    {
        if let Some(kbps) = update {
            self.drift.set_bitrate(kbps);
        }
    }

    /// Whether the counters can hold what a block brings.
    pub fn holds_block(&self, block: &Block, now: u64) -> (b: bool)
        requires
            self@.wf(),
        ensures
            b == events::block_holds(self@.drift, block@, now),
    {
        match &block.url {
            Some(url) => self.drift.holds_block(url, now),
            None => true,
        }
    }

    /// A block's audio has reached the speakers. The first one of a connection
    /// tells the station along with it.
    pub fn on_released(
        &mut self,
        block: Block,
        station: Option<&StationInfo>,
        now: u64,
    ) -> (told: Option<BlockEvents>)
        requires
            old(self)@.wf(),
            events::block_holds(old(self)@.drift, block@, now),
        ensures
            final(self)@.wf(),
            final(self)@ == old(self)@.published(block@, now),
            old(self)@.tells_block(
                block@,
                match station {
                    Some(s) => Some(*s),
                    None => None,
                },
                now,
                told,
            ),
    {
        let with_station: Option<StationPayload> = if self.station_sent {
            None
        } else {
            match station {
                Some(info) => Some(station_payload(info, self.drift.bitrate_kbps())),
                None => None,
            }
        };
        self.station_sent = true;
        emit_block(block, &mut self.drift, &mut self.last_title, with_station, now)
    }

    /// Whether the counters can hold what the controller measures.
    pub fn holds_poll(&self, depth_bytes: u64, ring_ms: u64, now: u64) -> (b: bool)
        ensures
            b == self@.drift.holds_poll(depth_bytes as int, ring_ms as int, now as int),
    {
        self.drift.holds_poll(depth_bytes, ring_ms, now)
    }

    /// Drive the controller, and carry out what it asks for.
    ///
    /// This comes after the chunk has gone to the output, which may block, so
    /// that the cadence is paced by real playback time.
    pub fn control<S: Copy>(
        &mut self,
        active: &mut Deck<S>,
        pipe: &mut BytePipe,
        depth_bytes: u64,
        ring_ms: u64,
        now: u64,
    ) -> (c: Control)
        requires
            old(self)@.wf(),
            old(self)@.drift.holds_poll(depth_bytes as int, ring_ms as int, now as int),
            old(active)@.wf(),
            old(pipe)@.wf(),
            old(pipe)@.dropped + old(pipe)@.buf.len() + old(active)@.demuxed <= u64::MAX,
        ensures
            final(self)@.wf(),
            final(active)@.wf(),
            final(pipe)@.wf(),
            (final(self)@, final(active)@, final(pipe)@) == old(self)@.controlled(
                old(active)@,
                old(pipe)@,
                depth_bytes as int,
                ring_ms as int,
                now as int,
            ),
            old(self)@.tells_control(
                old(active)@,
                old(pipe)@,
                depth_bytes as int,
                ring_ms as int,
                now as int,
                c,
            ),
    {
        match self.drift.poll(depth_bytes, ring_ms, now) {
            Action::Nothing => Control::Nothing,
            Action::CatchUp { keep_bytes } => {
                let decoded: u64 = active.fifo_bytes();
                let keep: usize = if (keep_bytes as u64) < decoded {
                    0
                } else {
                    keep_bytes - decoded as usize
                };
                proof {
                    stream_laws::law_trim_leaves_at_most_keep(
                        pipe@,
                        keep as nat,
                        active@.demuxed as nat,
                    );
                }
                let trimmed = pipe.trim_to(keep, active.demuxed());
                if trimmed.bytes > 0 {
                    self.drift.on_trimmed(trimmed.bytes);
                    active.expect_splice();
                    self.last_sync_emit = now;
                    Control::CaughtUp(sync_payload(&self.drift, "catchup"))
                } else {
                    Control::Nothing
                }
            },
            Action::Reconnect => Control::Resync(sync_payload(&self.drift, "reconnect")),
        }
    }

    /// The lag readout, when it is due.
    pub fn readout(&mut self, now: u64) -> (p: Option<SyncPayload>)
        requires
            old(self)@.wf(),
        ensures
            final(self)@.wf(),
            final(self)@ == old(self)@.read_out(now as int),
            old(self)@.tells_readout(now as int, p),
    {
        if now.saturating_sub(self.last_sync_emit) >= SYNC_EVERY_MS {
            self.last_sync_emit = now;
            Some(sync_payload(&self.drift, "none"))
        } else {
            None
        }
    }

    /// Another deck is what the speakers carry now: drift settles anew on its
    /// connection, and its station is to be told.
    pub fn swap_in(&mut self, station: Option<&StationInfo>, now: u64)
        requires
            old(self)@.wf(),
        ensures
            final(self)@ == old(self)@.swapped(
                match station {
                    Some(s) => Some(*s),
                    None => None,
                },
                now as int,
            ),
            final(self)@.wf(),
    {
        let old_kbps: u32 = self.drift.bitrate_kbps();
        let seed: u32 = match station {
            Some(s) => if s.bitrate_kbps > 0 {
                s.bitrate_kbps
            } else {
                old_kbps
            },
            None => old_kbps,
        };
        self.drift = Drift::new(seed);
        self.drift.first_packet(now);
        self.station_sent = false;
    }
}

// ---------------------------------------------------------------------------
// Laws
// ---------------------------------------------------------------------------

/// A catch-up brings what is unplayed down to the target, as far as it can be
/// reached: what is left in the pipe, with what is decoded already, is no more
/// than was asked for, or than was decoded already.
pub proof fn law_catch_up_lands_on_the_target(
    pipe: stream::PipeView,
    demuxed: int,
    fifo_bytes: int,
    keep_bytes: int,
)
    requires
        pipe.wf(),
        0 <= demuxed,
        0 <= fifo_bytes,
        0 <= keep_bytes,
    ensures
        ({
            let left = pipe.trimmed(allowance(keep_bytes, fifo_bytes), demuxed).buf.len();
            left + fifo_bytes <= keep_bytes || left == 0
        }),
{
    let keep = allowance(keep_bytes, fifo_bytes);
    stream_laws::law_trim_leaves_at_most_keep(pipe, keep as nat, demuxed as nat);
}

/// The station goes out with the first block of a connection and with no
/// other: once a block has been published, the station counts as told until
/// another deck is swapped in.
pub proof fn law_station_is_told_once(p: PlayView, blocks: Seq<(icy::BlockView, u64)>)
    requires
        blocks.len() > 0,
    ensures
        all_published(p, blocks).station_sent,
{
}

/// The playback after a run of blocks.
pub open spec fn all_published(p: PlayView, blocks: Seq<(icy::BlockView, u64)>) -> PlayView
    decreases blocks.len(),
{
    if blocks.len() == 0 {
        p
    } else {
        all_published(p, blocks.drop_last()).published(blocks.last().0, blocks.last().1)
    }
}

/// A new connection is judged by nothing that was measured on the old one: it
/// settles first, and has no baseline yet.
pub proof fn law_swap_settles_anew(p: PlayView, station: Option<StationInfo>, now: int)
    ensures
        ({
            let q = p.swapped(station, now);
            &&& !q.drift.settled()
            &&& q.drift.lag_ms is None
            &&& q.drift.baseline_lag is None
            &&& q.drift.catchups == 0
            &&& q.last_title == p.last_title
            &&& q.live == p.live
        }),
{
}

} // verus!
