//! Live-edge drift control.
//!
//! A listener should sit about [`TARGET_LAG_MS`] behind the live edge: on
//! connect the server hands over a burst of already-played audio, and that
//! burst is both the intended lag and the jitter buffer. If the decode side
//! ever stalls, the pipe fills and, because everything downstream runs at
//! exactly 1x, the backlog never drains on its own. [`Drift`] decides when to
//! trim it away, and when to give up and reconnect.
//!
//! Two signals are weighed. `local_ms` is our own buffer depth, with no clock
//! involved. `lag_ms` is the true end-to-end lag, which trusts the listener's
//! clock. A deep local buffer is a necessary condition for acting, so that no
//! clock error can trigger a trim.

use crate::icy::StreamUrl;
use vstd::prelude::*;

verus! {

/// Where a healthy listener sits: one burst behind the live edge.
pub const TARGET_LAG_MS: u64 = 8_000;

/// A catch-up arms above this.
pub const CATCHUP_AT_MS: u64 = 12_000;

/// The hard ceiling. Sustained breaches escalate.
pub const CEILING_MS: u64 = 15_000;

/// How long a breach must persist before a catch-up begins.
pub const SUSTAIN_MS: u64 = 3_000;

/// Keep trimming for this long once armed: a single drop is refilled at once
/// from the socket.
pub const CATCHUP_WINDOW_MS: u64 = 2_000;

/// Quiet period after a catch-up, so that the measurement can settle.
pub const COOLDOWN_MS: u64 = 20_000;

/// Catch-ups within one episode before trimming stops and we reconnect.
pub const MAX_CATCHUPS_PER_EPISODE: u32 = 3;

/// Calm for this long and the episode is forgotten.
pub const EPISODE_CLEAR_MS: u64 = 120_000;

/// Grace after the first decoded packet. It outlasts the connect burst, whose
/// metadata blocks carry timestamps from before the connection.
pub const SETTLE_MS: u64 = 10_000;

/// Ceiling on audio discarded in one episode (about 90 s at 128 kbps). Past
/// this we reconnect instead: something is wrong that trimming is not fixing.
pub const MAX_DROP_BYTES: u64 = 1_500_000;

/// The controller re-evaluates at most this often.
pub const POLL_MS: u64 = 250;

/// The bitrate assumed when the measured one makes no sense.
pub const DEFAULT_BITRATE_KBPS: u32 = 128;

/// A `seq` drop larger than this means that the source restarted, rather than
/// that a block arrived out of order.
pub const SEQ_RESET_SLACK: u64 = 32;

/// `x` where a 64-bit counter holds it, the largest such counter otherwise.
pub open spec fn capped(x: int) -> int {
    if x > u64::MAX {
        u64::MAX as int
    } else {
        x
    }
}

/// A bitrate as a divisor: never zero.
pub open spec fn divisor(kbps: int) -> int {
    if kbps < 1 {
        1
    } else {
        kbps
    }
}

/// Playing time of `bytes` bytes.
pub open spec fn ms_of(bytes: int, kbps: int) -> int {
    capped(bytes * 8) / divisor(kbps)
}

/// Bytes that play for `ms` milliseconds.
pub open spec fn bytes_of(ms: int, kbps: int) -> int {
    capped(ms * divisor(kbps)) / 8
}

/// The time on the wall clock, given how long ago the Unix epoch was. Falls
/// back to 0 before 1970, which only a badly wrong clock can produce and which
/// the controller treats as skew.
pub fn wall_ms(since_epoch_ms: Option<u128>) -> (ms: u64)
    ensures
        ms == (match since_epoch_ms {
            Some(t) => t % 0x1_0000_0000_0000_0000,
            None => 0,
        }),
{
    match since_epoch_ms {
        Some(t) => {
            assert(t as u64 == t % 0x1_0000_0000_0000_0000) by (bit_vector);
            t as u64
        },
        None => 0,
    }
}

/// Playing time of `bytes` bytes at a bitrate.
pub fn bytes_to_ms(bytes: u64, bitrate_kbps: u32) -> (ms: u64)
    ensures
        ms == ms_of(bytes as int, bitrate_kbps as int),
{
    let kbps: u64 = if bitrate_kbps < 1 {
        1
    } else {
        bitrate_kbps as u64
    };
    let bits: u64 = if bytes > u64::MAX / 8 {
        u64::MAX
    } else {
        bytes * 8
    };
    bits / kbps
}

/// Bytes that play for `ms` milliseconds at a bitrate.
pub fn ms_to_bytes(ms: u64, bitrate_kbps: u32) -> (bytes: u64)
    ensures
        bytes == bytes_of(ms as int, bitrate_kbps as int),
{
    let kbps: u64 = if bitrate_kbps < 1 {
        1
    } else {
        bitrate_kbps as u64
    };
    assert(ms as u128 * kbps as u128 <= u64::MAX * u32::MAX) by (nonlinear_arith)
        requires
            ms <= u64::MAX,
            kbps <= u32::MAX,
    ;
    let wide: u128 = ms as u128 * kbps as u128;
    let bits: u64 = if wide > u64::MAX as u128 {
        u64::MAX
    } else {
        wide as u64
    };
    bits / 8
}

#[derive(Debug, Clone, Copy, PartialEq, Eq, Structural)]
pub enum Action {
    /// Leave the buffers alone.
    Nothing,
    /// Discard the oldest buffered audio until at most `keep_bytes` remain.
    /// Returned on every poll for [`CATCHUP_WINDOW_MS`], not just once.
    CatchUp { keep_bytes: usize },
    /// Give up on trimming: drop the attempt and reconnect, which lands back
    /// on the burst.
    Reconnect,
}

#[derive(Debug, Clone, Copy, PartialEq, Eq, Structural)]
pub enum BlockVerdict {
    /// Usable: in sequence and after the settle grace.
    Fresh,
    /// Out of order or a duplicate: ignored entirely.
    StaleSeq,
    /// Arrived before the connection settled.
    Provisional,
}

#[derive(Debug, Clone, Copy, PartialEq, Eq, Structural)]
pub enum State {
    Settling,
    Steady,
    CatchingUp,
    Cooldown,
    Reconnecting,
}

impl State {
    /// The name of a state, as diagnostics show it.
    pub open spec fn name(self) -> Seq<char> {
        match self {
            State::Settling => "settling"@,
            State::Steady => "steady"@,
            State::CatchingUp => "catching-up"@,
            State::Cooldown => "cooldown"@,
            State::Reconnecting => "reconnecting"@,
        }
    }

    pub fn as_str(self) -> (s: &'static str)
        ensures
            s@ == self.name(),
    {
        match self {
            State::Settling => "settling",
            State::Steady => "steady",
            State::CatchingUp => "catching-up",
            State::Cooldown => "cooldown",
            State::Reconnecting => "reconnecting",
        }
    }
}

/// A snapshot for diagnostics.
#[derive(Debug, Clone, Copy)]
pub struct Report {
    pub state: State,
    pub lag_ms: Option<i64>,
    pub excess_ms: Option<i64>,
    pub buffer_ms: u64,
    pub buffer_bytes: u64,
    pub bitrate_kbps: u32,
    pub dropped_ms: u64,
    pub catchups: u32,
    pub reconnects: u32,
}

/// What a [`Drift`] knows.
pub ghost struct Model {
    pub state: State,
    pub bitrate_kbps: int,
    pub first_packet_at: Option<int>,
    pub last_poll: Option<int>,
    pub buffer_bytes: int,
    pub local_ms: int,
    pub over_since: Option<int>,
    pub catchup_until: int,
    pub cooldown_until: int,
    pub calm_since: Option<int>,
    pub last_seq: Option<int>,
    pub lag_ms: Option<int>,
    pub baseline_lag: Option<int>,
    pub consecutive_excess: int,
    pub meta_trigger: bool,
    pub dropped_bytes_episode: int,
    pub dropped_bytes_total: int,
    pub catchups: int,
    pub reconnects: int,
}

/// A bitrate in the range that streams have, or the default.
pub open spec fn sane(kbps: int) -> int {
    if 32 <= kbps <= 512 {
        kbps
    } else {
        DEFAULT_BITRATE_KBPS as int
    }
}

impl Model {
    /// A controller that has seen nothing.
    pub open spec fn fresh(kbps: int) -> Model {
        Model {
            state: State::Settling,
            bitrate_kbps: sane(kbps),
            first_packet_at: None,
            last_poll: None,
            buffer_bytes: 0,
            local_ms: 0,
            over_since: None,
            catchup_until: 0,
            cooldown_until: 0,
            calm_since: None,
            last_seq: None,
            lag_ms: None,
            baseline_lag: None,
            consecutive_excess: 0,
            meta_trigger: false,
            dropped_bytes_episode: 0,
            dropped_bytes_total: 0,
            catchups: 0,
            reconnects: 0,
        }
    }

    /// What every operation keeps.
    pub open spec fn wf(self) -> bool {
        &&& 32 <= self.bitrate_kbps <= 512
        &&& 0 <= self.dropped_bytes_episode <= self.dropped_bytes_total
        // An episode has a bounded number of catch-ups, and a connection at
        // most one reconnect, which ends it.
        &&& self.catchups <= MAX_CATCHUPS_PER_EPISODE
        &&& (self.state is Settling || self.state is Steady) ==> self.catchups
            < MAX_CATCHUPS_PER_EPISODE
        &&& self.reconnects == (if self.state is Reconnecting {
            1int
        } else {
            0int
        })
        // Lag is measured only once settled, together with its baseline.
        &&& self.state is Settling ==> self.lag_ms is None
        &&& match (self.lag_ms, self.baseline_lag) {
            (Some(lag), Some(base)) => base <= lag && lag - base <= i64::MAX,
            (None, None) => true,
            _ => false,
        }
    }

    pub open spec fn settled(self) -> bool {
        !(self.state is Settling)
    }

    /// Lag growth since the smallest lag of this connection.
    pub open spec fn excess_ms(self) -> Option<int> {
        match (self.lag_ms, self.baseline_lag) {
            (Some(lag), Some(base)) => Some(lag - base),
            _ => None,
        }
    }

    /// `bytes` more bytes were discarded.
    pub open spec fn trimmed(self, bytes: int) -> Model {
        Model {
            dropped_bytes_episode: capped(self.dropped_bytes_episode + bytes),
            dropped_bytes_total: capped(self.dropped_bytes_total + bytes),
            ..self
        }
    }

    /// The bytes that a trim leaves in place.
    pub open spec fn keep_bytes(self) -> int {
        bytes_of(TARGET_LAG_MS as int, self.bitrate_kbps)
    }

    // -- metadata blocks ---------------------------------------------------

    /// Whether a block with this number is old news.
    pub open spec fn stale(self, seq: int) -> bool {
        match self.last_seq {
            Some(last) => last - SEQ_RESET_SLACK <= seq <= last,
            None => false,
        }
    }

    /// Whether a block with this number comes from a restarted source.
    pub open spec fn restarted(self, seq: int) -> bool {
        match self.last_seq {
            Some(last) => seq + SEQ_RESET_SLACK < last,
            None => false,
        }
    }

    /// The block with this number is now the last one. A restart forgets the
    /// baseline, which described a timeline that no longer exists.
    pub open spec fn anchored(self, seq: int) -> Model {
        if self.restarted(seq) {
            Model { last_seq: Some(seq), baseline_lag: None, consecutive_excess: 0, ..self }
        } else {
            Model { last_seq: Some(seq), ..self }
        }
    }

    /// The smallest lag, once `lag` has been seen too.
    pub open spec fn baseline_with(self, lag: int) -> int {
        match self.baseline_lag {
            Some(base) => if base < lag {
                base
            } else {
                lag
            },
            None => lag,
        }
    }

    /// Whether `lag` is too far above the baseline.
    pub open spec fn excessive(self, lag: int) -> bool {
        lag - self.baseline_with(lag) > CEILING_MS - TARGET_LAG_MS
    }

    /// A lag has been measured. Two excessive ones in a row, with a buffer at
    /// least a full target deep, ask for a catch-up.
    pub open spec fn measured(self, lag: int) -> Model {
        let run: int = if self.excessive(lag) {
            self.consecutive_excess + 1
        } else {
            0
        };
        Model {
            lag_ms: Some(lag),
            baseline_lag: Some(self.baseline_with(lag)),
            consecutive_excess: run,
            meta_trigger: self.meta_trigger || (run >= 2 && self.local_ms >= TARGET_LAG_MS),
            ..self
        }
    }

    /// A metadata block reached the speakers: `lag` is how old it says it is.
    pub open spec fn observed(self, seq: int, lag: int) -> (Model, BlockVerdict) {
        if self.stale(seq) {
            (self, BlockVerdict::StaleSeq)
        } else if !self.settled() {
            (self.anchored(seq), BlockVerdict::Provisional)
        } else {
            (self.anchored(seq).measured(lag), BlockVerdict::Fresh)
        }
    }

    /// Whether the counters can hold what a block brings.
    pub open spec fn holds_block(self, seq: int, lag: int) -> bool {
        &&& self.last_seq is Some ==> seq + SEQ_RESET_SLACK <= u64::MAX
        &&& !self.stale(seq) && self.settled() ==> {
            let base = self.anchored(seq);
            &&& i64::MIN <= lag <= i64::MAX
            &&& lag - base.baseline_with(lag) <= i64::MAX
            &&& base.excessive(lag) ==> base.consecutive_excess < u32::MAX
        }
    }

    // -- polling -----------------------------------------------------------

    /// Whether a poll at `now` comes too soon after the last one.
    pub open spec fn gated(self, now: int) -> bool {
        self.last_poll matches Some(t) && now < capped(t + POLL_MS)
    }

    /// The buffers were measured. Calm for long enough, and the episode is
    /// forgotten.
    pub open spec fn sampled(self, buffer_bytes: int, ring_ms: int, now: int) -> Model {
        let local_ms = ms_of(buffer_bytes, self.bitrate_kbps) + ring_ms;
        let calm_since: Option<int> = if local_ms > CATCHUP_AT_MS {
            None
        } else if self.calm_since is Some {
            self.calm_since
        } else {
            Some(now)
        };
        let forget = calm_since is Some && now - calm_since->0 >= EPISODE_CLEAR_MS;
        Model {
            last_poll: Some(now),
            buffer_bytes,
            local_ms,
            calm_since,
            catchups: if forget {
                0
            } else {
                self.catchups
            },
            dropped_bytes_episode: if forget {
                0
            } else {
                self.dropped_bytes_episode
            },
            ..self
        }
    }

    /// A catch-up begins.
    pub open spec fn catching_up(self, now: int) -> Model {
        Model {
            state: State::CatchingUp,
            catchup_until: capped(now + CATCHUP_WINDOW_MS),
            over_since: None,
            meta_trigger: false,
            consecutive_excess: 0,
            catchups: self.catchups + 1,
            ..self
        }
    }

    /// The request to trim.
    pub open spec fn trim_request(self) -> Action {
        Action::CatchUp { keep_bytes: self.keep_bytes() as usize }
    }

    /// Settling: wait out the grace after the first packet.
    pub open spec fn judged_settling(self, now: int) -> (Model, Action) {
        if self.first_packet_at is Some && now - self.first_packet_at->0 >= SETTLE_MS {
            (Model { state: State::Steady, over_since: None, ..self }, Action::Nothing)
        } else {
            (self, Action::Nothing)
        }
    }

    /// When the present breach began, if there is one.
    pub open spec fn breach_since(self, now: int) -> Option<int> {
        if self.local_ms <= CATCHUP_AT_MS {
            None
        } else if self.over_since is Some {
            self.over_since
        } else {
            Some(now)
        }
    }

    /// Steady: a breach that persists, or excessive lag with a deep buffer,
    /// begins a catch-up.
    pub open spec fn judged_steady(self, now: int) -> (Model, Action) {
        let since = self.breach_since(now);
        let sustained = since is Some && now - since->0 >= SUSTAIN_MS;
        if sustained || (self.meta_trigger && self.local_ms >= TARGET_LAG_MS) {
            (self.catching_up(now), self.trim_request())
        } else {
            (Model { over_since: since, ..self }, Action::Nothing)
        }
    }

    /// Catching up: keep asking until the window closes or the episode has
    /// used up its drop allowance.
    pub open spec fn judged_catching_up(self, now: int) -> (Model, Action) {
        if now >= self.catchup_until || self.dropped_bytes_episode >= MAX_DROP_BYTES {
            (
                Model {
                    state: State::Cooldown,
                    cooldown_until: capped(now + COOLDOWN_MS),
                    ..self
                },
                Action::Nothing,
            )
        } else {
            (self, self.trim_request())
        }
    }

    /// Whether trimming has done all that it may in this episode.
    pub open spec fn used_up(self) -> bool {
        self.catchups >= MAX_CATCHUPS_PER_EPISODE || self.dropped_bytes_episode >= MAX_DROP_BYTES
    }

    /// Cooling down: wait, then judge whether trimming held.
    pub open spec fn judged_cooldown(self, now: int) -> (Model, Action) {
        if now < self.cooldown_until {
            (self, Action::Nothing)
        } else if self.local_ms > CEILING_MS || self.used_up() {
            (
                Model { state: State::Reconnecting, reconnects: self.reconnects + 1, ..self },
                Action::Reconnect,
            )
        } else {
            (Model { state: State::Steady, over_since: None, ..self }, Action::Nothing)
        }
    }

    /// What a poll decides, once the buffers have been measured.
    pub open spec fn judged(self, now: int) -> (Model, Action) {
        match self.state {
            State::Settling => self.judged_settling(now),
            State::Steady => self.judged_steady(now),
            State::CatchingUp => self.judged_catching_up(now),
            State::Cooldown => self.judged_cooldown(now),
            State::Reconnecting => (self, Action::Nothing),
        }
    }

    /// One poll of the controller.
    pub open spec fn polled(self, buffer_bytes: int, ring_ms: int, now: int) -> (Model, Action) {
        if self.gated(now) {
            (self, Action::Nothing)
        } else {
            self.sampled(buffer_bytes, ring_ms, now).judged(now)
        }
    }

    /// Whether the counters can hold what a poll measures.
    pub open spec fn holds_poll(self, buffer_bytes: int, ring_ms: int, now: int) -> bool {
        self.gated(now) || ms_of(buffer_bytes, self.bitrate_kbps) + ring_ms <= u64::MAX
    }
}

/// The drift controller of one connection.
pub struct Drift {
    state: State,
    bitrate_kbps: u32,
    first_packet_at: Option<u64>,
    last_poll: Option<u64>,
    buffer_bytes: u64,
    local_ms: u64,
    /// When the current uninterrupted breach began.
    over_since: Option<u64>,
    catchup_until: u64,
    cooldown_until: u64,
    /// Since when the buffer has looked healthy, for clearing the episode.
    calm_since: Option<u64>,
    last_seq: Option<u64>,
    lag_ms: Option<i64>,
    /// Smallest lag seen since this connection settled. Constant clock skew
    /// lands in here and is subtracted straight back out.
    baseline_lag: Option<i64>,
    consecutive_excess: u32,
    meta_trigger: bool,
    dropped_bytes_episode: u64,
    dropped_bytes_total: u64,
    catchups: u32,
    reconnects: u32,
}

/// An optional counter as a number.
pub open spec fn counter(x: Option<u64>) -> Option<int> {
    match x {
        Some(n) => Some(n as int),
        None => None,
    }
}

/// An optional duration as a number.
pub open spec fn duration(x: Option<i64>) -> Option<int> {
    match x {
        Some(n) => Some(n as int),
        None => None,
    }
}

impl View for Drift {
    type V = Model;

    closed spec fn view(&self) -> Model {
        Model {
            state: self.state,
            bitrate_kbps: self.bitrate_kbps as int,
            first_packet_at: counter(self.first_packet_at),
            last_poll: counter(self.last_poll),
            buffer_bytes: self.buffer_bytes as int,
            local_ms: self.local_ms as int,
            over_since: counter(self.over_since),
            catchup_until: self.catchup_until as int,
            cooldown_until: self.cooldown_until as int,
            calm_since: counter(self.calm_since),
            last_seq: counter(self.last_seq),
            lag_ms: duration(self.lag_ms),
            baseline_lag: duration(self.baseline_lag),
            consecutive_excess: self.consecutive_excess as int,
            meta_trigger: self.meta_trigger,
            dropped_bytes_episode: self.dropped_bytes_episode as int,
            dropped_bytes_total: self.dropped_bytes_total as int,
            catchups: self.catchups as int,
            reconnects: self.reconnects as int,
        }
    }
}

/// A bitrate in the range that streams have, or the default.
fn sane_bitrate(kbps: u32) -> (r: u32)
    ensures
        r == sane(kbps as int),
{
    if 32 <= kbps && kbps <= 512 {
        kbps
    } else {
        DEFAULT_BITRATE_KBPS
    }
}

impl Drift {
    pub fn new(bitrate_kbps: u32) -> (d: Self)
        ensures
            d@ == Model::fresh(bitrate_kbps as int),
            d@.wf(),
    {
        Drift {
            state: State::Settling,
            bitrate_kbps: sane_bitrate(bitrate_kbps),
            first_packet_at: None,
            last_poll: None,
            buffer_bytes: 0,
            local_ms: 0,
            over_since: None,
            catchup_until: 0,
            cooldown_until: 0,
            calm_since: None,
            last_seq: None,
            lag_ms: None,
            baseline_lag: None,
            consecutive_excess: 0,
            meta_trigger: false,
            dropped_bytes_episode: 0,
            dropped_bytes_total: 0,
            catchups: 0,
            reconnects: 0,
        }
    }

    pub fn set_bitrate(&mut self, kbps: u32)
        ensures
            final(self)@ == (Model { bitrate_kbps: sane(kbps as int), ..old(self)@ }),
            old(self)@.wf() ==> final(self)@.wf(),
    {
        self.bitrate_kbps = sane_bitrate(kbps);
    }

    pub fn bitrate_kbps(&self) -> (kbps: u32)
        ensures
            kbps == self@.bitrate_kbps,
    {
        self.bitrate_kbps
    }

    pub fn state(&self) -> (s: State)
        ensures
            s == self@.state,
    {
        self.state
    }

    /// The first packet has been decoded; start the settle clock.
    pub fn first_packet(&mut self, now_ms: u64)
        ensures
            final(self)@ == (Model {
                first_packet_at: if old(self)@.first_packet_at is Some {
                    old(self)@.first_packet_at
                } else {
                    Some(now_ms as int)
                },
                ..old(self)@
            }),
            old(self)@.wf() ==> final(self)@.wf(),
    {
        if self.first_packet_at.is_none() {
            self.first_packet_at = Some(now_ms);
        }
    }

    /// True once the connection has settled. Before that, lag readings are
    /// meaningless, because the burst is still being played.
    pub fn settled(&self) -> (b: bool)
        ensures
            b == self@.settled(),
    {
        match self.state {
            State::Settling => false,
            _ => true,
        }
    }

    pub fn on_trimmed(&mut self, bytes: u64)
        ensures
            final(self)@ == old(self)@.trimmed(bytes as int),
            old(self)@.wf() ==> final(self)@.wf(),
    {
        self.dropped_bytes_episode = self.dropped_bytes_episode.saturating_add(bytes);
        self.dropped_bytes_total = self.dropped_bytes_total.saturating_add(bytes);
    }

    /// Fold in a metadata block at the moment its audio reaches the speakers.
    pub fn on_block(&mut self, url: &StreamUrl, now_ms: u64) -> (verdict: BlockVerdict)
        requires
            old(self)@.wf(),
            old(self)@.holds_block(url.seq as int, now_ms as i64 - url.wall_ms),
        ensures
            (final(self)@, verdict) == old(self)@.observed(
                url.seq as int,
                now_ms as i64 - url.wall_ms,
            ),
            final(self)@.wf(),
    {
        if let Some(last) = self.last_seq {
            if url.seq + SEQ_RESET_SLACK < last {
                self.last_seq = None;
                self.baseline_lag = None;
                self.consecutive_excess = 0;
            } else if url.seq <= last {
                return BlockVerdict::StaleSeq;
            }
        }
        self.last_seq = Some(url.seq);

        if !self.settled() {
            return BlockVerdict::Provisional;
        }
        let lag: i64 = now_ms as i64 - url.wall_ms;
        self.lag_ms = Some(lag);
        let base: i64 = match self.baseline_lag {
            Some(b) => if b < lag {
                b
            } else {
                lag
            },
            None => lag,
        };
        self.baseline_lag = Some(base);

        // Only ever arms alongside a buffer that is at least a full target
        // deep, which is what keeps a bad clock from reaching it.
        if lag - base > (CEILING_MS - TARGET_LAG_MS) as i64 {
            self.consecutive_excess = self.consecutive_excess + 1;
            if self.consecutive_excess >= 2 && self.local_ms >= TARGET_LAG_MS {
                self.meta_trigger = true;
            }
        } else {
            self.consecutive_excess = 0;
        }
        BlockVerdict::Fresh
    }

    /// Whether the counters can hold what a block brings.
    pub fn holds_block(&self, url: &StreamUrl, now_ms: u64) -> (b: bool)
        requires
            self@.wf(),
        ensures
            b == self@.holds_block(url.seq as int, now_ms as i64 - url.wall_ms),
    {
        let mut base: Option<i64> = self.baseline_lag;
        let mut run: u32 = self.consecutive_excess;
        if let Some(last) = self.last_seq {
            if url.seq > u64::MAX - SEQ_RESET_SLACK {
                return false;
            }
            if url.seq + SEQ_RESET_SLACK < last {
                base = None;
                run = 0;
            } else if url.seq <= last {
                return true;
            }
        }
        if !self.settled() {
            return true;
        }
        let lag: i128 = now_ms as i64 as i128 - url.wall_ms as i128;
        let least: i128 = match base {
            Some(b) => if (b as i128) < lag {
                b as i128
            } else {
                lag
            },
            None => lag,
        };
        i64::MIN as i128 <= lag && lag <= i64::MAX as i128 && lag - least <= i64::MAX as i128 && (
        lag - least <= (CEILING_MS - TARGET_LAG_MS) as i128 || run < u32::MAX)
    }

    /// Whether a poll comes too soon after the last one.
    fn too_soon(&self, now_ms: u64) -> (b: bool)
        ensures
            b == self@.gated(now_ms as int),
    {
        match self.last_poll {
            Some(t) => now_ms < t.saturating_add(POLL_MS),
            None => false,
        }
    }

    /// Whether the counters can hold what a poll measures.
    pub fn holds_poll(&self, buffer_bytes: u64, ring_ms: u64, now_ms: u64) -> (b: bool)
        ensures
            b == self@.holds_poll(buffer_bytes as int, ring_ms as int, now_ms as int),
    {
        self.too_soon(now_ms) || bytes_to_ms(buffer_bytes, self.bitrate_kbps) <= u64::MAX - ring_ms
    }

    fn excess_ms(&self) -> (e: Option<i64>)
        requires
            self@.wf(),
        ensures
            duration(e) == self@.excess_ms(),
    {
        match (self.lag_ms, self.baseline_lag) {
            (Some(lag), Some(base)) => Some(lag - base),
            _ => None,
        }
    }

    /// Drive the controller. Call freely; it self-gates to [`POLL_MS`].
    pub fn poll(&mut self, buffer_bytes: u64, ring_ms: u64, now_ms: u64) -> (action: Action)
        requires
            old(self)@.wf(),
            old(self)@.holds_poll(buffer_bytes as int, ring_ms as int, now_ms as int),
        ensures
            (final(self)@, action) == old(self)@.polled(
                buffer_bytes as int,
                ring_ms as int,
                now_ms as int,
            ),
            final(self)@.wf(),
    {
        if self.too_soon(now_ms) {
            return Action::Nothing;
        }
        self.last_poll = Some(now_ms);
        self.buffer_bytes = buffer_bytes;
        self.local_ms = bytes_to_ms(buffer_bytes, self.bitrate_kbps) + ring_ms;

        // Forget an old episode once things have been calm for long enough.
        if self.local_ms <= CATCHUP_AT_MS {
            let since: u64 = match self.calm_since {
                Some(t) => t,
                None => now_ms,
            };
            self.calm_since = Some(since);
            if now_ms.saturating_sub(since) >= EPISODE_CLEAR_MS {
                self.catchups = 0;
                self.dropped_bytes_episode = 0;
            }
        } else {
            self.calm_since = None;
        }

        match self.state {
            State::Settling => {
                if let Some(t0) = self.first_packet_at {
                    if now_ms.saturating_sub(t0) >= SETTLE_MS {
                        self.state = State::Steady;
                        self.over_since = None;
                    }
                }
                Action::Nothing
            },
            State::Steady => {
                if self.local_ms > CATCHUP_AT_MS {
                    let since: u64 = match self.over_since {
                        Some(t) => t,
                        None => now_ms,
                    };
                    self.over_since = Some(since);
                    if now_ms.saturating_sub(since) >= SUSTAIN_MS {
                        return self.begin_catchup(now_ms);
                    }
                } else {
                    self.over_since = None;
                }
                // The metadata path bypasses the wait: by the time two
                // heartbeats have agreed, a minute has already passed.
                if self.meta_trigger && self.local_ms >= TARGET_LAG_MS {
                    return self.begin_catchup(now_ms);
                }
                Action::Nothing
            },
            State::CatchingUp => {
                if now_ms >= self.catchup_until || self.dropped_bytes_episode >= MAX_DROP_BYTES {
                    self.state = State::Cooldown;
                    self.cooldown_until = now_ms.saturating_add(COOLDOWN_MS);
                    return Action::Nothing;
                }
                self.trim_request()
            },
            State::Cooldown => {
                if now_ms < self.cooldown_until {
                    return Action::Nothing;
                }
                if self.local_ms > CEILING_MS || self.catchups >= MAX_CATCHUPS_PER_EPISODE
                    || self.dropped_bytes_episode >= MAX_DROP_BYTES {
                    // Trimming is not holding. A reconnect re-enters on the
                    // burst, which is the target by definition.
                    self.state = State::Reconnecting;
                    self.reconnects = self.reconnects + 1;
                    return Action::Reconnect;
                }
                self.state = State::Steady;
                self.over_since = None;
                Action::Nothing
            },
            State::Reconnecting => Action::Nothing,
        }
    }

    /// The request to trim down to the target lag.
    fn trim_request(&self) -> (action: Action)
        requires
            32 <= self@.bitrate_kbps <= 512,
        ensures
            action == self@.trim_request(),
    {
        let keep: u64 = ms_to_bytes(TARGET_LAG_MS, self.bitrate_kbps);
        Action::CatchUp { keep_bytes: keep as usize }
    }

    fn begin_catchup(&mut self, now_ms: u64) -> (action: Action)
        requires
            32 <= old(self)@.bitrate_kbps <= 512,
            old(self)@.catchups < MAX_CATCHUPS_PER_EPISODE,
        ensures
            final(self)@ == old(self)@.catching_up(now_ms as int),
            action == old(self)@.trim_request(),
    {
        self.state = State::CatchingUp;
        self.catchup_until = now_ms.saturating_add(CATCHUP_WINDOW_MS);
        self.over_since = None;
        self.meta_trigger = false;
        self.consecutive_excess = 0;
        self.catchups = self.catchups + 1;
        self.trim_request()
    }

    pub fn report(&self) -> (r: Report)
        requires
            self@.wf(),
        ensures
            r.state == self@.state,
            duration(r.lag_ms) == self@.lag_ms,
            duration(r.excess_ms) == self@.excess_ms(),
            !self@.settled() ==> r.lag_ms is None && r.excess_ms is None,
            r.buffer_ms == self@.local_ms,
            r.buffer_bytes == self@.buffer_bytes,
            r.bitrate_kbps == self@.bitrate_kbps,
            r.dropped_ms == ms_of(self@.dropped_bytes_total, self@.bitrate_kbps),
            r.catchups == self@.catchups,
            r.reconnects == self@.reconnects,
    {
        Report {
            state: self.state,
            lag_ms: if self.settled() {
                self.lag_ms
            } else {
                None
            },
            excess_ms: if self.settled() {
                self.excess_ms()
            } else {
                None
            },
            buffer_ms: self.local_ms,
            buffer_bytes: self.buffer_bytes,
            bitrate_kbps: self.bitrate_kbps,
            dropped_ms: bytes_to_ms(self.dropped_bytes_total, self.bitrate_kbps),
            catchups: self.catchups,
            reconnects: self.reconnects,
        }
    }
}

} // verus!
