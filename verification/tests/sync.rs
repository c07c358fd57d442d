use ltbrfm_player::icy::StreamUrl;
use ltbrfm_player::sync::{
    bytes_to_ms, ms_to_bytes, wall_ms, Action, BlockVerdict, Drift, State, CATCHUP_WINDOW_MS,
    CEILING_MS, COOLDOWN_MS, MAX_DROP_BYTES, POLL_MS, SETTLE_MS, SUSTAIN_MS, TARGET_LAG_MS,
};

const KBPS: u32 = 128;

fn url(seq: u64, wall_ms: i64) -> StreamUrl {
    StreamUrl {
        seq,
        playhead_ms: 0,
        wall_ms,
        kind: "track".into(),
        item_id: "t".into(),
        payload: None,
    }
}

/// Drive `poll` at the real cadence for `ms`, returning the first action
/// and the time it happened.
fn run(d: &mut Drift, depth_ms: u64, from: u64, ms: u64) -> (Action, u64) {
    let bytes = ms_to_bytes(depth_ms, KBPS);
    let mut t = from;
    while t < from + ms {
        let a = d.poll(bytes, 0, t);
        if a != Action::Nothing {
            return (a, t);
        }
        t += POLL_MS;
    }
    (Action::Nothing, t)
}

fn settled(depth_ms: u64) -> (Drift, u64) {
    let mut d = Drift::new(KBPS);
    d.first_packet(0);
    let (a, t) = run(&mut d, depth_ms, 0, SETTLE_MS + POLL_MS);
    assert_eq!(a, Action::Nothing, "settling must never act");
    assert_eq!(d.state(), State::Steady);
    (d, t)
}

#[test]
fn settling_absorbs_the_burst() {
    // A full burst in the pipe is healthy, not drift — and even a pipe well
    // over the threshold must not trigger before the settle grace expires.
    let mut d = Drift::new(KBPS);
    d.first_packet(0);
    let (a, _) = run(&mut d, 14_000, 0, SETTLE_MS - POLL_MS);
    assert_eq!(a, Action::Nothing);
    assert_eq!(d.state(), State::Settling);
    assert!(d.report().lag_ms.is_none(), "no lag reported while settling");
}

#[test]
fn a_healthy_buffer_never_acts() {
    let (mut d, t) = settled(TARGET_LAG_MS);
    let (a, _) = run(&mut d, TARGET_LAG_MS, t, 300_000);
    assert_eq!(a, Action::Nothing);
    assert_eq!(d.report().catchups, 0);
}

#[test]
fn sustained_overrun_trims_back_to_target() {
    let (mut d, t) = settled(TARGET_LAG_MS);
    let (a, at) = run(&mut d, 13_000, t, 60_000);
    assert_eq!(
        a,
        Action::CatchUp { keep_bytes: ms_to_bytes(TARGET_LAG_MS, KBPS) as usize }
    );
    // Must have waited out SUSTAIN_MS rather than firing on first sight.
    assert!(at - t >= SUSTAIN_MS, "fired after {}ms, want >= {SUSTAIN_MS}", at - t);
    assert_eq!(d.report().catchups, 1);
}

#[test]
fn a_brief_spike_is_ignored() {
    let (mut d, mut t) = settled(TARGET_LAG_MS);
    // Over the line, but for less than SUSTAIN_MS.
    let (a, nt) = run(&mut d, 13_000, t, SUSTAIN_MS - POLL_MS);
    assert_eq!(a, Action::Nothing);
    t = nt;
    // Back to healthy: the breach timer must reset, not accumulate.
    let (a, nt) = run(&mut d, TARGET_LAG_MS, t, 10_000);
    assert_eq!(a, Action::Nothing);
    let (a, _) = run(&mut d, 13_000, nt, SUSTAIN_MS - POLL_MS);
    assert_eq!(a, Action::Nothing, "breach timer must have restarted");
}

#[test]
fn catch_up_keeps_trimming_then_cools_down() {
    let (mut d, t) = settled(TARGET_LAG_MS);
    let (a, mut t) = run(&mut d, 13_000, t, 60_000);
    assert!(matches!(a, Action::CatchUp { .. }));

    // A single drop would just be refilled from the socket, so the window
    // must keep asking.
    let mut trims = 1;
    let bytes = ms_to_bytes(13_000, KBPS);
    while d.state() == State::CatchingUp {
        t += POLL_MS;
        if matches!(d.poll(bytes, 0, t), Action::CatchUp { .. }) {
            trims += 1;
        }
    }
    assert!(trims >= 4, "expected repeated trims across the window, got {trims}");
    assert_eq!(d.state(), State::Cooldown);
}

#[test]
fn cooldown_suppresses_a_second_catch_up() {
    let (mut d, t) = settled(TARGET_LAG_MS);
    let (_, t) = run(&mut d, 13_000, t, 60_000);

    // Stay breached throughout; nothing more may fire until cooldown ends.
    let bytes = ms_to_bytes(13_000, KBPS);
    let mut tt = t;
    let deadline = t + CATCHUP_WINDOW_MS + COOLDOWN_MS - POLL_MS;
    let mut extra_catchups = 0;
    while tt < deadline {
        tt += POLL_MS;
        if d.state() != State::CatchingUp {
            if matches!(d.poll(bytes, 0, tt), Action::CatchUp { .. }) {
                extra_catchups += 1;
            }
        } else {
            d.poll(bytes, 0, tt);
        }
    }
    assert_eq!(extra_catchups, 0, "cooldown must gate re-firing");
}

#[test]
fn repeated_failure_escalates_to_reconnect() {
    // Lag pinned above the ceiling: trimming is not helping, so the
    // controller must stop trimming and reconnect.
    let (mut d, t) = settled(TARGET_LAG_MS);
    let bytes = ms_to_bytes(20_000, KBPS);
    let mut tt = t;
    let mut saw_reconnect = false;
    for _ in 0..4_000 {
        tt += POLL_MS;
        if d.poll(bytes, 0, tt) == Action::Reconnect {
            saw_reconnect = true;
            break;
        }
    }
    assert!(saw_reconnect, "never escalated; state {:?}", d.state());
    assert_eq!(d.report().reconnects, 1);
    assert_eq!(d.state(), State::Reconnecting);
}

#[test]
fn metadata_lag_alone_never_acts() {
    // The clock says we are a minute late, but our buffers are healthy —
    // the extra latency is upstream or the clock is wrong. Trimming an
    // already-shallow pipe would only cause an underrun.
    let (mut d, mut t) = settled(TARGET_LAG_MS);
    let bytes = ms_to_bytes(4_000, KBPS);
    for i in 1..40u64 {
        t += 30_000;
        d.on_block(&url(i, t as i64 - 60_000), t);
        assert_eq!(d.poll(bytes, 0, t), Action::Nothing);
    }
    assert_eq!(d.report().catchups, 0);
}

#[test]
fn constant_clock_skew_is_absorbed() {
    // A listener whose clock is an hour fast reports a huge lag on every
    // block; the baseline subtracts it out, so `excess_ms` stays ~0.
    let (mut d, mut t) = settled(TARGET_LAG_MS);
    const SKEW: i64 = 3_600_000;
    for i in 1..10u64 {
        t += 30_000;
        d.on_block(&url(i, t as i64 - SKEW - 8_000), t);
    }
    let r = d.report();
    assert!(r.lag_ms.unwrap() > SKEW, "raw lag carries the skew");
    assert!(r.excess_ms.unwrap().abs() < 100, "excess must cancel it: {r:?}");
    assert_eq!(r.catchups, 0);
}

#[test]
fn metadata_excess_with_a_deep_pipe_bypasses_the_sustain_wait() {
    let (mut d, mut t) = settled(TARGET_LAG_MS);
    let bytes = ms_to_bytes(TARGET_LAG_MS, KBPS);

    // Establish a baseline at ~8s of lag.
    t += 30_000;
    d.on_block(&url(1, t as i64 - 8_000), t);
    d.poll(bytes, 0, t);

    // Now the true lag blows out while the local pipe stays exactly at
    // target — two consecutive blocks agree, so it fires without waiting.
    for i in 2..4u64 {
        t += 30_000;
        d.on_block(&url(i, t as i64 - 30_000), t);
    }
    t += POLL_MS;
    assert!(matches!(d.poll(bytes, 0, t), Action::CatchUp { .. }));
}

#[test]
fn stale_sequence_ignored_and_a_reset_re_anchors() {
    let (mut d, t) = settled(TARGET_LAG_MS);
    // A real session runs its sequence up into the hundreds before the source
    // ever restarts.
    assert_eq!(d.on_block(&url(233, t as i64 - 8_000), t), BlockVerdict::Fresh);
    // Icecast re-injects the same block after a source bounce; the audio
    // is unchanged, so it must not be re-measured.
    assert_eq!(d.on_block(&url(233, t as i64 - 8_000), t), BlockVerdict::StaleSeq);
    assert_eq!(d.on_block(&url(232, t as i64 - 8_000), t), BlockVerdict::StaleSeq);
    // The station's player restarted: seq falls back to the start of a new
    // session, describing a timeline the old baseline knows nothing about.
    assert_eq!(d.on_block(&url(1, t as i64 - 9_000), t), BlockVerdict::Fresh);
    assert_eq!(d.report().excess_ms, Some(0), "baseline must re-anchor");
}

/// Regression: observed against the live stream, where the first released
/// block reported a 38s lag because it was a heartbeat already sitting in
/// Icecast's burst when we connected — while the buffer was a perfectly
/// healthy 8s. Counting it would have poisoned the baseline.
#[test]
fn a_stale_block_from_the_burst_never_becomes_the_baseline() {
    let mut d = Drift::new(KBPS);
    d.first_packet(0);
    let bytes = ms_to_bytes(TARGET_LAG_MS, KBPS);

    let mut t = SETTLE_MS / 2;
    d.poll(bytes, 0, t);
    assert_eq!(
        d.on_block(&url(1, t as i64 - 38_000), t),
        BlockVerdict::Provisional,
        "a burst-era block must not be measured"
    );

    // Once settled, real blocks report the true ~8.5s.
    t += SETTLE_MS;
    d.poll(bytes, 0, t);
    assert!(d.settled());
    assert_eq!(d.on_block(&url(2, t as i64 - 8_500), t), BlockVerdict::Fresh);
    assert_eq!(d.report().lag_ms, Some(8_500));
    assert_eq!(d.report().excess_ms, Some(0), "baseline is the real lag");

    let (a, _) = run(&mut d, TARGET_LAG_MS, t, 60_000);
    assert_eq!(a, Action::Nothing, "a healthy stream must never be trimmed");
}

#[test]
fn blocks_before_settling_are_provisional() {
    let mut d = Drift::new(KBPS);
    d.first_packet(0);
    // Burst-on-connect means this block describes newer audio than we are
    // hearing, so its lag would read far too low.
    assert_eq!(d.on_block(&url(1, 0), 1_000), BlockVerdict::Provisional);
    assert!(d.report().lag_ms.is_none());
}

#[test]
fn byte_and_millisecond_conversions_agree_with_the_burst() {
    // The Icecast burst is 131072 bytes; at 128kbps that is the 8s target.
    assert_eq!(ms_to_bytes(TARGET_LAG_MS, 128), 128_000);
    assert_eq!(bytes_to_ms(131_072, 128), 8_192);
    assert_eq!(bytes_to_ms(ms_to_bytes(12_345, 192), 192), 12_345);
    // A nonsense bitrate falls back rather than dividing by zero.
    assert_eq!(Drift::new(0).bitrate_kbps(), 128);
    assert_eq!(Drift::new(9_999).bitrate_kbps(), 128);
    assert_eq!(Drift::new(192).bitrate_kbps(), 192);
}

#[test]
fn the_wall_clock_falls_back_to_zero() {
    assert_eq!(wall_ms(None), 0);
    assert_eq!(wall_ms(Some(1_700_000_000_000)), 1_700_000_000_000);
    assert_eq!(wall_ms(Some((1u128 << 64) + 5)), 5);
}

#[test]
fn conversions_saturate() {
    assert_eq!(bytes_to_ms(u64::MAX, 128), u64::MAX / 128);
    assert_eq!(ms_to_bytes(u64::MAX, 128), u64::MAX / 8);
    assert_eq!(bytes_to_ms(100, 0), 800);
    assert_eq!(ms_to_bytes(80, 0), 10);
}

#[test]
fn polls_are_gated() {
    let (mut d, t) = settled(TARGET_LAG_MS);
    let deep = ms_to_bytes(20_000, KBPS);
    d.poll(deep, 0, t);
    let before = d.report().buffer_bytes;
    assert_eq!(d.poll(0, 0, t + POLL_MS - 1), Action::Nothing);
    assert_eq!(d.report().buffer_bytes, before, "a gated poll measures nothing");
}

#[test]
fn a_poll_at_time_zero_gates_like_any_other() {
    let mut d = Drift::new(KBPS);
    d.poll(0, 0, 0);
    d.poll(16_000, 0, 100);
    let r = d.report();
    assert_eq!((r.buffer_bytes, r.buffer_ms), (0, 0), "a gated poll measures nothing");
    d.poll(16_000, 0, POLL_MS);
    let r = d.report();
    assert_eq!((r.buffer_bytes, r.buffer_ms), (16_000, 1_000));
}

#[test]
fn a_used_up_allowance_never_trims_again() {
    let (mut d, t) = settled(TARGET_LAG_MS);
    let (a, t) = run(&mut d, 13_000, t, 60_000);
    assert!(matches!(a, Action::CatchUp { .. }));
    d.on_trimmed(MAX_DROP_BYTES);
    // Deep, but below the ceiling: what comes next is a reconnect all the same.
    let (a, t) = run(&mut d, 13_000, t + POLL_MS, 60_000);
    assert_eq!(a, Action::Reconnect);
    assert_eq!(d.state(), State::Reconnecting);
    assert_eq!(d.report().reconnects, 1);
    let (a, _) = run(&mut d, 13_000, t + POLL_MS, 60_000);
    assert_eq!(a, Action::Nothing);
}

#[test]
fn the_output_ring_counts_towards_the_buffer() {
    let (mut d, t) = settled(TARGET_LAG_MS);
    d.poll(ms_to_bytes(4_000, KBPS), 9_000, t);
    assert_eq!(d.report().buffer_ms, 13_000);
}

#[test]
fn an_episode_has_a_drop_allowance() {
    let (mut d, t) = settled(TARGET_LAG_MS);
    let (a, t) = run(&mut d, 13_000, t, 60_000);
    assert!(matches!(a, Action::CatchUp { .. }));
    d.on_trimmed(MAX_DROP_BYTES);
    assert_eq!(d.poll(ms_to_bytes(13_000, KBPS), 0, t + POLL_MS), Action::Nothing);
    assert_eq!(d.state(), State::Cooldown);
    assert_eq!(d.report().dropped_ms, bytes_to_ms(MAX_DROP_BYTES, KBPS));
}

#[test]
fn a_backlog_that_outlasts_the_allowance_reconnects() {
    let (mut d, t) = settled(TARGET_LAG_MS);
    let (_, t) = run(&mut d, 13_000, t, 60_000);
    d.on_trimmed(MAX_DROP_BYTES);
    let deep = ms_to_bytes(16_000, KBPS);
    assert_eq!(d.poll(deep, 0, t + POLL_MS), Action::Nothing);
    assert_eq!(d.state(), State::Cooldown);
    assert_eq!(d.poll(deep, 0, t + POLL_MS + COOLDOWN_MS), Action::Reconnect);
}

#[test]
fn a_healthy_buffer_after_cooldown_is_steady_again() {
    let (mut d, t) = settled(TARGET_LAG_MS);
    let (_, t) = run(&mut d, 13_000, t, 60_000);
    let bytes = ms_to_bytes(TARGET_LAG_MS, KBPS);
    d.poll(bytes, 0, t + CATCHUP_WINDOW_MS);
    assert_eq!(d.state(), State::Cooldown);
    d.poll(bytes, 0, t + CATCHUP_WINDOW_MS + COOLDOWN_MS);
    assert_eq!(d.state(), State::Steady);
    assert!(CEILING_MS > TARGET_LAG_MS);
}

#[test]
fn states_have_names() {
    let names = [
        State::Settling.as_str(),
        State::Steady.as_str(),
        State::CatchingUp.as_str(),
        State::Cooldown.as_str(),
        State::Reconnecting.as_str(),
    ];
    assert_eq!(names, ["settling", "steady", "catching-up", "cooldown", "reconnecting"]);
}

#[test]
fn a_new_bitrate_changes_the_measure() {
    let (mut d, t) = settled(TARGET_LAG_MS);
    d.set_bitrate(64);
    assert_eq!(d.bitrate_kbps(), 64);
    d.poll(8_000, 0, t);
    assert_eq!(d.report().buffer_ms, 1_000);
    d.set_bitrate(31);
    assert_eq!(d.bitrate_kbps(), 128);
}

#[test]
fn counters_that_would_overflow_are_noticed() {
    let (mut d, t) = settled(TARGET_LAG_MS);
    assert!(d.holds_block(&url(1, 0), t));
    assert!(!d.holds_block(&url(1, i64::MIN), t));
    d.on_block(&url(1, 0), t);
    assert!(!d.holds_block(&url(u64::MAX, 0), t));
    assert!(d.holds_poll(0, u64::MAX, t));
    assert!(!d.holds_poll(8_000, u64::MAX, t));
}
