use ltbrfm_player::audio::{
    interleave_into, locate_plan, needs_resampler, refine, ResampleQueue, RESAMPLE_CHUNK,
};
use ltbrfm_player::deck::{Deck, Frames, Packet};
use ltbrfm_player::engine::{device_fault, Cmd, Engine, Session, Work};
use ltbrfm_player::events::{error_state, source_payload, state_payload, station_payload};
use ltbrfm_player::fault::{DeckEnd, DecodeOutcome, Fault};
use ltbrfm_player::icy::{Block, Payload, StreamUrl};
use ltbrfm_player::playback::{succeed, Control, Playback, Request, Succession};
use ltbrfm_player::stream::{BytePipe, StationInfo};
use ltbrfm_player::switch::{resolve_alignment, Heard, Heeded, Primed, Switch};
use ltbrfm_player::sync::{CATCHUP_WINDOW_MS, COOLDOWN_MS, SETTLE_MS, SUSTAIN_MS, TARGET_LAG_MS};

fn broken() -> DecodeOutcome {
    DecodeOutcome::Failed(Fault { code: "dropped", message: "gone".to_string() })
}

fn waits(s: &Session) -> u64 {
    let mut slept = 0;
    while s.still_waiting(slept) {
        slept += 50;
    }
    slept
}

fn station(kbps: u32) -> StationInfo {
    StationInfo {
        name: "n".to_string(),
        description: "d".to_string(),
        genre: "g".to_string(),
        url: "u".to_string(),
        bitrate_kbps: kbps,
        metaint: 0,
    }
}

fn block(title: &str, seq: u64, wall_ms: i64, payload: Option<Payload>) -> Block {
    Block {
        title: title.to_string(),
        url: Some(StreamUrl {
            seq,
            playhead_ms: 7,
            wall_ms,
            kind: "track".to_string(),
            item_id: "i".to_string(),
            payload,
        }),
    }
}

fn payload(v: u32) -> Payload {
    Payload {
        v,
        seq: 1,
        playhead_ms: 2,
        wall_ms: 3,
        daypart: None,
        now: None,
        next: vec![],
        talk: vec![],
        jingles: vec![],
    }
}

#[test]
fn a_fresh_session_overrides_an_older_switch() {
    let mut e: Engine<u8, u32> = Engine::new(9);
    assert_eq!(*e.controls(), 9);
    assert!(matches!(e.play("a".to_string()), (None, Cmd::Play(_))));
    match e.on_cmd(Cmd::Play("a".to_string()), 1) {
        Work::Run(url) => assert_eq!(url, "a"),
        Work::Standby => panic!("must run"),
    }
    e.switch("b".to_string());
    let (flag, cmd) = e.play("c".to_string());
    assert_eq!(flag, Some(1));
    assert!(matches!(cmd, Cmd::Play(u) if u == "c"));
    assert_eq!(e.take_switch(), None);
}

#[test]
fn a_switch_without_a_session_is_a_no_op() {
    let mut e: Engine<u8, u32> = Engine::new(0);
    e.switch("b".to_string());
    assert_eq!(e.take_switch(), None);
    e.on_cmd(Cmd::Play("a".to_string()), 1);
    e.switch("b".to_string());
    assert_eq!(e.take_switch(), Some("b".to_string()));
    assert_eq!(e.take_switch(), None);
}

#[test]
fn stopping_ends_the_session() {
    let mut e: Engine<u8, u32> = Engine::new(0);
    e.on_cmd(Cmd::Play("a".to_string()), 4);
    assert!(matches!(e.stop(), (Some(4), Cmd::Stop)));
    assert!(matches!(e.stop(), (None, Cmd::Stop)));
    assert!(matches!(e.on_cmd(Cmd::Stop, 5), Work::Standby));
    e.switch("b".to_string());
    assert_eq!(e.take_switch(), None);
}

#[test]
fn failures_double_the_backoff_up_to_its_bound() {
    let mut s = Session::new("a".to_string());
    let mut seen = vec![];
    for _ in 0..6 {
        let a = s.end_attempt(broken());
        assert_eq!(a.notice, Some("reconnecting…"));
        assert_eq!(a.fault.unwrap().code, "dropped");
        assert!(a.wait);
        seen.push(waits(&s));
        s.after_wait();
    }
    assert_eq!(seen, vec![500, 1000, 2000, 4000, 8000, 8000]);
}

#[test]
fn any_other_end_resets_the_backoff() {
    for outcome in [DecodeOutcome::Ended, DecodeOutcome::Resync, DecodeOutcome::Retune] {
        let mut s = Session::new("a".to_string());
        s.end_attempt(broken());
        s.after_wait();
        assert_eq!(waits(&s), 1000);
        let a = s.end_attempt(outcome);
        assert!(a.fault.is_none());
        assert_eq!(waits(&s), 500);
    }
}

#[test]
fn each_end_of_an_attempt_is_told_apart() {
    let mut s = Session::new("a".to_string());
    let a = s.end_attempt(DecodeOutcome::Ended);
    assert_eq!((a.notice, a.wait), (None, true));
    let a = s.end_attempt(DecodeOutcome::Resync);
    assert_eq!((a.notice, a.wait), (Some("re-syncing…"), true));
    let a = s.end_attempt(DecodeOutcome::Retune);
    assert_eq!((a.notice, a.wait), (None, false));
}

#[test]
fn a_switch_between_attempts_retunes() {
    let mut s = Session::new("a".to_string());
    assert_eq!(s.begin_attempt(None), "acquiring…");
    assert_eq!(s.url(), "a");
    s.begin_attempt(Some("b".to_string()));
    assert_eq!(s.url(), "b");
    s.retune("c".to_string());
    assert_eq!(s.url(), "c");
}

#[test]
fn a_device_that_cannot_be_opened_is_a_fault() {
    let f = device_fault("none");
    assert_eq!((f.code, f.message.as_str()), ("device", "Audio device error: none"));
    let p = error_state(&f);
    assert_eq!((p.state, p.code), ("error", Some("device")));
    assert_eq!(p.message.unwrap(), "Audio device error: none");
}

#[test]
fn states_and_sources_are_told() {
    let p = state_payload("tuning", Some("acquiring…"));
    assert_eq!((p.state, p.code), ("tuning", None));
    assert_eq!(p.message.unwrap(), "acquiring…");
    assert!(state_payload("live", None).message.is_none());
    let p = source_payload("u", "failed", Some("why"), None, None);
    assert_eq!((p.url.as_str(), p.phase, p.aligned, p.sample_rate), ("u", "failed", None, None));
    assert_eq!(p.reason.unwrap(), "why");
    let p = source_payload("u", "live", None, Some(true), Some(44_100));
    assert_eq!((p.reason, p.aligned, p.sample_rate), (None, Some(true), Some(44_100)));
    let p = station_payload(&station(64), 128);
    assert_eq!((p.name.as_str(), p.bitrate_kbps), ("n", 128));
}

#[test]
fn a_switch_before_anything_is_live_is_a_retune() {
    let mut p = Playback::new(None);
    let url = "a".to_string();
    assert!(matches!(p.on_switch_request(&url, "a".to_string()), Request::Ignore));
    assert!(matches!(p.on_switch_request(&url, "b".to_string()), Request::Retune(_)));
    assert!(p.on_played(0));
    assert!(!p.on_played(1));
    assert!(matches!(p.on_switch_request(&url, "b".to_string()), Request::Open(_)));
}

/// A switch that has got as far as fading.
fn fading() -> Switch<u8> {
    let mut a: Deck<u8> = Deck::new(1, Some(100));
    a.on_frames(Frames::Decoded { samples: vec![0; 4000], channels: 2 }, None);
    let mut s = Switch::new("b".to_string(), 0);
    s.on_opened(1, Some(100), 0);
    s.on_frames(Frames::Decoded { samples: vec![7; 4000], channels: 2 }, None);
    s.begin_round(60);
    let search = match s.prime(&a, 0, 0, 0) {
        Primed::Search(search) => search,
        _ => panic!("all audio is on hand"),
    };
    let al = resolve_alignment(search, Some(0));
    assert!(matches!(s.on_heard(Heard::Found(al), &a, 0), Heeded::Position));
    assert_eq!(s.position(&mut a), None);
    s
}

#[test]
fn only_a_fading_deck_takes_over() {
    match succeed(DeckEnd::Ended, Some(fading())) {
        Succession::TakeOver { mut deck, fine, end } => {
            assert!(fine);
            assert!(matches!(end, DeckEnd::Ended));
            assert_eq!(deck.take(1), vec![7, 7]);
        }
        Succession::Over(_) => panic!("must take over"),
    }
    let linking: Switch<u8> = Switch::new("b".to_string(), 0);
    assert!(matches!(
        succeed(DeckEnd::Ended, Some(linking)),
        Succession::Over(DecodeOutcome::Ended)
    ));
    assert!(matches!(
        succeed::<u8>(DeckEnd::Failed(Fault { code: "x", message: String::new() }), None),
        Succession::Over(DecodeOutcome::Failed(_))
    ));
}

#[test]
fn titles_are_announced_once() {
    let mut p = Playback::new(None);
    let told = p.on_released(block("A", 1, 0, None), None, 0).unwrap();
    assert_eq!(told.now_playing.unwrap().title, "A");
    let told = p.on_released(block("A", 2, 0, None), None, 0).unwrap();
    assert!(told.now_playing.is_none());
    assert_eq!(told.metadata.title, "A");
    let told = p.on_released(block("", 3, 0, None), None, 0).unwrap();
    assert!(told.now_playing.is_none());
    // A repeated block tells nothing.
    assert!(p.on_released(block("B", 3, 0, None), None, 0).is_none());
}

#[test]
fn the_station_goes_with_the_first_block() {
    let s = station(0);
    let mut p = Playback::new(Some(&s));
    let told = p.on_released(block("A", 1, 0, None), Some(&s), 0).unwrap();
    let sent = told.metadata.station.unwrap();
    assert_eq!((sent.name.as_str(), sent.bitrate_kbps), ("n", 128));
    let told = p.on_released(block("A", 2, 0, None), Some(&s), 0).unwrap();
    assert!(told.metadata.station.is_none());
    // Until another deck is what the speakers carry.
    p.swap_in(Some(&station(192)), 5);
    let told = p.on_released(block("A", 3, 0, None), Some(&s), 5).unwrap();
    assert_eq!(told.metadata.station.unwrap().bitrate_kbps, 192);
}

#[test]
fn a_dropped_schedule_is_told_from_an_empty_one() {
    let mut p = Playback::new(None);
    let told = p.on_released(block("A", 1, 0, None), None, 0).unwrap();
    assert!(told.metadata.schedule_truncated);
    let told = p.on_released(block("A", 2, 0, Some(payload(1))), None, 0).unwrap();
    assert!(!told.metadata.schedule_truncated);
    assert_eq!((told.metadata.seq, told.metadata.playhead_ms), (2, 7));
    let bare = Block { title: "A".to_string(), url: None };
    assert!(p.holds_block(&bare, 0));
    let told = p.on_released(bare, None, 0).unwrap();
    assert!(!told.metadata.schedule_truncated);
}

/// A deck and its pipe with a deep backlog, of which `decoded` bytes wait in
/// the deck.
fn backlog(decoded: u64) -> (Deck<u8>, BytePipe) {
    let mut pipe = BytePipe::new();
    pipe.write_all(&vec![0u8; 250_000], false);
    let mut d: Deck<u8> = Deck::new(1, None);
    d.on_packet(Packet::Read { track_id: 1, len: decoded, dur: 1 }, None);
    d.on_frames(Frames::Decoded { samples: vec![0; 8], channels: 2 }, None);
    (d, pipe)
}

#[test]
fn a_backlog_is_trimmed_and_then_reconnected() {
    let mut p = Playback::new(None);
    let (mut deck, mut pipe) = backlog(1_000);
    p.on_played(1);
    let mut now = 1;
    let mut control = |p: &mut Playback, deck: &mut Deck<u8>, pipe: &mut BytePipe, step: u64| {
        now += step;
        p.control(deck, pipe, 250_000, 0, now)
    };
    assert!(matches!(control(&mut p, &mut deck, &mut pipe, SETTLE_MS), Control::Nothing));
    assert!(matches!(control(&mut p, &mut deck, &mut pipe, 250), Control::Nothing));
    match control(&mut p, &mut deck, &mut pipe, SUSTAIN_MS) {
        Control::CaughtUp(s) => {
            assert_eq!(s.action, "catchup");
            assert_eq!(s.state, "catching-up");
            assert_eq!(s.catchups, 1);
        }
        _ => panic!("must catch up"),
    }
    // What is decoded already counts against the target.
    assert_eq!(pipe.buffered() as u64, TARGET_LAG_MS * 128 / 8 - 1_000);
    // Nothing is left to trim.
    assert!(matches!(control(&mut p, &mut deck, &mut pipe, 250), Control::Nothing));
    control(&mut p, &mut deck, &mut pipe, CATCHUP_WINDOW_MS);
    match control(&mut p, &mut deck, &mut pipe, COOLDOWN_MS) {
        Control::Resync(s) => assert_eq!((s.action.as_str(), s.reconnects), ("reconnect", 1)),
        _ => panic!("must reconnect"),
    }
}

#[test]
fn the_lag_readout_is_throttled() {
    let mut p = Playback::new(Some(&station(192)));
    assert!(p.readout(999).is_none());
    let s = p.readout(1000).unwrap();
    assert_eq!((s.action.as_str(), s.state.as_str()), ("none", "settling"));
    assert_eq!((s.bitrate_kbps, s.target_ms, s.ceiling_ms), (192, 8_000, 15_000));
    assert_eq!((s.lag_ms, s.excess_ms), (None, None));
    assert!(p.readout(1999).is_none());
    assert!(p.readout(2000).is_some());
    p.on_bitrate(Some(64));
    p.on_bitrate(None);
    assert_eq!(p.readout(3000).unwrap().bitrate_kbps, 64);
    assert!(p.holds_poll(0, 0, 0));
}

#[test]
fn frames_take_the_layout_of_the_device() {
    let mut buf = vec![0];
    interleave_into(&mut buf, 1, 2, 9, -1, 0);
    assert_eq!(buf, vec![0]);
    interleave_into(&mut buf, 1, 2, 9, -1, 1);
    interleave_into(&mut buf, 1, 2, 9, -1, 2);
    interleave_into(&mut buf, 1, 2, 9, -1, 4);
    assert_eq!(buf, vec![0, 9, 1, 2, 1, 2, -1, -1]);
}

#[test]
fn matched_rate_has_no_resampler() {
    assert!(!needs_resampler(44_100, 44_100));
    assert!(needs_resampler(48_000, 44_100));
}

#[test]
fn align_needs_a_haystack_at_least_as_long() {
    assert!(locate_plan(44_100, 22_050).is_none());
    assert!(locate_plan(44_100, 44_100).is_some());
}

#[test]
fn the_resampler_takes_whole_chunks() {
    let mut q = ResampleQueue::new();
    for i in 0..RESAMPLE_CHUNK {
        assert!(q.take_chunk().is_none());
        q.push(i, i + 1);
    }
    q.push(7, 8);
    let (l, r) = q.take_chunk().unwrap();
    assert_eq!((l.len(), r.len()), (RESAMPLE_CHUNK, RESAMPLE_CHUNK));
    assert_eq!((l[3], r[3]), (3, 4));
    assert!(q.take_chunk().is_none());
}

#[test]
fn a_search_has_bounds() {
    assert!(locate_plan(31, 100).is_none());
    assert!(locate_plan(100, 99).is_none());
    let p = locate_plan(80, 100).unwrap();
    assert_eq!((p.last_lag, p.max_at), (2, 20));
    let r = refine(p, 0);
    assert_eq!((r.centre, r.first, r.last), (0, 0, 12));
    let r = refine(p, 2);
    assert_eq!((r.centre, r.first, r.last), (16, 4, 20));
}

#[test]
fn every_offset_is_within_reach_of_one_that_is_tried() {
    let (reference, hay) = (50, 93);
    let p = locate_plan(reference, hay).unwrap();
    for at in 0..=hay - reference {
        let tried = (0..=p.last_lag).any(|lag| {
            let r = refine(p, lag);
            r.first <= at && at <= r.last
        });
        assert!(tried, "offset {at}");
    }
}

#[test]
fn a_swap_settles_anew() {
    let mut p = Playback::new(Some(&station(192)));
    p.on_played(0);
    p.on_released(block("A", 1, 0, None), None, 0);
    // A station that does not tell its bitrate inherits the old one.
    p.swap_in(Some(&station(0)), 5_000);
    let s = p.readout(5_000).unwrap();
    assert_eq!((s.bitrate_kbps, s.state.as_str()), (192, "settling"));
    // The title showing stays: the same one is not announced again.
    let told = p.on_released(block("A", 1, 0, None), None, 0).unwrap();
    assert!(told.now_playing.is_none());
}
