use ltbrfm_player::attempt::{Attempt, Scene, Started, Todo};
use ltbrfm_player::deck::{Deck, Frames, Packet, CHUNK};
use ltbrfm_player::fault::{DeckEnd, DecodeOutcome, Fault};
use ltbrfm_player::icy::Block;
use ltbrfm_player::playback::Control;
use ltbrfm_player::stream::{BytePipe, StationInfo};
use ltbrfm_player::switch::{
    resolve_alignment, Alignment, Heard, Incoming, Search, Side, LINK_TIMEOUT_MS,
    PRIME_TIMEOUT_MS, PROBE_BYTES, PULL_MIN_BYTES,
};
use ltbrfm_player::sync::{CATCHUP_WINDOW_MS, COOLDOWN_MS, SETTLE_MS, SUSTAIN_MS};

const RATE: u32 = 1152;

fn scene(now: u64) -> Scene {
    Scene { held_playing: 0, held_incoming: 0, now }
}

fn frames(value: u8, n: usize) -> Frames<u8> {
    Frames::Decoded { samples: vec![value; 2 * n], channels: 2 }
}

fn attempt() -> Attempt<u8> {
    Attempt::new(Deck::new(1, Some(RATE)), None)
}

/// The next thing to be done outside.
fn next(a: &mut Attempt<u8>, now: u64) -> Todo<u8> {
    loop {
        assert!(a.holds_step());
        match a.proceed(scene(now)) {
            Todo::Nothing => {}
            todo => return todo,
        }
    }
}

fn begin(a: &mut Attempt<u8>) {
    assert!(matches!(next(a, 0), Todo::Start));
    assert!(matches!(a.start(&"a".to_string(), None), Started::Go));
}

/// The chunk has gone to the output, and nothing is in the pipe. Tells whether
/// it was the first one.
fn aired(a: &mut Attempt<u8>, now: u64) -> bool {
    let mut pipe = BytePipe::new();
    assert!(a.holds_cursor(&pipe));
    let first = a.on_output(&mut pipe, now);
    assert!(matches!(next(a, now), Todo::Control));
    assert!(a.holds_control(&pipe, 0, now));
    assert!(matches!(a.on_control(&mut pipe, 0, now).control, Control::Nothing));
    first
}

/// A turn without anything happening outside.
fn quiet_turn(a: &mut Attempt<u8>, now: u64) {
    begin(a);
    assert!(matches!(next(a, now), Todo::Output));
    aired(a, now);
}

/// An attempt that is live and has so many frames decoded ahead, with a switch
/// that has just been opened.
fn switching(ahead: usize) -> Attempt<u8> {
    let mut a = attempt();
    a.on_frames(Side::Playing, frames(1, CHUNK + ahead), None);
    quiet_turn(&mut a, 0);
    assert!(a.accepts_request());
    assert!(matches!(next(&mut a, 0), Todo::Start));
    match a.start(&"a".to_string(), Some("b".to_string())) {
        Started::Open(url) => a.open(url, 0),
        _ => panic!("must open"),
    }
    assert!(!a.accepts_request());
    a
}

/// Take a switch to the point where its search is running.
fn searching(a: &mut Attempt<u8>) -> Search {
    assert!(matches!(next(a, 1), Todo::Link));
    assert!(matches!(a.on_link(None, PROBE_BYTES, false, 1), Todo::Probe));
    a.on_opened(1, Some(RATE), 1);
    assert!(matches!(next(a, 1), Todo::Output));
    aired(a, 1);
    a.on_frames(Side::Incoming, frames(9, 10 * CHUNK), None);
    begin(a);
    assert!(matches!(next(a, 2), Todo::Estimate));
    a.on_estimate(2000);
    let search = match next(a, 2) {
        Todo::Search(search) => search,
        _ => panic!("all audio is on hand"),
    };
    assert!(matches!(next(a, 2), Todo::Output));
    aired(a, 2);
    search
}

/// Take a switch to the point where it fades, after so many turns of waiting
/// for the search, which finds the match so far into the searched audio.
fn fading(ahead: usize, waits: usize, found: usize) -> Attempt<u8> {
    let mut a = switching(ahead);
    let search = searching(&mut a);
    for _ in 0..waits {
        begin(&mut a);
        assert!(matches!(next(&mut a, 3), Todo::Listen));
        assert!(matches!(a.on_heard(Heard::Pending, 3), Todo::Nothing));
        assert!(matches!(next(&mut a, 3), Todo::Output));
        aired(&mut a, 3);
    }
    begin(&mut a);
    assert!(matches!(next(&mut a, 3), Todo::Listen));
    let al = resolve_alignment(search, Some(found));
    assert!(matches!(a.on_heard(Heard::Found(al), 3), Todo::Nothing));
    assert!(matches!(next(&mut a, 3), Todo::Output));
    aired(&mut a, 3);
    let phase = a.switch().map(|s| s.phase());
    assert_eq!(phase, Some(Incoming::Fading { done: 0, total: 576, fine: true }));
    a
}

#[test]
fn a_turn_takes_one_chunk() {
    let mut a = attempt();
    begin(&mut a);
    assert!(matches!(next(&mut a, 0), Todo::Pull(Side::Playing)));
    let read = Packet::Read { track_id: 1, len: 400, dur: CHUNK as u64 };
    a.on_packet(Side::Playing, read, None);
    a.on_frames(Side::Playing, frames(5, CHUNK + 1), None);
    assert!(matches!(next(&mut a, 0), Todo::Output));
    assert_eq!(a.chunk(), &vec![5u8; 2 * CHUNK]);
    assert_eq!(a.active().available(), 1);
    assert!(aired(&mut a, 0), "the first chunk");
    a.on_frames(Side::Playing, frames(6, CHUNK), None);
    begin(&mut a);
    assert!(matches!(next(&mut a, 1), Todo::Output));
    assert!(!aired(&mut a, 1));
}

#[test]
fn the_end_of_the_playing_deck_ends_the_attempt() {
    let mut a = attempt();
    begin(&mut a);
    assert!(matches!(next(&mut a, 0), Todo::Pull(Side::Playing)));
    assert!(matches!(
        a.on_ended(Side::Playing, DeckEnd::Ended),
        Todo::End(DecodeOutcome::Ended)
    ));
}

#[test]
fn requests_before_the_first_chunk_are_retunes() {
    let url = "a".to_string();
    assert!(matches!(attempt().start(&url, Some("a".to_string())), Started::Go));
    assert!(matches!(attempt().start(&url, Some("b".to_string())), Started::Retune(_)));
}

#[test]
fn a_switch_goes_all_the_way() {
    let mut a = fading(20 * CHUNK, 0, 100);
    let before = a.active().played_frames();
    begin(&mut a);
    match next(&mut a, 4) {
        Todo::Mix(part) => {
            assert_eq!(part.samples, vec![9; 2 * CHUNK]);
            assert_eq!((part.done, part.total, part.complete), (0, 576, true));
        }
        _ => panic!("must mix"),
    }
    // The playing deck's own audio, until something is mixed in.
    assert_eq!(a.chunk(), &vec![1u8; 2 * CHUNK]);
    a.on_mixed(vec![4; 2 * CHUNK]);
    assert!(matches!(next(&mut a, 4), Todo::SwapIn { fine: true }));
    assert!(matches!(next(&mut a, 4), Todo::Output));
    assert_eq!(a.chunk(), &vec![4u8; 2 * CHUNK]);
    aired(&mut a, 4);
    assert!(a.accepts_request());
    // What plays next is what was aligned with it.
    assert!(a.active().played_frames() != before + CHUNK as u64);
    quiet_turn(&mut a, 5);
    assert_eq!(a.chunk(), &vec![9u8; 2 * CHUNK]);
}

#[test]
fn a_fading_deck_takes_over_from_one_that_ends() {
    // Exactly as much audio as the turns before the fade need.
    let mut a = fading(5 * CHUNK, 2, 100);
    assert_eq!(a.active().available(), 0);
    begin(&mut a);
    assert!(matches!(next(&mut a, 4), Todo::Pull(Side::Playing)));
    let end = DeckEnd::Failed(Fault { code: "x", message: "first".to_string() });
    assert!(matches!(a.on_ended(Side::Playing, end), Todo::SwapIn { fine: true }));
    // It has audio, so that the attempt goes on.
    assert!(matches!(next(&mut a, 4), Todo::Output));
    assert_eq!(a.chunk(), &vec![9u8; 2 * CHUNK]);
    aired(&mut a, 4);

    // One that gives no audio either ends the attempt like the first one.
    let mut a = fading(5 * CHUNK, 2, 7_000);
    begin(&mut a);
    let end = DeckEnd::Failed(Fault { code: "x", message: "first".to_string() });
    assert!(matches!(next(&mut a, 4), Todo::Pull(Side::Playing)));
    assert!(matches!(a.on_ended(Side::Playing, end), Todo::SwapIn { fine: true }));
    assert!(a.active().wants(CHUNK));
    assert!(matches!(next(&mut a, 4), Todo::Pull(Side::Playing)));
    match a.on_ended(Side::Playing, DeckEnd::Ended) {
        Todo::End(DecodeOutcome::Failed(f)) => assert_eq!(f.message, "first"),
        _ => panic!("must end like the first one"),
    }
}

#[test]
fn a_switch_that_fails_leaves_the_chunk() {
    let mut a = switching(5 * CHUNK);
    assert!(matches!(next(&mut a, 1), Todo::Link));
    let own = a.chunk().clone();
    match a.on_link(None, 0, false, LINK_TIMEOUT_MS + 1) {
        Todo::Failed(f) => assert_eq!(f.code, "timeout"),
        _ => panic!("must fail"),
    }
    assert!(matches!(next(&mut a, 1), Todo::Output));
    assert_eq!(a.chunk(), &own);
    assert!(a.accepts_request());
}

#[test]
fn a_link_that_waits_lets_the_turn_go_on() {
    let mut a = switching(5 * CHUNK);
    assert!(matches!(next(&mut a, 1), Todo::Link));
    assert!(matches!(a.on_link(None, 0, false, 1), Todo::Nothing));
    assert!(matches!(next(&mut a, 1), Todo::Output));
    assert!(!a.accepts_request());
}

#[test]
fn a_stream_that_cannot_be_opened_fails_the_switch() {
    let mut a = switching(5 * CHUNK);
    assert!(matches!(next(&mut a, 1), Todo::Link));
    assert!(matches!(a.on_link(None, PROBE_BYTES, false, 1), Todo::Probe));
    let f = Fault { code: "decode", message: "no".to_string() };
    assert!(matches!(a.on_unopened(f), Todo::Failed(_)));
    assert!(matches!(next(&mut a, 1), Todo::Output));
}

#[test]
fn an_incoming_deck_that_ends_fails_the_switch() {
    let mut a = switching(5 * CHUNK);
    assert!(matches!(next(&mut a, 1), Todo::Link));
    a.on_link(None, PROBE_BYTES, false, 1);
    a.on_opened(1, Some(RATE), 1);
    assert!(matches!(next(&mut a, 1), Todo::Output));
    aired(&mut a, 1);
    begin(&mut a);
    assert!(matches!(next(&mut a, 2), Todo::Estimate));
    a.on_estimate(2000);
    let held = Scene { held_playing: 9_000, held_incoming: 9_000, now: 2 };
    assert!(matches!(a.proceed(held), Todo::Pull(Side::Incoming)));
    match a.on_ended(Side::Incoming, DeckEnd::Ended) {
        Todo::Failed(f) => {
            assert_eq!((f.code, f.message.as_str()), ("dropped", "Incoming stream ended"))
        }
        _ => panic!("must fail"),
    }
    assert!(matches!(next(&mut a, 2), Todo::Output));
}

#[test]
fn a_search_that_is_lost_fails_the_switch() {
    let mut a = switching(20 * CHUNK);
    searching(&mut a);
    begin(&mut a);
    assert!(matches!(next(&mut a, 3), Todo::Listen));
    match a.on_heard(Heard::Lost, 3) {
        Todo::Failed(f) => assert_eq!(f.message, "Alignment failed"),
        _ => panic!("must fail"),
    }
}

#[test]
fn different_rates_retune_the_hard_way() {
    let mut a = switching(5 * CHUNK);
    assert!(matches!(next(&mut a, 1), Todo::Link));
    a.on_link(None, PROBE_BYTES, false, 1);
    a.on_opened(1, Some(RATE + 1), 1);
    assert!(matches!(next(&mut a, 1), Todo::Output));
    aired(&mut a, 1);
    begin(&mut a);
    assert!(matches!(next(&mut a, 2), Todo::Estimate));
    a.on_estimate(0);
    match next(&mut a, 2) {
        Todo::Retune(url) => assert_eq!(url, "b"),
        _ => panic!("must retune"),
    }
}

#[test]
fn a_switch_that_cannot_be_positioned_leaves_the_deck_on_air() {
    let mut a = switching(8 * CHUNK);
    searching(&mut a);
    begin(&mut a);
    assert!(matches!(next(&mut a, 3), Todo::Listen));
    let (played, left) = (a.active().played_frames(), a.active().available());
    // The playing deck would have to move on by more than it has decoded.
    let al = Alignment { at: -9 * CHUNK as i64, anchor: played, fine: true };
    assert!(matches!(a.on_heard(Heard::Found(al), 3), Todo::Nothing));
    assert!(matches!(next(&mut a, 3), Todo::Pull(Side::Playing)));
    assert!(matches!(a.on_ended(Side::Playing, DeckEnd::Ended), Todo::Failed(_)));
    assert_eq!((a.active().played_frames(), a.active().available()), (played, left));
    assert!(matches!(next(&mut a, 3), Todo::Output));
    aired(&mut a, 3);
    quiet_turn(&mut a, 4);
    assert_eq!(a.active().available(), left - CHUNK);
}

#[test]
fn a_switch_that_takes_too_long_fails() {
    let mut a = switching(5 * CHUNK);
    assert!(matches!(next(&mut a, 1), Todo::Link));
    a.on_link(None, PROBE_BYTES, false, 1);
    a.on_opened(1, Some(RATE), 1);
    assert!(matches!(next(&mut a, 1), Todo::Output));
    aired(&mut a, 1);
    begin(&mut a);
    let late = PRIME_TIMEOUT_MS + 2;
    assert!(matches!(next(&mut a, late), Todo::Estimate));
    let left = a.active().available();
    a.on_estimate(2000);
    match next(&mut a, late) {
        Todo::Failed(f) => {
            assert_eq!((f.code, f.message.as_str()), ("timeout", "Stream did not align in time"))
        }
        _ => panic!("must fail"),
    }
    assert_eq!(a.active().available(), left);
    assert!(a.accepts_request());
    assert!(matches!(next(&mut a, late), Todo::Output));
}

#[test]
fn failed_switches_lose_no_audio() {
    // One value per chunk, so that what is heard can be told apart.
    let mut a = attempt();
    let mut heard = Vec::new();
    for turn in 0..12u8 {
        a.on_frames(Side::Playing, frames(turn, CHUNK), None);
        assert!(matches!(next(&mut a, 0), Todo::Start));
        let request = if a.accepts_request() { Some("b".to_string()) } else { None };
        let request = request.filter(|_| turn > 0);
        if let Started::Open(url) = a.start(&"a".to_string(), request) {
            a.open(url, 0);
        }
        loop {
            match next(&mut a, 1) {
                Todo::Link => match turn % 4 {
                    0 => assert!(matches!(a.on_link(None, 0, true, 1), Todo::Failed(_))),
                    1 => assert!(matches!(a.on_link(None, 0, false, 1), Todo::Nothing)),
                    _ => {
                        assert!(matches!(a.on_link(None, PROBE_BYTES, false, 1), Todo::Probe));
                        a.on_opened(1, Some(RATE), 1);
                    }
                },
                Todo::Estimate => {
                    a.on_estimate(2000);
                    let (held_playing, held_incoming) = (PULL_MIN_BYTES, PULL_MIN_BYTES);
                    let now = Scene { held_playing, held_incoming, now: 1 };
                    assert!(matches!(a.proceed(now), Todo::Pull(Side::Incoming)));
                    let failed = a.on_ended(Side::Incoming, DeckEnd::Ended);
                    assert!(matches!(failed, Todo::Failed(_)));
                }
                Todo::Output => break,
                _ => panic!("nothing else is asked for"),
            }
        }
        heard.push(a.chunk()[0]);
        aired(&mut a, 1);
    }
    assert_eq!(heard, (0..12).collect::<Vec<u8>>());
    assert_eq!(a.active().played_frames(), 12 * CHUNK as u64);
}

fn titled(title: &str) -> Block {
    Block { title: title.to_string(), url: None }
}

fn station() -> StationInfo {
    StationInfo {
        name: "n".to_string(),
        genre: String::new(),
        description: String::new(),
        url: String::new(),
        bitrate_kbps: 64,
        metaint: 0,
    }
}

#[test]
fn what_has_been_heard_is_published_in_order() {
    let mut a = attempt();
    a.on_frames(Side::Playing, frames(1, CHUNK), None);
    begin(&mut a);
    assert!(matches!(next(&mut a, 0), Todo::Output));
    let mut pipe = BytePipe::new();
    pipe.stamp_meta(titled("A"));
    pipe.stamp_meta(titled("B"));
    pipe.write_all(&[0; 10], false);
    pipe.stamp_meta(titled("not yet"));
    assert!(a.on_output(&mut pipe, 5));
    let info = station();
    for (title, with_station) in [("A", true), ("B", false)] {
        assert!(matches!(next(&mut a, 5), Todo::Publish));
        assert_eq!(a.next_block().unwrap().title, title);
        assert!(a.holds_block(5));
        let told = a.on_publish(Some(&info), 5).unwrap();
        assert_eq!(told.now_playing.unwrap().title, title);
        assert_eq!(told.metadata.station.is_some(), with_station);
    }
    assert!(a.next_block().is_none());
    assert!(matches!(next(&mut a, 5), Todo::Control));
    assert!(a.on_control(&mut pipe, 0, 5).readout.is_none(), "not due yet");
    assert!(matches!(next(&mut a, 5), Todo::Start));
}

#[test]
fn the_readout_comes_when_it_is_due() {
    let mut a = attempt();
    a.on_frames(Side::Playing, frames(1, CHUNK), None);
    begin(&mut a);
    assert!(matches!(next(&mut a, 0), Todo::Output));
    let mut pipe = BytePipe::new();
    pipe.write_all(&[0; 160], false);
    a.on_output(&mut pipe, 1_000);
    let told = a.on_control(&mut pipe, 7, 1_000);
    assert!(matches!(told.control, Control::Nothing));
    assert_eq!(told.readout.unwrap().buffer_ms, 10 + 7);
}

#[test]
fn a_swap_publishes_the_newest_block_alone() {
    let mut a = fading(20 * CHUNK, 0, 100);
    begin(&mut a);
    assert!(matches!(next(&mut a, 4), Todo::Mix(_)));
    assert!(matches!(next(&mut a, 4), Todo::SwapIn { .. }));
    let mut pipe = BytePipe::new();
    pipe.stamp_meta(titled("old"));
    pipe.stamp_meta(titled("new"));
    assert!(a.holds_cursor(&pipe));
    let info = station();
    a.on_swapped(&mut pipe, Some(&info), 4);
    assert!(matches!(next(&mut a, 4), Todo::Publish));
    let told = a.on_publish(Some(&info), 4).unwrap();
    assert_eq!(told.metadata.title, "new");
    assert_eq!(told.metadata.station.unwrap().bitrate_kbps, 64);
    // It comes before the chunk, and nothing else is published.
    assert!(matches!(next(&mut a, 4), Todo::Output));
    a.on_output(&mut pipe, 4);
    assert!(matches!(next(&mut a, 4), Todo::Control));
}

#[test]
fn a_backlog_that_cannot_be_trimmed_ends_without_a_readout() {
    let mut a = attempt();
    let mut pipe = BytePipe::new();
    let mut now = 1;
    let mut seen = Vec::new();
    for step in [0, SETTLE_MS, 250, SUSTAIN_MS, CATCHUP_WINDOW_MS, COOLDOWN_MS] {
        now += step;
        a.on_frames(Side::Playing, frames(1, CHUNK), None);
        begin(&mut a);
        assert!(matches!(next(&mut a, now), Todo::Output));
        a.on_output(&mut pipe, now);
        assert!(matches!(next(&mut a, now), Todo::Control));
        // The output alone is far behind.
        let told = a.on_control(&mut pipe, 60_000, now);
        seen.push(match told.control {
            Control::Nothing => "nothing",
            Control::CaughtUp(_) => "caught up",
            Control::Resync(_) => "resync",
        });
        assert_eq!(told.readout.is_some(), seen.last() != Some(&"resync") && step >= 1_000);
    }
    assert_eq!(seen.last(), Some(&"resync"));
}
