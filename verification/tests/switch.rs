use ltbrfm_player::deck::{Deck, Frames, Packet, Pull};
use ltbrfm_player::fault::Fault;
use ltbrfm_player::switch::{
    align_step, blendable, coarse_target, fade_share, fade_step, frames_needed, frames_per_byte,
    holds_alignment, holds_estimate, link_step, positioned, prime_step, probed, pulls_incoming,
    pulls_playing, resolve_alignment, Aligned, Alignment, Heard, Heeded, Incoming, Linked, Outlook,
    Primed, Search, Side, Switch,
    ALIGN_RETRY_GAP_MS, LINK_TIMEOUT_MS, PRIME_DRAIN_ABOVE, PRIME_PULLS, PRIME_TIMEOUT_MS,
    PROBE_BYTES, PULL_MIN_BYTES,
};

const RATE: u32 = 100;

/// A deck at the test rate with so many frames decoded, of which some played.
fn deck(decoded: usize, played: u64) -> Deck<u8> {
    let mut d = Deck::new(1, Some(RATE));
    d.on_packet(Packet::Read { track_id: 1, len: 10, dur: 1 }, None);
    d.on_frames(Frames::Decoded { samples: vec![0; 2 * decoded], channels: 2 }, None);
    assert_eq!(d.discard(played), 0);
    d
}

fn fault_text(f: &Fault) -> (&str, &str) {
    (f.code, f.message.as_str())
}

#[test]
fn a_link_waits_probes_or_fails() {
    assert!(matches!(link_step(0, None, 0, false, LINK_TIMEOUT_MS), Linked::Wait));
    assert!(matches!(link_step(0, None, PROBE_BYTES, true, 99_999), Linked::Probe));
    match link_step(0, None, 0, true, 0) {
        Linked::Fail(f) => {
            assert_eq!(fault_text(&f), ("dropped", "Stream ended before it started"))
        }
        _ => panic!("must fail"),
    }
    match link_step(0, None, 0, false, LINK_TIMEOUT_MS + 1) {
        Linked::Fail(f) => {
            assert_eq!(fault_text(&f), ("timeout", "Stream did not answer in time"))
        }
        _ => panic!("must fail"),
    }
    let net = Fault { code: "x", message: "y".to_string() };
    match link_step(0, Some(net), PROBE_BYTES, false, 0) {
        Linked::Fail(f) => assert_eq!(fault_text(&f), ("x", "y")),
        _ => panic!("must fail"),
    }
    // A clock that runs backwards never times out.
    assert!(matches!(link_step(50_000, None, 0, false, 0), Linked::Wait));
    assert_eq!(probed(7), Incoming::Priming { since: 7, retries: 0, not_before: 0 });
}

#[test]
fn decks_blend_at_equal_rates_only() {
    let a = deck(1, 0);
    let other: Deck<u8> = Deck::new(1, Some(RATE + 1));
    assert!(blendable(&a, &deck(5, 2)));
    assert!(!blendable(&a, &other));
}

#[test]
fn the_estimate_comes_from_byte_depths() {
    assert_eq!(coarse_target(1000, 300), 700);
    assert_eq!(coarse_target(300, 1000), -700);
    let fresh: Deck<u8> = Deck::new(1, Some(RATE));
    assert_eq!(frames_per_byte(&fresh, &fresh), (1152, 418));
    assert_eq!(frames_per_byte(&deck(3, 0), &fresh), (3, 10));
    assert_eq!(frames_per_byte(&deck(3, 0), &deck(4, 0)), (4, 10));
}

#[test]
fn the_whole_window_is_needed() {
    assert_eq!(frames_needed(50, RATE), 50 + 3 * 100 + 1152);
    assert_eq!(frames_needed(-5000, RATE), 0);
    assert!(holds_estimate(0, RATE));
    assert!(!holds_estimate(i64::MAX, RATE));
    assert!(!holds_estimate(i64::MIN, RATE));
}

#[test]
fn decoding_ahead_has_a_budget() {
    let b = deck(10, 0);
    assert!(pulls_incoming(&b, PULL_MIN_BYTES, 50, 0));
    assert!(!pulls_incoming(&b, PULL_MIN_BYTES, 50, PRIME_PULLS));
    assert!(!pulls_incoming(&b, PULL_MIN_BYTES - 1, 50, 0));
    // Enough is decoded, but the pipe is filling up.
    let b = deck(5000, 0);
    assert!(!pulls_incoming(&b, PULL_MIN_BYTES, 50, 0));
    assert!(pulls_incoming(&b, PRIME_DRAIN_ABOVE, 50, 0));

    let a = deck(10, 0);
    assert!(pulls_playing(&a, PULL_MIN_BYTES, 50, 0));
    assert!(!pulls_playing(&a, PULL_MIN_BYTES, 49, 0));
    assert!(!pulls_playing(&a, PULL_MIN_BYTES, 50, PRIME_PULLS));
    assert!(!pulls_playing(&deck(2504, 0), PULL_MIN_BYTES, 50, 0));
    assert!(pulls_playing(&deck(2503, 0), PULL_MIN_BYTES, 50, 0));
}

#[test]
fn a_search_waits_for_its_audio() {
    let a = deck(2000, 100);
    let b = deck(2000, 0);
    let s = Search { anchor: 100, until: 300, lo: 20, hi: 420, coarse: 120 };
    assert_eq!(prime_step(0, 0, &a, &b, 120, 0), Outlook::Search(s));
    // Not before the pause is over.
    assert_eq!(prime_step(0, 10, &a, &b, 120, 9), Outlook::Wait);
    // Too little decoded on either deck.
    assert_eq!(prime_step(0, 0, &deck(1000, 0), &b, 120, 0), Outlook::Wait);
    assert_eq!(prime_step(0, 0, &a, &deck(1000, 0), 120, 0), Outlook::Wait);
    // The estimate has not reached the incoming audio.
    assert_eq!(prime_step(0, 0, &a, &b, 49, 0), Outlook::Wait);
    // Time is up: the switch is given up rather than made to jump.
    let late = PRIME_TIMEOUT_MS + 1;
    assert_eq!(prime_step(0, 0, &a, &deck(10, 5), -1000, late), Outlook::GiveUp);
    assert_eq!(prime_step(0, 0, &a, &b, 49, PRIME_TIMEOUT_MS), Outlook::Wait);
    assert_eq!(prime_step(0, 0, &a, &b, 49, late), Outlook::GiveUp);
    // With all the audio on hand, the pause is not kept.
    assert_eq!(prime_step(0, 99_999, &a, &b, 120, late), Outlook::Search(s));
    // All that a search looks at is real audio.
    assert_eq!(a.pairs(s.anchor, s.until).len(), 200);
    assert_eq!(b.pairs(s.lo, s.hi).len(), 400);
}

#[test]
fn a_search_is_resolved() {
    let s = Search { anchor: 100, until: 300, lo: 20, hi: 420, coarse: 5 };
    assert_eq!(resolve_alignment(s, Some(7)), Alignment { at: 27, anchor: 100, fine: true });
    assert_eq!(resolve_alignment(s, None), Alignment { at: 20, anchor: 100, fine: false });
    let s = Search { coarse: 50, ..s };
    assert_eq!(resolve_alignment(s, None).at, 50);
}

#[test]
fn a_weak_match_is_tried_again() {
    let weak = Alignment { at: 20, anchor: 100, fine: false };
    match align_step(5, 1, Heard::Found(weak), 100, 0, 50) {
        Aligned::Retry(inc) => assert_eq!(
            inc,
            Incoming::Priming { since: 5, retries: 2, not_before: 50 + ALIGN_RETRY_GAP_MS }
        ),
        _ => panic!("must retry"),
    }
    // Retries are used up, or time is: the estimate is accepted.
    assert!(matches!(align_step(5, 2, Heard::Found(weak), 100, 0, 50), Aligned::SkipIncoming(20)));
    let late = 6 + PRIME_TIMEOUT_MS;
    assert!(matches!(
        align_step(5, 0, Heard::Found(weak), 100, 0, late),
        Aligned::SkipIncoming(20)
    ));
}

#[test]
fn positioning_keeps_the_decks_aligned() {
    let al = Alignment { at: 27, anchor: 100, fine: true };
    // The playing deck has moved on by 30 frames since the search began.
    let a = deck(2000, 130);
    let mut b = deck(2000, 0);
    match align_step(0, 0, Heard::Found(al), a.played_frames(), b.played_frames(), 0) {
        Aligned::SkipIncoming(n) => assert_eq!(b.discard(n), 0),
        _ => panic!("the incoming deck has to move"),
    }
    assert_eq!(b.played_frames() as i64 - a.played_frames() as i64, al.at - al.anchor as i64);

    // The matching audio is gone: the playing deck has to move.
    let mut a = deck(2000, 130);
    let b = deck(2000, 90);
    match align_step(0, 0, Heard::Found(al), a.played_frames(), b.played_frames(), 0) {
        Aligned::SkipPlaying(n) => assert_eq!(a.discard(n), 0),
        _ => panic!("the playing deck has to move"),
    }
    assert_eq!(b.played_frames() as i64 - a.played_frames() as i64, al.at - al.anchor as i64);
    assert!(holds_alignment(al, 130, 90));
    assert!(!holds_alignment(al, u64::MAX, 0));
}

#[test]
fn a_lost_search_fails_the_switch() {
    assert!(matches!(align_step(0, 0, Heard::Pending, 0, 0, 0), Aligned::Wait));
    match align_step(0, 0, Heard::Lost, 0, 0, 0) {
        Aligned::Fail(f) => assert_eq!(fault_text(&f), ("decode", "Alignment failed")),
        _ => panic!("must fail"),
    }
}

#[test]
fn a_fade_rises_from_nothing_to_all() {
    assert_eq!(positioned(44_100, true), Incoming::Fading { done: 0, total: 22_050, fine: true });
    assert_eq!(fade_share(0, 0, 50), (0, 50));
    assert_eq!(fade_share(0, 10, 50), (10, 50));
    assert_eq!(fade_share(10, 0, 50), (10, 50));
    assert_eq!(fade_share(40, 10, 50), (1, 1));
    assert_eq!(fade_share(0, 0, 0), (1, 1));
    assert_eq!(
        fade_step(0, 50, false, 20),
        Some(Incoming::Fading { done: 20, total: 50, fine: false })
    );
    assert_eq!(fade_step(20, 50, false, 30), None);
}

#[test]
fn a_fade_completes_in_as_many_chunks_as_cover_it() {
    let mut inc = positioned(44_100, true);
    let mut chunks = 0;
    while let Incoming::Fading { done, total, fine } = inc {
        chunks += 1;
        match fade_step(done, total, fine, 1152) {
            Some(next) => inc = next,
            None => break,
        }
    }
    assert_eq!(chunks, 22_050usize.div_ceil(1152));
}

#[test]
fn a_whole_switch_goes_through_its_phases() {
    let mut a = deck(100, 50);
    let mut s: Switch<u8> = Switch::new("b".to_string(), 0);
    assert_eq!(s.url(), "b");
    assert!(matches!(s.on_link(None, 0, false, 1), Linked::Wait));
    assert!(matches!(s.on_link(None, PROBE_BYTES, false, 1), Linked::Probe));
    s.on_opened(1, Some(RATE), 2);
    assert_eq!(s.phase(), Incoming::Priming { since: 2, retries: 0, not_before: 0 });

    assert_eq!(s.estimate(&a, 1000, 400), (600, (100, 10)));
    s.begin_round(200);
    // The incoming deck is decoded ahead first.
    assert_eq!(s.prime(&a, PULL_MIN_BYTES, PULL_MIN_BYTES, 3), Primed::Pull(Side::Incoming));
    let read = Packet::Read { track_id: 1, len: 9, dur: 1 };
    assert!(matches!(s.on_packet(read, None), Pull::Decode));
    let frames = Frames::Decoded { samples: vec![7; 4000], channels: 2 };
    assert!(matches!(s.on_frames(frames, None), Pull::Done));
    // Then the playing one.
    assert_eq!(s.prime(&a, PULL_MIN_BYTES, PULL_MIN_BYTES, 3), Primed::Pull(Side::Playing));
    a.on_frames(Frames::Decoded { samples: vec![1; 6000], channels: 2 }, None);
    let search = match s.prime(&a, PULL_MIN_BYTES, PULL_MIN_BYTES, 3) {
        Primed::Search(search) => search,
        _ => panic!("all audio is on hand"),
    };
    assert_eq!((search.anchor, search.lo, search.hi), (50, 100, 500));
    assert_eq!(s.phase(), Incoming::Aligning { since: 2, retries: 0 });

    assert!(matches!(s.on_heard(Heard::Pending, &a, 4), Heeded::Wait));
    let weak = resolve_alignment(search, None);
    assert!(matches!(s.on_heard(Heard::Found(weak), &a, 4), Heeded::Wait));
    assert_eq!(
        s.phase(),
        Incoming::Priming { since: 2, retries: 1, not_before: 4 + ALIGN_RETRY_GAP_MS }
    );
    s.begin_round(200);
    assert_eq!(s.prime(&a, 0, 0, 5), Primed::Wait);
    let again = 4 + ALIGN_RETRY_GAP_MS;
    s.begin_round(200);
    assert!(matches!(s.prime(&a, 0, 0, again), Primed::Search(_)));
    let good = resolve_alignment(search, Some(3));
    assert!(matches!(s.on_heard(Heard::Found(good), &a, again), Heeded::Position));
    // Frame 103 of the incoming deck plays with frame 50 of the other.
    assert_eq!(s.phase(), Incoming::Positioning { side: Side::Incoming, rest: 103, fine: true });
    assert_eq!(s.position(&mut a), None);
    assert_eq!(s.phase(), Incoming::Fading { done: 0, total: 50, fine: true });

    let c = s.fade(40).unwrap();
    assert_eq!((c.samples.len(), c.done, c.total, c.complete), (80, 0, 50, false));
    let c = s.fade(40).unwrap();
    assert_eq!((c.done, c.total, c.complete), (40, 50, true));
    assert_eq!(s.into_deck().unwrap().played_frames(), 183);
}

#[test]
fn positioning_asks_for_more_audio() {
    let (mut a, mut s) = searched();
    // The match lies before what the incoming deck holds, and further ahead
    // than the playing deck is decoded.
    let al = Alignment { at: 0, anchor: 1_550, fine: true };
    assert!(matches!(s.on_heard(Heard::Found(al), &a, 0), Heeded::Position));
    let moving = Incoming::Positioning { side: Side::Playing, rest: 1_500, fine: true };
    assert_eq!(s.phase(), moving);
    // Nothing is thrown away before all of it is on hand.
    assert_eq!(s.position(&mut a), Some(Side::Playing));
    assert_eq!((a.available(), a.played_frames(), s.phase()), (1_450, 50, moving));
    a.on_frames(Frames::Decoded { samples: vec![0; 120], channels: 2 }, None);
    assert_eq!(s.position(&mut a), None);
    assert_eq!((a.available(), a.played_frames()), (10, 1_550));
    assert_eq!(s.phase(), Incoming::Fading { done: 0, total: 50, fine: true });

    // The incoming deck loses the frames as they are decoded.
    let (mut a, mut s) = searched();
    let al = Alignment { at: 2_100, anchor: 50, fine: true };
    assert!(matches!(s.on_heard(Heard::Found(al), &a, 0), Heeded::Position));
    assert_eq!(s.position(&mut a), Some(Side::Incoming));
    let moving = Incoming::Positioning { side: Side::Incoming, rest: 100, fine: true };
    assert_eq!(s.phase(), moving);
    s.on_frames(Frames::Decoded { samples: vec![0; 200], channels: 2 }, None);
    assert_eq!(s.position(&mut a), None);
    assert!(s.fade(1).is_none(), "the incoming deck has to be decoded further");
}

/// A playing deck, and a switch whose search is running.
fn searched() -> (Deck<u8>, Switch<u8>) {
    let a = deck(1_500, 50);
    let mut s: Switch<u8> = Switch::new("b".to_string(), 0);
    s.on_opened(1, Some(RATE), 0);
    s.on_frames(Frames::Decoded { samples: vec![0; 4_000], channels: 2 }, None);
    s.begin_round(120);
    assert!(matches!(s.prime(&a, 0, 0, 0), Primed::Search(_)));
    (a, s)
}

#[test]
fn a_switch_that_never_reaches_alignment_is_given_up() {
    let a = deck(60, 50);
    let mut s: Switch<u8> = Switch::new("b".to_string(), 0);
    s.on_opened(1, Some(RATE), 7);
    s.begin_round(120);
    assert_eq!(s.prime(&a, 0, 0, 7 + PRIME_TIMEOUT_MS), Primed::Wait);
    s.begin_round(120);
    // What can be decoded ahead is decoded first.
    let late = 8 + PRIME_TIMEOUT_MS;
    assert_eq!(s.prime(&a, PULL_MIN_BYTES, 0, late), Primed::Pull(Side::Incoming));
    assert_eq!(s.prime(&a, 0, 0, late), Primed::GiveUp);
}

#[test]
fn different_rates_are_not_blended() {
    let a = deck(60, 50);
    let mut s: Switch<u8> = Switch::new("b".to_string(), 0);
    s.on_opened(1, Some(RATE + 1), 0);
    s.begin_round(0);
    assert_eq!(s.prime(&a, 0, 0, 0), Primed::Retune);
}

#[test]
fn a_playing_deck_that_ends_is_not_decoded_further() {
    let a = deck(60, 50);
    let mut s: Switch<u8> = Switch::new("b".to_string(), 0);
    s.on_opened(1, Some(RATE), 0);
    s.begin_round(60);
    assert_eq!(s.prime(&a, 0, PULL_MIN_BYTES, 0), Primed::Pull(Side::Playing));
    s.on_playing_ended();
    assert_eq!(s.prime(&a, PULL_MIN_BYTES, PULL_MIN_BYTES, 0), Primed::Wait);
}
