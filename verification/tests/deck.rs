use ltbrfm_player::deck::{frame, Deck, Frames, Packet, Pull, CHUNK, SPLICE_TOLERANCE};
use ltbrfm_player::fault::{
    decode_fault, ended, fault_of, probe_fault, DeckEnd, DecodeOutcome, Fault, ProbeFailure,
};
use ltbrfm_player::stream::{BytePipe, NetError};

fn packet(len: u64, dur: u64) -> Packet {
    Packet::Read { track_id: 1, len, dur }
}

fn stereo(samples: &[i32]) -> Frames<i32> {
    Frames::Decoded { samples: samples.to_vec(), channels: 2 }
}

/// Pull and decode one packet.
fn pull(d: &mut Deck<i32>, len: u64, samples: &[i32]) {
    assert!(matches!(d.on_packet(packet(len, samples.len() as u64 / 2), None), Pull::Decode));
    assert!(matches!(d.on_frames(stereo(samples), None), Pull::Done));
}

fn net() -> Fault {
    Fault::from(NetError { code: "timeout", message: "gone".to_string() })
}

fn end_of(p: Pull) -> DeckEnd {
    match p {
        Pull::End(e) => e,
        _ => panic!("expected an end"),
    }
}

fn failure(p: Pull) -> (&'static str, String) {
    match end_of(p) {
        DeckEnd::Failed(f) => (f.code, f.message),
        DeckEnd::Ended => panic!("expected a failure"),
    }
}

#[test]
fn audio_leaves_in_the_order_it_was_decoded() {
    let mut d: Deck<i32> = Deck::new(1, Some(48_000));
    pull(&mut d, 100, &[1, 2, 3, 4]);
    pull(&mut d, 50, &[5, 6]);
    assert_eq!(d.available(), 3);
    assert_eq!(d.take(2), vec![1, 2, 3, 4]);
    assert_eq!(d.take(1), vec![5, 6]);
    assert!(d.wants(1));
    assert_eq!((d.decoded_frames(), d.played_frames()), (3, 3));
}

#[test]
fn the_byte_cursor_follows_what_is_played() {
    let mut d: Deck<i32> = Deck::new(1, Some(48_000));
    pull(&mut d, 100, &[1, 2, 3, 4]);
    pull(&mut d, 50, &[5, 6]);
    assert_eq!((d.demuxed(), d.played_demuxed(), d.fifo_bytes()), (150, 0, 150));
    d.take(1);
    assert_eq!(d.played_demuxed(), 0, "the first packet is not played out");
    d.take(1);
    assert_eq!((d.played_demuxed(), d.fifo_bytes()), (100, 50));
    d.take(1);
    assert_eq!((d.played_demuxed(), d.fifo_bytes()), (150, 0));
}

#[test]
fn metadata_waits_for_playback_not_for_decoding() {
    let mut pipe = BytePipe::new();
    pipe.write_all(&[0u8; 300], false);
    let mut d: Deck<i32> = Deck::new(1, None);
    pull(&mut d, 100, &[1, 2, 3, 4]);
    assert_eq!(d.depth_bytes(&pipe), 300);
    d.take(2);
    assert_eq!(d.depth_bytes(&pipe), 200);
}

#[test]
fn discarding_in_goes_is_discarding_at_once() {
    let mut a: Deck<i32> = Deck::new(1, None);
    let mut b: Deck<i32> = Deck::new(1, None);
    for d in [&mut a, &mut b] {
        pull(d, 10, &[1, 2, 3, 4]);
        pull(d, 20, &[5, 6, 7, 8]);
    }
    assert_eq!(a.discard(3), 0);
    assert_eq!(b.discard(1), 0);
    assert_eq!(b.discard(2), 0);
    assert_eq!(a.played_demuxed(), b.played_demuxed());
    assert_eq!(a.take(1), b.take(1));
    // What is not decoded yet stays to be thrown away.
    assert_eq!(a.discard(5), 5);
}

#[test]
fn mono_and_surround_are_folded_to_stereo() {
    let mut d: Deck<i32> = Deck::new(1, None);
    d.on_frames(Frames::Decoded { samples: vec![1, 2], channels: 1 }, None);
    d.on_frames(Frames::Decoded { samples: vec![3, 4, 5, 6, 7, 8], channels: 3 }, None);
    // No channels at all counts as one, and a partial frame is dropped.
    d.on_frames(Frames::Decoded { samples: vec![9], channels: 0 }, None);
    d.on_frames(Frames::Decoded { samples: vec![1, 2, 3], channels: 2 }, None);
    assert_eq!(d.take(6), vec![1, 1, 2, 2, 3, 4, 6, 7, 9, 9, 1, 2]);
    assert_eq!(frame(&[1, 2, 3, 4], 2, 1), (3, 4));
}

#[test]
fn the_sample_rate_has_a_default() {
    let d: Deck<i32> = Deck::new(1, None);
    assert_eq!(d.rate(), 44_100);
    let d: Deck<i32> = Deck::new(1, Some(0));
    assert_eq!(d.rate(), 1);
    assert_eq!(CHUNK, 1152);
}

#[test]
fn the_bitrate_is_measured_over_two_seconds() {
    let mut d: Deck<i32> = Deck::new(1, Some(1000));
    d.on_packet(packet(16_000, 1000), None);
    assert_eq!(d.take_bitrate_update(), None);
    d.on_packet(packet(16_000, 1000), None);
    // 32000 bytes in 2000 ms.
    assert_eq!(d.take_bitrate_update(), Some(128));
    assert_eq!(d.take_bitrate_update(), None);
    assert!(d.holds_packet(1, 1));
    assert!(!d.holds_packet(u64::MAX, 0));
}

#[test]
fn packets_of_other_tracks_count_but_are_not_decoded() {
    let mut d: Deck<i32> = Deck::new(1, None);
    let other = Packet::Read { track_id: 2, len: 7, dur: 1 };
    assert!(matches!(d.on_packet(other, None), Pull::Again));
    assert_eq!(d.demuxed(), 7);
}

#[test]
fn frames_per_byte_need_a_packet() {
    let mut d: Deck<i32> = Deck::new(1, None);
    assert_eq!(d.frames_per_byte(), None);
    pull(&mut d, 9, &[1, 2, 3, 4]);
    assert_eq!(d.frames_per_byte(), Some((2, 9)));
}

#[test]
fn errors_after_a_splice_are_forgiven() {
    let mut d: Deck<i32> = Deck::new(1, None);
    d.expect_splice();
    for _ in 0..SPLICE_TOLERANCE {
        assert!(matches!(d.on_packet(Packet::Stumbled("x".to_string()), None), Pull::Again));
    }
    let (code, message) = failure(d.on_packet(Packet::Stumbled("x".to_string()), None));
    assert_eq!((code, message.as_str()), ("decode", "Stream is not decodable (read: x)"));
}

#[test]
fn a_broken_stream_is_never_forgiven() {
    let mut d: Deck<i32> = Deck::new(1, None);
    d.expect_splice();
    let (code, message) = failure(d.on_packet(Packet::Broken("y".to_string()), None));
    assert_eq!((code, message.as_str()), ("decode", "Stream is not decodable (read: y)"));
    let (_, message) = failure(d.on_frames(Frames::Broken("z".to_string()), None));
    assert_eq!(message, "Stream is not decodable (decode: z)");
    // A recorded network error says more.
    let (code, message) = failure(d.on_frames(Frames::Broken("z".to_string()), Some(net())));
    assert_eq!((code, message.as_str()), ("timeout", "gone"));
}

#[test]
fn an_end_with_a_network_error_is_a_failure() {
    let mut d: Deck<i32> = Deck::new(1, None);
    assert!(matches!(end_of(d.on_packet(Packet::Ended, None)), DeckEnd::Ended));
    assert!(matches!(end_of(d.on_frames(Frames::Ended, None)), DeckEnd::Ended));
    assert_eq!(failure(d.on_packet(Packet::Ended, Some(net()))).0, "timeout");
    assert_eq!(failure(d.on_frames(Frames::Ended, Some(net()))).0, "timeout");
    assert!(matches!(d.on_frames(Frames::Bad, None), Pull::Again));
}

#[test]
fn ranges_are_clamped_to_what_is_held() {
    let mut d: Deck<i32> = Deck::new(1, None);
    pull(&mut d, 9, &[1, 2, 3, 4, 5, 6]);
    d.take(1);
    assert_eq!(d.pairs(0, 9), vec![(3, 4), (5, 6)]);
    assert_eq!(d.pairs(2, 3), vec![(5, 6)]);
    assert_eq!(d.pairs(3, 2), vec![]);
    assert_eq!(d.pairs(7, 9), vec![]);
}

#[test]
fn ends_become_outcomes() {
    assert!(matches!(DeckEnd::Ended.into_outcome(), DecodeOutcome::Ended));
    assert!(matches!(DeckEnd::Failed(net()).into_outcome(), DecodeOutcome::Failed(_)));
    assert!(matches!(ended(None), DeckEnd::Ended));
    let f = fault_of(DeckEnd::Ended, "Incoming stream ended");
    assert_eq!((f.code, f.message.as_str()), ("dropped", "Incoming stream ended"));
    assert_eq!(fault_of(DeckEnd::Failed(net()), "x").code, "timeout");
}

#[test]
fn a_stream_that_cannot_be_opened_says_why() {
    let f = probe_fault(None, ProbeFailure::Unreadable("eof".to_string()));
    assert_eq!((f.code, f.message.as_str()), ("decode", "Stream is not decodable (eof)"));
    let f = probe_fault(Some(net()), ProbeFailure::Unreadable("eof".to_string()));
    assert_eq!(f.code, "timeout");
    let f = probe_fault(Some(net()), ProbeFailure::NoTrack);
    assert_eq!((f.code, f.message.as_str()), ("decode", "Stream carries no audio track"));
    let f = probe_fault(None, ProbeFailure::Codec("q".to_string()));
    assert_eq!((f.code, f.message.as_str()), ("decode", "Unsupported codec (q)"));
    assert_eq!(decode_fault(None, "d").message, "Stream is not decodable (d)");
}
