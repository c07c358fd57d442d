use ltbrfm_player::codec::{base64url_decode, percent_decode, unescape};
use ltbrfm_player::icy::{
    accept_payload, decode_payload, open_block, open_url, parse_block, parse_stream_url, LooseNum,
    Payload, PAYLOAD_VERSION,
};

fn payload(v: u32) -> Payload {
    Payload {
        v,
        seq: 1,
        playhead_ms: 2,
        wall_ms: 3,
        daypart: None,
        now: None,
        next: vec![],
        talk: vec![],
        jingles: vec![],
    }
}

/// What a document is read as: its version and its counter, in these tests.
fn read(document: &[u8]) -> Option<Payload> {
    let data: serde_json::Value = serde_json::from_slice(document).ok()?;
    let v = u32::try_from(data.get("v")?.as_u64()?).ok()?;
    let seq = data.get("s").map_or(Some(0), serde_json::Value::as_u64)?;
    Some(Payload { seq, ..payload(v) })
}

/// The schedule in a query's value, with its document read.
fn decoded(d: &str) -> Option<Payload> {
    decode_payload(d, base64url_decode(d).and_then(|bytes| read(&bytes)))
}

/// The emitter does not escape titles, so a title carrying the block's own
/// terminator must not swallow the URL that follows it.
#[test]
fn title_containing_the_terminator_keeps_the_url() {
    let raw = "StreamTitle='Oops'; nope';StreamUrl='https://x.test/n?v=1&s=5&p=1&t=2&k=track&i=z';";
    let block = parse_block(raw, None).unwrap();
    assert_eq!(block.title, "Oops'; nope");
    assert_eq!(block.url.unwrap().seq, 5);
}

#[test]
fn title_only_block_still_parses() {
    let block = parse_block("StreamTitle='Artist - Track';", None).unwrap();
    assert_eq!(block.title, "Artist - Track");
    assert!(block.url.is_none());
}

#[test]
fn rejects_other_contract_versions() {
    assert!(parse_stream_url("https://x.test/n?v=2&s=1&p=0&t=0&k=track&i=a", None).is_none());
    assert!(parse_stream_url("https://x.test/n?s=1&k=track", None).is_none());
}

#[test]
fn percent_encoded_id_and_base_with_existing_query() {
    let u =
        parse_stream_url("https://x.test/now?src=icy&v=1&s=3&p=50&t=60&k=jingle&i=a%20b%26c", None)
            .unwrap();
    assert_eq!(u.item_id, "a b&c");
    assert_eq!(u.kind, "jingle");
    assert_eq!(u.seq, 3);
}

#[test]
fn malformed_input_never_panics() {
    for raw in [
        "",
        "\0\0\0\0",
        "StreamTitle=",
        "StreamTitle='unterminated",
        "StreamUrl='https://x.test/n?v=1';",
        "StreamTitle='a';StreamUrl='not a url';",
        "StreamTitle='a';StreamUrl='https://x.test/n?v=1&s=1&p=0&t=0&k=track&i=a&d=!!!not-base64';",
        "StreamTitle='a';StreamUrl='https://x.test/n?v=1&s=1&p=0&t=0&k=track&i=a&d=eyJ2Ijox';",
    ] {
        let _ = parse_block(raw, None); // must not panic
    }
    assert!(decoded("!!!").is_none());
    assert!(decoded("").is_none());
}

#[test]
fn base64url_round_trips_all_lengths() {
    // "any", "any1", "any12" cover len % 3 == 0, 1, 2.
    assert_eq!(base64url_decode("YW55").unwrap(), b"any");
    assert_eq!(base64url_decode("YW55MQ").unwrap(), b"any1");
    assert_eq!(base64url_decode("YW55MTI").unwrap(), b"any12");
    // Padding is tolerated even though the encoder never emits it.
    assert_eq!(base64url_decode("YW55MQ==").unwrap(), b"any1");
    // The URL-safe alphabet: '-' and '_' rather than '+' and '/'.
    assert_eq!(base64url_decode("--__").unwrap(), vec![0xfb, 0xef, 0xff]);
    assert!(base64url_decode("a+b/").is_none());
}

#[test]
fn percent_decode_handles_utf8_and_bad_escapes() {
    assert_eq!(percent_decode("Caf%C3%A9"), "Café");
    assert_eq!(percent_decode("a%ZZb"), "a%ZZb");
    assert_eq!(percent_decode("trailing%"), "trailing%");
    // '+' is a literal plus, not a space: a space is written as %20.
    assert_eq!(percent_decode("a+b"), "a+b");
}

#[test]
fn malformed_blocks_keep_what_can_be_kept() {
    assert!(parse_block("", None).is_none());
    assert!(parse_block("StreamTitle=", None).is_none());
    assert!(parse_block("StreamUrl='https://x.test/n?v=1';", None).is_none());
    assert_eq!(parse_block("StreamTitle='unterminated", None).unwrap().title, "unterminated");
    let b = parse_block("StreamTitle='a';StreamUrl='not a url';", None).unwrap();
    assert_eq!(b.title, "a");
    assert!(b.url.is_none());
    let b = parse_block(
        "StreamTitle='a';StreamUrl='https://x.test/n?v=1&s=1&p=0&t=0&k=track&i=a&d=!!!not-base64';",
        Some(payload(1)),
    )
    .unwrap();
    assert!(b.url.unwrap().payload.is_none());
}

#[test]
fn an_empty_block_says_nothing() {
    assert!(parse_block("StreamTitle='';", None).is_none());
    assert!(parse_block("StreamTitle='   ';StreamUrl='';", None).is_none());
    // A position without a title is still a block.
    let b = parse_block("StreamTitle='';StreamUrl='https://x.test/?v=1&s=9';", None).unwrap();
    assert_eq!(b.title, "");
    assert_eq!(b.url.unwrap().seq, 9);
}

#[test]
fn titles_are_trimmed() {
    assert_eq!(parse_block("StreamTitle='  A - B \u{a0}';", None).unwrap().title, "A - B");
}

#[test]
fn every_field_of_a_url_is_read() {
    let u = parse_stream_url(
        "https://x.test/n?v=1&s=233&p=-50&t=1700000000000&k=track&i=t%2D1&d=YW55",
        Some(payload(1)),
    )
    .unwrap();
    assert_eq!(u.seq, 233);
    assert_eq!(u.playhead_ms, -50);
    assert_eq!(u.wall_ms, 1_700_000_000_000);
    assert_eq!(u.kind, "track");
    assert_eq!(u.item_id, "t-1");
    assert_eq!(u.payload, Some(payload(1)));
}

#[test]
fn the_last_of_repeated_keys_counts() {
    let u = parse_stream_url("https://x.test/n?v=2&v=1&s=3&s=4&k=a&k", None).unwrap();
    assert_eq!(u.seq, 4);
    assert_eq!(u.kind, "");
}

#[test]
fn numbers_that_do_not_parse_count_as_zero() {
    let u = parse_stream_url("https://x.test/n?v=1&s=-1&p=x&t=9223372036854775808", None).unwrap();
    assert_eq!((u.seq, u.playhead_ms, u.wall_ms), (0, 0, 0));
    let extremes = "https://x.test/n?v=+1&s=18446744073709551615&p=-9223372036854775808";
    let u = parse_stream_url(extremes, None).unwrap();
    assert_eq!(u.seq, u64::MAX);
    assert_eq!(u.playhead_ms, i64::MIN);
}

#[test]
fn a_url_without_a_query_is_ignored() {
    assert!(parse_stream_url("", None).is_none());
    assert!(parse_stream_url("https://x.test/n", None).is_none());
    // Only the first question mark begins the query.
    assert!(parse_stream_url("https://x.test/n?a=?v=1", None).is_none());
}

#[test]
fn bytes_that_are_no_text_are_replaced() {
    assert_eq!(percent_decode("a%FFb"), "a\u{fffd}b");
    assert_eq!(unescape(b"%41%4"), b"A%4".to_vec());
}

#[test]
fn only_the_known_version_is_accepted() {
    assert_eq!(accept_payload(Some(payload(PAYLOAD_VERSION))), Some(payload(1)));
    assert!(accept_payload(Some(payload(2))).is_none());
    assert!(accept_payload(None).is_none());
}

#[test]
fn loose_numbers_are_read_leniently() {
    assert_eq!(LooseNum::Int(-7).to_i64(), -7);
    assert_eq!(LooseNum::Int(-7).to_u64(), 0);
    assert_eq!(LooseNum::Int(7).to_u64(), 7);
    assert_eq!(LooseNum::Text(" 42 ".to_string()).to_i64(), 42);
    assert_eq!(LooseNum::Text("4.2".to_string()).to_i64(), 0);
}

#[test]
fn the_order_of_pairs_and_foreign_pairs_do_not_matter() {
    let straight = "https://x.test/?v=1&s=5&p=-7&t=9&k=track&i=ab&d=e30";
    let plain = parse_stream_url(straight, Some(payload(1))).unwrap();
    assert!(plain.payload.is_some());
    let mixed = "http://y/?d=e30&zz=1&i=ab&k=track&&t=9&vv=2&p=-7&s=5&=&v=1&x";
    assert_eq!(parse_stream_url(mixed, Some(payload(1))), Some(plain));
    assert_eq!(open_url(mixed).unwrap().1.unwrap(), b"{}");
    // Of two pairs with one key the later decides, so that their order matters.
    assert_eq!(parse_stream_url("?v=1&s=5&s=6", None).unwrap().seq, 6);
    assert_eq!(parse_stream_url("?v=1&s=6&s=5", None).unwrap().seq, 5);
}

#[test]
fn escapes_of_either_case_and_plain_text_read_back() {
    assert_eq!(percent_decode("caf%c3%A9"), "café");
    assert_eq!(percent_decode("café%2fé"), "café/é");
    assert_eq!(percent_decode("日本"), "日本");
    assert_eq!(percent_decode("%e6%97%A5本"), "日本");
}

#[test]
fn the_schedule_is_what_the_document_holds() {
    // {"v":1,"s":4}, {"v":2}, {"v":1 and nothing more, and no base64url.
    let read_as = |d: &str| {
        let url = format!("https://x.test/n?v=1&s=9&d={d}");
        let (bare, document) = open_url(&url).unwrap();
        assert!(bare.payload.is_none());
        let parsed = document.and_then(|bytes| read(&bytes));
        let u = parse_stream_url(&url, parsed).unwrap();
        assert_eq!(u.seq, 9);
        u.payload
    };
    assert_eq!(read_as("eyJ2IjoxLCJzIjo0fQ"), Some(Payload { seq: 4, ..payload(1) }));
    assert_eq!(read_as("eyJ2IjoyfQ"), None);
    assert_eq!(read_as("eyJ2Ijox"), None);
    assert_eq!(read_as("!!!"), None);
    // Without a document there is no schedule, whatever was read.
    assert!(parse_stream_url("?v=1", Some(payload(1))).unwrap().payload.is_none());
    assert!(parse_stream_url("?v=1&d=e30", Some(payload(2))).unwrap().payload.is_none());
}

#[test]
fn a_block_hands_out_its_document() {
    let raw = "StreamTitle='T';StreamUrl='https://x.test/n?v=1&s=9&d=eyJ2IjoxfQ';";
    let (block, document) = open_block(raw).unwrap();
    assert_eq!(document.unwrap(), b"{\"v\":1}");
    assert!(block.url.as_ref().unwrap().payload.is_none());
    let whole = parse_block(raw, Some(payload(1)));
    assert_eq!(whole, Some(block.scheduled(Some(payload(1)))));
    assert_eq!(whole.unwrap().url.unwrap().payload, Some(payload(1)));
    // Another version of the query hands out nothing.
    assert!(open_block("StreamTitle='T';StreamUrl='?v=2&d=e30';").unwrap().1.is_none());
    assert!(open_block("StreamTitle='T';").unwrap().1.is_none());
    assert!(open_block("nothing").is_none());
}

#[test]
fn only_base64url_holds_a_schedule() {
    assert_eq!(decoded("eyJ2IjoxfQ"), Some(Payload { seq: 0, ..payload(1) }));
    assert!(decoded("eyJ2IjoyfQ").is_none());
    assert!(decode_payload("a+b/", Some(payload(1))).is_none());
}
