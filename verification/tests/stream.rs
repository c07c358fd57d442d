use ltbrfm_player::icy::{Block, Payload};
use ltbrfm_player::stream::{
    frame_sync_offset, on_answer, pump_step, BytePipe, Fetched, Headers, IcyDemux, PipeReader,
    Pumping, StationInfo, Trim, PIPE_CAP,
};

/// A metadata segment: length byte and NUL-padded payload.
fn meta_segment(text: &str) -> Vec<u8> {
    let blocks = text.len().div_ceil(16);
    let mut out = vec![blocks as u8];
    out.extend_from_slice(text.as_bytes());
    out.resize(1 + blocks * 16, 0);
    out
}

fn read_to_end(reader: &mut PipeReader) -> Vec<u8> {
    let mut all = Vec::new();
    let mut room = [0u8; 3];
    loop {
        let n = reader.read(&mut room).expect("the pipe is closed");
        if n == 0 {
            return all;
        }
        all.extend_from_slice(&room[..n]);
    }
}

fn headers() -> Headers {
    Headers { name: None, description: None, genre: None, url: None, bitrate: None, metaint: None }
}

#[test]
fn icy_demux_splits_audio_and_metadata() {
    // metaint = 4: four audio bytes, then a length byte, then padded meta.
    let mut pipe = BytePipe::new();
    let mut demux = IcyDemux::new(4);

    let mut chunk = vec![1u8, 2, 3, 4]; // audio
    chunk.extend_from_slice(&meta_segment("StreamTitle='X - Y';"));
    chunk.extend_from_slice(&[5, 6, 7, 8]); // more audio

    assert_eq!(demux.feed(&chunk, &mut pipe, false), chunk.len());
    let released = pipe.tick(8).released;
    pipe.close();

    // Audio bytes should have passed through, metadata stripped.
    let mut reader = PipeReader::new(pipe);
    let audio = read_to_end(&mut reader);
    assert_eq!(audio, vec![1, 2, 3, 4, 5, 6, 7, 8]);
    assert_eq!(released.len(), 1);
    assert_eq!(released[0].title, "X - Y");
}

#[test]
fn blocks_are_stamped_at_the_write_cursor() {
    let mut pipe = BytePipe::new();
    let mut demux = IcyDemux::new(4);

    let mut chunk = vec![0u8; 4];
    chunk.extend_from_slice(&meta_segment("StreamTitle='first';"));
    chunk.extend_from_slice(&[0u8; 4]);
    chunk.extend_from_slice(&meta_segment("StreamTitle='second';"));
    demux.feed(&chunk, &mut pipe, false);

    // Nothing is due before the decoder has consumed the audio ahead of it.
    assert!(pipe.tick(3).released.is_empty(), "released early");
    let first = pipe.tick(4).released;
    assert_eq!(first.len(), 1);
    assert_eq!(first[0].title, "first");

    assert!(pipe.tick(7).released.is_empty(), "second released early");
    let second = pipe.tick(8).released;
    assert_eq!(second.len(), 1);
    assert_eq!(second[0].title, "second");
}

#[test]
fn depth_reflects_what_the_decoder_has_not_reached() {
    let mut pipe = BytePipe::new();
    pipe.write_all(&[0u8; 1000], false);
    assert_eq!(pipe.tick(0).depth_bytes, 1000);
    assert_eq!(pipe.tick(400).depth_bytes, 600);
}

#[test]
fn trim_cuts_at_a_frame_header_and_accounts_for_it() {
    let mut pipe = BytePipe::new();

    // 600 bytes of junk, then a frame sync, then more.
    let mut data = vec![0x11u8; 600];
    data.extend_from_slice(&[0xFF, 0xFB, 0x90, 0x00]);
    data.extend_from_slice(&[0x22; 396]);
    pipe.write_all(&data, false);

    let trim = pipe.trim_to(400, 0);
    // Wanted to drop 600, but slid forward to the sync word at 600.
    assert_eq!(trim.bytes, 600);

    // The trim is invisible to the decoder's own byte count, so depth must
    // fall by exactly what was discarded.
    assert_eq!(pipe.tick(0).depth_bytes, 400);

    let mut reader = PipeReader::new(pipe);
    let mut head = [0u8; 2];
    assert_eq!(reader.read(&mut head), Some(2));
    assert_eq!(head, [0xFF, 0xFB], "playback must resume on a frame header");
}

#[test]
fn trim_drops_metadata_it_jumped_over() {
    let mut pipe = BytePipe::new();

    // Three blocks spread through the buffer, all in the region we discard.
    for i in 0..3 {
        pipe.write_all(&[0x11u8; 300], false);
        pipe.stamp_meta(Block { title: format!("t{i}"), url: None });
    }
    pipe.write_all(&[0x22u8; 100], false);

    let trim = pipe.trim_to(100, 0);
    assert_eq!(trim.meta_skipped, 2, "only the newest should survive");

    // The survivor is the best description of what is about to be heard.
    let released = pipe.tick(0).released;
    assert_eq!(released.len(), 1);
    assert_eq!(released[0].title, "t2");
}

#[test]
fn trim_below_the_keep_threshold_is_a_no_op() {
    let mut pipe = BytePipe::new();
    pipe.write_all(&[0u8; 100], false);
    assert_eq!(pipe.trim_to(400, 0), Trim::default());
    assert_eq!(pipe.tick(0).depth_bytes, 100);
}

#[test]
fn trim_slides_forward_to_the_next_header() {
    let mut pipe = BytePipe::new();
    let mut data = vec![0x11u8; 500];
    data.extend_from_slice(&[0xFF, 0xFB]);
    data.extend_from_slice(&[0x22; 498]);
    pipe.write_all(&data, false);
    // 600 would remain, but the first header is 100 bytes further on.
    assert_eq!(pipe.trim_to(600, 0).bytes, 500);
    assert_eq!(pipe.buffered(), 500);
    assert_eq!(pipe.dropped(), 500);
    assert_eq!(pipe.written(), 1000);
}

#[test]
fn a_trim_to_nothing_empties_the_pipe() {
    let mut pipe = BytePipe::new();
    pipe.write_all(&[0u8; 100], false);
    assert_eq!(pipe.trim_to(0, 0).bytes, 100);
    assert_eq!(pipe.buffered(), 0);
}

#[test]
fn a_full_pipe_makes_the_writer_wait() {
    let mut pipe = BytePipe::new();
    assert_eq!(pipe.write_all(&vec![7u8; PIPE_CAP + 10], false), PIPE_CAP);
    assert_eq!(pipe.write_all(&[1, 2], false), 0);
    let mut room = [0u8; 4];
    assert_eq!(pipe.read(&mut room), Some(4));
    assert_eq!(pipe.write_all(&[1, 2], false), 2);
    // A raised stop lets go of the rest.
    assert_eq!(pipe.write_all(&[0u8; 100], true), 100);
    assert_eq!(pipe.written(), PIPE_CAP as u64 + 2);
}

#[test]
fn a_full_pipe_holds_up_the_demultiplexer() {
    let mut pipe = BytePipe::new();
    let mut demux = IcyDemux::new(0);
    let chunk = vec![1u8; PIPE_CAP + 5];
    assert_eq!(demux.feed(&chunk, &mut pipe, false), PIPE_CAP);
    let mut room = vec![0u8; 5];
    assert_eq!(pipe.read(&mut room), Some(5));
    assert_eq!(demux.feed(&chunk[PIPE_CAP..], &mut pipe, false), 5);
}

#[test]
fn an_empty_pipe_waits_until_it_is_closed() {
    let mut pipe = BytePipe::new();
    let mut room = [9u8; 2];
    assert_eq!(pipe.read(&mut room), None);
    assert_eq!(pipe.read(&mut []), Some(0));
    pipe.write_all(&[1], false);
    assert_eq!(pipe.read(&mut room), Some(1));
    assert_eq!(room, [1, 9]);
    pipe.close();
    assert!(pipe.is_closed());
    assert_eq!(pipe.read(&mut room), Some(0));
    // A closed pipe swallows what is written.
    assert_eq!(pipe.write_all(&[1, 2, 3], false), 3);
    assert_eq!(pipe.buffered(), 0);
}

#[test]
fn closing_forgets_pending_metadata() {
    let mut pipe = BytePipe::new();
    pipe.stamp_meta(Block { title: "t".to_string(), url: None });
    pipe.close();
    assert!(pipe.tick(0).released.is_empty());
}

#[test]
fn after_a_close_what_waits_comes_out_and_nothing_else() {
    let mut pipe = BytePipe::new();
    pipe.write_all(&[1, 2, 3], false);
    pipe.stamp_meta(Block { title: "before".to_string(), url: None });
    pipe.close();
    let mut room = [0u8; 2];
    assert_eq!((pipe.read(&mut room), room), (Some(2), [1, 2]));
    assert_eq!(pipe.write_all(&[7, 8], false), 2);
    assert_eq!(pipe.written(), 3);
    pipe.close();
    assert_eq!((pipe.read(&mut room), room), (Some(1), [3, 2]));
    assert_eq!(pipe.read(&mut room), Some(0));
    assert_eq!(pipe.read(&mut room), Some(0));
    assert!(pipe.tick(100).released.is_empty());
}

#[test]
fn padding_says_nothing() {
    for padding in [12, 28] {
        let mut pipe = BytePipe::new();
        let mut demux = IcyDemux::new(1);
        let mut bytes = vec![9, (20 + padding) as u8 / 16];
        bytes.extend_from_slice(b"StreamTitle='X - Y';");
        bytes.extend(vec![0; padding]);
        assert_eq!(demux.feed(&bytes, &mut pipe, false), bytes.len());
        let released = pipe.tick(1).released;
        assert_eq!(released.len(), 1);
        assert_eq!(released[0].title, "X - Y");
    }
}

#[test]
fn a_reader_has_neither_length_nor_position() {
    let reader = PipeReader::new(BytePipe::new());
    assert!(!reader.is_seekable());
    assert_eq!(reader.byte_len(), None);
}

#[test]
fn chunk_borders_do_not_matter() {
    let mut chunk = vec![1u8, 2, 3, 4];
    chunk.extend_from_slice(&meta_segment("StreamTitle='A - Very Long Title Indeed';"));
    chunk.extend_from_slice(&[5, 6, 7, 8, 0, 9]);
    let mut pipe = BytePipe::new();
    let mut demux = IcyDemux::new(4);
    for b in &chunk {
        assert_eq!(demux.feed(&[*b], &mut pipe, false), 1);
    }
    let t = pipe.tick(9);
    assert_eq!(t.released.len(), 1);
    assert_eq!(t.released[0].title, "A - Very Long Title Indeed");
    assert_eq!((t.depth_bytes, t.pipe_bytes), (0, 9));
}

fn schedule(v: u32) -> Payload {
    Payload {
        v,
        seq: 3,
        playhead_ms: 0,
        wall_ms: 0,
        daypart: None,
        now: None,
        next: vec![],
        talk: vec![],
        jingles: vec![],
    }
}

#[test]
fn a_block_waits_for_its_document_to_be_read() {
    // The document is {"v":1}.
    let mut chunk = vec![1u8, 2];
    chunk.extend_from_slice(&meta_segment(
        "StreamTitle='T';StreamUrl='https://x.test/?v=1&s=9&d=eyJ2IjoxfQ';",
    ));
    let whole = chunk.len();
    chunk.extend_from_slice(&[3, 4, 0, 5]);
    for (parsed, payload) in
        [(Some(schedule(1)), Some(schedule(1))), (Some(schedule(2)), None), (None, None)]
    {
        let mut pipe = BytePipe::new();
        let mut demux = IcyDemux::new(2);
        assert!(demux.document().is_none());
        assert_eq!(demux.feed(&chunk, &mut pipe, false), whole);
        assert_eq!(demux.document().unwrap(), b"{\"v\":1}");
        // Nothing is taken and nothing stamped until it is read.
        assert_eq!(demux.feed(&chunk[whole..], &mut pipe, false), 0);
        demux.on_document(parsed, &mut pipe);
        assert!(demux.document().is_none());
        assert_eq!(demux.feed(&chunk[whole..], &mut pipe, false), 4);
        assert_eq!(pipe.buffered(), 5);
        assert!(pipe.tick(1).released.is_empty());
        let released = pipe.tick(2).released;
        assert_eq!(released.len(), 1);
        let url = released[0].url.as_ref().unwrap();
        assert_eq!((url.seq, &url.payload), (9, &payload));
    }
}

#[test]
fn nothing_read_without_a_document_changes_anything() {
    let mut pipe = BytePipe::new();
    let mut demux = IcyDemux::new(2);
    demux.feed(&[1], &mut pipe, false);
    demux.on_document(Some(schedule(1)), &mut pipe);
    assert_eq!(demux.feed(&[2, 0, 3], &mut pipe, false), 3);
    assert_eq!(pipe.buffered(), 3);
    assert!(pipe.tick(9).released.is_empty());
}

#[test]
fn metadata_that_says_nothing_is_dropped() {
    let mut pipe = BytePipe::new();
    let mut demux = IcyDemux::new(1);
    let mut chunk = vec![1u8];
    chunk.extend_from_slice(&meta_segment("StreamTitle='';"));
    chunk.push(2);
    demux.feed(&chunk, &mut pipe, false);
    assert!(pipe.tick(10).released.is_empty());
    assert_eq!(pipe.buffered(), 2);
}

#[test]
fn frame_headers_are_eleven_set_bits() {
    assert_eq!(frame_sync_offset(&[0x00, 0xFF, 0xE0]), 1);
    assert_eq!(frame_sync_offset(&[0xFF, 0xDF, 0xFF, 0xFB]), 2);
    assert_eq!(frame_sync_offset(&[0xFF]), 0);
    assert_eq!(frame_sync_offset(&[]), 0);
    // The scan is bounded.
    let mut far = vec![0u8; 2047];
    far.extend_from_slice(&[0xFF, 0xFB]);
    assert_eq!(frame_sync_offset(&far), 0);
    assert_eq!(frame_sync_offset(&far[1..]), 2046);
}

#[test]
fn station_headers_need_not_be_ascii() {
    let s = StationInfo::from_headers(&Headers {
        name: Some(" LTBR·FM ".as_bytes().to_vec()),
        description: Some(vec![b'a', 0xFF]),
        bitrate: Some(b"128".to_vec()),
        metaint: Some(b"16000".to_vec()),
        ..headers()
    });
    assert_eq!(s.name, "LTBR·FM");
    assert_eq!(s.description, "a\u{fffd}");
    assert_eq!(s.genre, "");
    assert_eq!(s.bitrate_kbps, 128);
    assert_eq!(s.metaint, 16_000);
}

#[test]
fn missing_numbers_count_as_zero() {
    let s = StationInfo::from_headers(&Headers { bitrate: Some(b"fast".to_vec()), ..headers() });
    assert_eq!((s.bitrate_kbps, s.metaint), (0, 0));
}

#[test]
fn an_answer_is_a_station_or_a_refusal() {
    let h = Headers { name: Some(b"x".to_vec()), metaint: Some(b"2".to_vec()), ..headers() };
    let (s, mut demux) = match on_answer(true, "200 OK", &h) {
        Ok(ok) => ok,
        Err(e) => panic!("{e}"),
    };
    assert_eq!(s.name, "x");
    let mut pipe = BytePipe::new();
    demux.feed(&[1, 2, 0, 3, 4], &mut pipe, false);
    assert_eq!(pipe.buffered(), 4);
    assert_eq!(on_answer(false, "404 Not Found", &h).err().unwrap(), "HTTP 404 Not Found");
}

#[test]
fn reads_lead_to_the_next_step() {
    assert_eq!(pump_step(Fetched::Bytes(0)), Pumping::Finish);
    assert_eq!(pump_step(Fetched::Bytes(7)), Pumping::Feed(7));
    assert_eq!(pump_step(Fetched::Interrupted), Pumping::Again);
    assert_eq!(pump_step(Fetched::Broken), Pumping::Fail);
}
