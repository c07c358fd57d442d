//! Stream metadata: `StreamTitle` / `StreamUrl` blocks and the compact
//! schedule.
//!
//! The station encodes a complete sync and schedule document into the query
//! string of the `StreamUrl`. A metadata block is attached to a byte position
//! of the source, so that it arrives exactly where the audio it describes
//! does.
//!
//! Everything returns `Option` on purpose. Titles are not escaped by the
//! emitter, so a malformed or truncated block must leave the previous metadata
//! standing rather than blank the display.

use crate::codec;
use crate::codec::{base64url_decode, percent_decode};
use crate::number;
use crate::number::{parse_i64, parse_u32, parse_u64};
use crate::text;
use vstd::prelude::*;
use vstd::utf8::*;

verus! {

pub const TITLE_TAG: &'static str = "StreamTitle='";

pub const URL_TAG: &'static str = "';StreamUrl='";

pub const TERM: &'static str = "';";

/// The contract version that is understood. Anything else is ignored outright:
/// a later version may reuse key names with different meanings.
pub const PAYLOAD_VERSION: u32 = 1;

// ---------------------------------------------------------------------------
// The schedule
// ---------------------------------------------------------------------------

#[derive(Debug, Clone, PartialEq)]
pub struct Segment {
    pub kind: String,
    pub id: String,
    pub artist: Option<String>,
    pub title: Option<String>,
    pub start_ms: i64,
    pub duration_ms: i64,
}

#[derive(Debug, Clone, PartialEq)]
pub struct Talk {
    pub id: String,
    pub start_ms: i64,
    /// 0 means that the line is still being generated upstream.
    pub duration_ms: i64,
    pub dj: Option<String>,
    pub from_chat: Option<bool>,
}

#[derive(Debug, Clone, PartialEq)]
pub struct Jingle {
    pub id: String,
    pub start_ms: i64,
    pub duration_ms: i64,
    /// opener | hour | between
    pub role: String,
    pub name: Option<String>,
}

#[derive(Debug, Clone, PartialEq)]
pub struct Daypart {
    pub id: String,
    pub name: String,
    pub show_title: Option<String>,
    pub dj: Option<String>,
}

/// The compact schedule. Its lists are cut from the tail whenever a block
/// would exceed its byte cap, so a short or absent list is routine.
#[derive(Debug, Clone, PartialEq)]
pub struct Payload {
    pub v: u32,
    pub seq: u64,
    pub playhead_ms: i64,
    pub wall_ms: i64,
    pub daypart: Option<Daypart>,
    pub now: Option<Segment>,
    pub next: Vec<Segment>,
    pub talk: Vec<Talk>,
    pub jingles: Vec<Jingle>,
}

/// A schedule of the version that is understood, or none.
pub open spec fn accepted(parsed: Option<Payload>) -> Option<Payload> {
    if parsed is Some && parsed->0.v == PAYLOAD_VERSION {
        parsed
    } else {
        None
    }
}

/// A schedule of the version that is understood, or none.
pub fn accept_payload(parsed: Option<Payload>) -> (r: Option<Payload>)
    ensures
        r == accepted(parsed),
{
    match parsed {
        Some(p) => if p.v == PAYLOAD_VERSION {
            Some(p)
        } else {
            None
        },
        None => None,
    }
}

/// A number of the schedule, which a lenient reader also takes as text.
#[derive(Debug, Clone, PartialEq)]
pub enum LooseNum {
    Int(i64),
    Text(String),
}

impl LooseNum {
    /// The number meant. A text that writes none counts as 0.
    pub open spec fn value(self) -> int {
        match self {
            LooseNum::Int(n) => n as int,
            LooseNum::Text(s) => match number::signed(text::trimmed(s@)) {
                Some(n) => n,
                None => 0,
            },
        }
    }

    pub fn to_i64(&self) -> (n: i64)
        ensures
            n == self.value(),
    {
        match self {
            LooseNum::Int(n) => *n,
            LooseNum::Text(s) => match parse_i64(text::trim(s.as_str())) {
                Some(n) => n,
                None => 0,
            },
        }
    }

    /// The number meant, for a counter: a negative one counts as 0.
    pub fn to_u64(&self) -> (n: u64)
        ensures
            n == (if self.value() < 0 {
                0
            } else {
                self.value()
            }),
    {
        let n: i64 = self.to_i64();
        if n < 0 {
            0
        } else {
            n as u64
        }
    }
}

// ---------------------------------------------------------------------------
// Blocks
// ---------------------------------------------------------------------------

/// The parsed `StreamUrl`. `payload` is absent whenever the schedule was
/// dropped, cannot be read, or is of another version.
#[derive(Debug, Clone, PartialEq)]
pub struct StreamUrl {
    pub seq: u64,
    /// Station timeline position (ms) of the audio this block is attached to.
    pub playhead_ms: i64,
    /// Station wall clock (epoch ms) for that same audio instant. The
    /// difference between this and our clock, measured when the block reaches
    /// playback, is the listener's true end-to-end lag.
    pub wall_ms: i64,
    /// track | jingle | talk | off | hb
    pub kind: String,
    pub item_id: String,
    pub payload: Option<Payload>,
}

/// One complete metadata block.
#[derive(Debug, Clone, PartialEq)]
pub struct Block {
    pub title: String,
    pub url: Option<StreamUrl>,
}

/// The bytes of a document, where there is one.
pub open spec fn bytes_say(document: Option<Vec<u8>>) -> Option<Seq<u8>> {
    match document {
        Some(b) => Some(b@),
        None => None,
    }
}

/// What a [`StreamUrl`] says.
pub ghost struct UrlView {
    pub seq: int,
    pub playhead_ms: int,
    pub wall_ms: int,
    pub kind: Seq<char>,
    pub item_id: Seq<char>,
    pub payload: Option<Payload>,
}

/// What a [`Block`] says.
pub ghost struct BlockView {
    pub title: Seq<char>,
    pub url: Option<UrlView>,
}

impl View for StreamUrl {
    type V = UrlView;

    open spec fn view(&self) -> UrlView {
        UrlView {
            seq: self.seq as int,
            playhead_ms: self.playhead_ms as int,
            wall_ms: self.wall_ms as int,
            kind: self.kind@,
            item_id: self.item_id@,
            payload: self.payload,
        }
    }
}

impl View for Block {
    type V = BlockView;

    open spec fn view(&self) -> BlockView {
        BlockView {
            title: self.title@,
            url: match self.url {
                Some(u) => Some(u@),
                None => None,
            },
        }
    }
}

/// A `key=value` pair of a query. A pair without `=` is a key alone.
pub open spec fn key_value(pair: Seq<char>) -> (Seq<char>, Seq<char>) {
    match text::split_once(pair, '=') {
        Some(kv) => kv,
        None => (pair, Seq::empty()),
    }
}

/// The value of the last pair whose key is `key`.
pub open spec fn last_value(pairs: Seq<Seq<char>>, key: char) -> Option<Seq<char>>
    decreases pairs.len(),
{
    if pairs.len() == 0 {
        None
    } else if key_value(pairs.last()).0 == seq![key] {
        Some(key_value(pairs.last()).1)
    } else {
        last_value(pairs.drop_last(), key)
    }
}

/// The contract version of a query.
pub open spec fn version_of(value: Option<Seq<char>>) -> Option<int> {
    match value {
        Some(v) => number::unsigned(v, u32::MAX as int),
        None => None,
    }
}

/// A counter of a query: 0 where it is absent or no number.
pub open spec fn counter_of(value: Option<Seq<char>>) -> int {
    match value {
        Some(v) => match number::unsigned(v, u64::MAX as int) {
            Some(n) => n,
            None => 0,
        },
        None => 0,
    }
}

/// A time of a query: 0 where it is absent or no number.
pub open spec fn time_of(value: Option<Seq<char>>) -> int {
    match value {
        Some(v) => match number::signed(v) {
            Some(n) => n,
            None => 0,
        },
        None => 0,
    }
}

/// A text of a query: empty where it is absent.
pub open spec fn text_of(value: Option<Seq<char>>) -> Seq<char> {
    match value {
        Some(v) => codec::percent_decoded(v),
        None => Seq::empty(),
    }
}

/// The document of a query, where it decodes.
pub open spec fn document_of(value: Option<Seq<char>>) -> Option<Seq<u8>> {
    match value {
        Some(v) => codec::base64url(encode_utf8(v)),
        None => None,
    }
}

/// The schedule of a query: `parsed` is what its document holds, where it could
/// be read.
pub open spec fn payload_of(value: Option<Seq<char>>, parsed: Option<Payload>) -> Option<
    Payload,
> {
    match document_of(value) {
        Some(_) => accepted(parsed),
        None => None,
    }
}

/// Whether the query of a stream URL is of the version that is understood.
pub open spec fn query_counts(query: Seq<char>) -> bool {
    version_of(last_value(text::split(query, '&'), 'v')) == Some(PAYLOAD_VERSION as int)
}

/// What the query of a stream URL says, with `parsed` as what its document
/// holds. The base may carry pairs of its own, so known keys are picked out
/// wherever they stand.
pub open spec fn query_says(query: Seq<char>, parsed: Option<Payload>) -> Option<UrlView> {
    let pairs = text::split(query, '&');
    if query_counts(query) {
        Some(
            UrlView {
                seq: counter_of(last_value(pairs, 's')),
                playhead_ms: time_of(last_value(pairs, 'p')),
                wall_ms: time_of(last_value(pairs, 't')),
                kind: text_of(last_value(pairs, 'k')),
                item_id: text_of(last_value(pairs, 'i')),
                payload: payload_of(last_value(pairs, 'd'), parsed),
            },
        )
    } else {
        None
    }
}

/// The document that the query of a stream URL carries.
pub open spec fn query_document(query: Seq<char>) -> Option<Seq<u8>> {
    if query_counts(query) {
        document_of(last_value(text::split(query, '&'), 'd'))
    } else {
        None
    }
}

/// What a stream URL says, with `parsed` as what its document holds: nothing
/// without a query, nor in another version.
pub open spec fn url_says(url: Seq<char>, parsed: Option<Payload>) -> Option<UrlView> {
    match text::split_once(url, '?') {
        Some((_, query)) => query_says(query, parsed),
        None => None,
    }
}

/// The document that a stream URL carries.
pub open spec fn url_document(url: Seq<char>) -> Option<Seq<u8>> {
    match text::split_once(url, '?') {
        Some((_, query)) => query_document(query),
        None => None,
    }
}

/// The title and URL texts of a raw block. The title ends at the literal
/// `';StreamUrl='` rather than at the first `';`, so that a title that itself
/// contains `';` keeps the URL.
pub open spec fn framed(raw: Seq<char>) -> Option<(Seq<char>, Option<Seq<char>>)> {
    match text::find(raw, TITLE_TAG@) {
        Some(i) => {
            let rest = raw.skip(i + TITLE_TAG@.len());
            match text::find(rest, URL_TAG@) {
                Some(j) => Some(
                    (rest.take(j), Some(text::before(rest.skip(j + URL_TAG@.len()), TERM@))),
                ),
                None => Some((text::before(rest, TERM@), None)),
            }
        },
        None => None,
    }
}

/// What a raw block says, where it says anything, with `parsed` as what its
/// document holds.
pub open spec fn block_says(raw: Seq<char>, parsed: Option<Payload>) -> Option<BlockView> {
    match framed(raw) {
        Some((title, url)) => {
            let title = text::trimmed(title);
            let url = match url {
                Some(u) => url_says(u, parsed),
                None => None,
            };
            if title.len() == 0 && url is None {
                None
            } else {
                Some(BlockView { title, url })
            }
        },
        None => None,
    }
}

/// The document that a raw block carries.
pub open spec fn block_document(raw: Seq<char>) -> Option<Seq<u8>> {
    match framed(raw) {
        Some((_, Some(url))) => url_document(url),
        _ => None,
    }
}

impl UrlView {
    /// This with the schedule that its document holds.
    pub open spec fn scheduled(self, parsed: Option<Payload>) -> UrlView {
        UrlView { payload: accepted(parsed), ..self }
    }
}

impl BlockView {
    /// This with the schedule that its document holds.
    pub open spec fn scheduled(self, parsed: Option<Payload>) -> BlockView {
        BlockView {
            url: match self.url {
                Some(u) => Some(u.scheduled(parsed)),
                None => None,
            },
            ..self
        }
    }
}

/// What a document holds bears on nothing but the schedule, and only where
/// there is a document.
pub proof fn lemma_schedule_joins(raw: Seq<char>, parsed: Option<Payload>)
    ensures
        match block_document(raw) {
            Some(_) => block_says(raw, None) is Some && block_says(raw, parsed) == Some(
                block_says(raw, None)->0.scheduled(parsed),
            ),
            None => block_says(raw, parsed) == block_says(raw, None),
        },
{
}

/// Base64url, then JSON, then a [`Payload`]. `parsed` is what the decoded bytes
/// were read as, where they could be.
pub fn decode_payload(d: &str, parsed: Option<Payload>) -> (r: Option<Payload>)
    ensures
        r == payload_of(Some(d@), parsed),
{
    match base64url_decode(d) {
        Some(_) => accept_payload(parsed),
        None => None,
    }
}

/// Parse the `StreamUrl` query string, with `parsed` as what its document was
/// read as. Returns `None` for any version other than [`PAYLOAD_VERSION`], or
/// when the URL carries no query at all.
pub fn parse_stream_url(url: &str, parsed: Option<Payload>) -> (r: Option<StreamUrl>)
    ensures
        match r {
            Some(u) => url_says(url@, parsed) == Some(u@),
            None => url_says(url@, parsed) is None,
        },
{
    match open_url(url) {
        Some((u, Some(_))) => Some(u.scheduled(parsed)),
        Some((u, None)) => Some(u),
        None => None,
    }
}

impl StreamUrl {
    /// This with the schedule that its document was read as.
    pub fn scheduled(self, parsed: Option<Payload>) -> (u: StreamUrl)
        ensures
            u@ == self@.scheduled(parsed),
    {
        let mut u = self;
        u.payload = accept_payload(parsed);
        u
    }
}

impl Block {
    /// This with the schedule that its document was read as.
    pub fn scheduled(self, parsed: Option<Payload>) -> (b: Block)
        ensures
            b@ == self@.scheduled(parsed),
    {
        let url: Option<StreamUrl> = match self.url {
            Some(u) => Some(u.scheduled(parsed)),
            None => None,
        };
        Block { title: self.title, url }
    }
}

/// Read the `StreamUrl` query string, but for its schedule: that is to be read
/// from the document, which comes along where there is one.
pub fn open_url(url: &str) -> (r: Option<(StreamUrl, Option<Vec<u8>>)>)
    ensures
        match r {
            Some((u, document)) => {
                &&& url_says(url@, None) == Some(u@)
                &&& url_document(url@) == bytes_say(document)
            },
            None => url_says(url@, None) is None,
        },
{
    let query: &str = match text::cut(url, '?') {
        Some((_, q)) => q,
        None => {
            return None;
        },
    };
    let pairs = text::pieces(query, '&');
    let ghost all = text::split(query@, '&');

    let mut version: Option<u32> = None;
    let mut seq: u64 = 0;
    let mut playhead_ms: i64 = 0;
    let mut wall_ms: i64 = 0;
    let mut kind: String = String::new();
    let mut item_id: String = String::new();
    let mut d: Option<&str> = None;

    let mut i: usize = 0;
    while i < pairs.len()
        invariant
            i <= pairs.len(),
            pairs@.len() == all.len(),
            forall|j: int| 0 <= j < all.len() ==> (#[trigger] pairs@[j])@ == all[j],
            version_of(last_value(all.take(i as int), 'v')) == (match version {
                Some(n) => Some(n as int),
                None => None,
            }),
            seq == counter_of(last_value(all.take(i as int), 's')),
            playhead_ms == time_of(last_value(all.take(i as int), 'p')),
            wall_ms == time_of(last_value(all.take(i as int), 't')),
            kind@ == text_of(last_value(all.take(i as int), 'k')),
            item_id@ == text_of(last_value(all.take(i as int), 'i')),
            last_value(all.take(i as int), 'd') == (match d {
                Some(v) => Some(v@),
                None => None,
            }),
        decreases pairs.len() - i,
    {
        let pair: &str = pairs[i];
        let (key, val) = match text::cut(pair, '=') {
            Some(kv) => kv,
            None => (pair, ""),
        };
        proof {
            reveal_strlit("");
            let next = all.take(i + 1);
            assert(next.drop_last() =~= all.take(i as int));
            assert(next.last() == all[i as int]);
            assert(pair@ == all[i as int]);
            assert(""@ =~= Seq::<char>::empty());
            assert(key_value(next.last()) == (key@, val@));
        }
        if key.unicode_len() == 1 {
            let c = key.get_char(0);
            assert(key@ =~= seq![c]);
            proof {
                lemma_one_key(c);
            }
            if c == 'v' {
                version = parse_u32(val);
            } else if c == 's' {
                seq = match parse_u64(val) {
                    Some(n) => n,
                    None => 0,
                };
            } else if c == 'p' {
                playhead_ms = match parse_i64(val) {
                    Some(n) => n,
                    None => 0,
                };
            } else if c == 't' {
                wall_ms = match parse_i64(val) {
                    Some(n) => n,
                    None => 0,
                };
            } else if c == 'k' {
                kind = percent_decode(val);
            } else if c == 'i' {
                item_id = percent_decode(val);
            } else if c == 'd' {
                d = Some(val);
            }
        }
        i += 1;
    }
    assert(all.take(i as int) =~= all);

    match version {
        Some(n) => if n != PAYLOAD_VERSION {
            return None;
        },
        None => {
            return None;
        },
    }
    let document: Option<Vec<u8>> = match d {
        Some(v) => base64url_decode(v),
        None => None,
    };
    Some((StreamUrl { seq, playhead_ms, wall_ms, kind, item_id, payload: None }, document))
}

/// One-character keys differ where their characters do.
proof fn lemma_one_key(c: char)
    ensures
        forall|k: char| #![trigger seq![k]] seq![c] == seq![k] <==> c == k,
{
    assert forall|k: char| #![trigger seq![k]] seq![c] == seq![k] <==> c == k by {
        assert(seq![c][0] == c);
        assert(seq![k][0] == k);
    }
}

/// Split a raw block into its title and (optional) stream URL, with `parsed` as
/// what its document was read as.
pub fn parse_block(raw: &str, parsed: Option<Payload>) -> (r: Option<Block>)
    ensures
        match r {
            Some(b) => block_says(raw@, parsed) == Some(b@),
            None => block_says(raw@, parsed) is None,
        },
{
    proof {
        lemma_schedule_joins(raw@, parsed);
    }
    match open_block(raw) {
        Some((b, Some(_))) => Some(b.scheduled(parsed)),
        Some((b, None)) => Some(b),
        None => None,
    }
}

/// Split a raw block into its title and (optional) stream URL, but for its
/// schedule: that is to be read from the document, which comes along where
/// there is one.
pub fn open_block(raw: &str) -> (r: Option<(Block, Option<Vec<u8>>)>)
    ensures
        match r {
            Some((b, document)) => {
                &&& block_says(raw@, None) == Some(b@)
                &&& block_document(raw@) == bytes_say(document)
            },
            None => block_says(raw@, None) is None && block_document(raw@) is None,
        },
{
    let at: usize = match text::position(raw, TITLE_TAG) {
        Some(i) => i,
        None => {
            return None;
        },
    };
    let rest: &str = text::after(raw, at + TITLE_TAG.unicode_len());
    let (title, opened) = match text::position(rest, URL_TAG) {
        Some(j) => {
            let tail: &str = text::after(rest, j + URL_TAG.unicode_len());
            let field: &str = text::until(tail, TERM);
            (text::part(rest, 0, j), open_url(field))
        },
        None => (text::until(rest, TERM), None),
    };
    let (url, document): (Option<StreamUrl>, Option<Vec<u8>>) = match opened {
        Some((u, document)) => (Some(u), document),
        None => (None, None),
    };
    let title: &str = text::trim(title);
    if title.unicode_len() == 0 && url.is_none() {
        return None;
    }
    Some((Block { title: title.to_owned(), url }, document))
}

} // verus!
