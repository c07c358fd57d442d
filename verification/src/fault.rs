//! Failures, and how a deck or an attempt comes to its end.

use crate::stream::NetError;
use vstd::prelude::*;

verus! {

/// A failure, classified for the display. `code` picks the short indicator
/// text, `message` is the full story.
#[derive(Debug, Clone)]
pub struct Fault {
    pub code: &'static str,
    pub message: String,
}

impl From<NetError> for Fault {
    fn from(e: NetError) -> (f: Fault) {
        Fault { code: e.code, message: e.message }
    }
}

impl vstd::std_specs::convert::FromSpecImpl<NetError> for Fault {
    open spec fn obeys_from_spec() -> bool {
        true
    }

    open spec fn from_spec(e: NetError) -> Fault {
        Fault { code: e.code, message: e.message }
    }
}

/// How a deck came to its end.
pub enum DeckEnd {
    /// A clean end of the stream.
    Ended,
    Failed(Fault),
}

/// How an attempt to play a stream came to its end.
pub enum DecodeOutcome {
    Ended,
    /// Drift could not be trimmed away; reconnect deliberately.
    Resync,
    /// The session's stream has changed and must be connected the hard way.
    Retune,
    Failed(Fault),
}

impl DeckEnd {
    /// The end of the deck is the end of the attempt.
    pub open spec fn outcome(self) -> DecodeOutcome {
        match self {
            DeckEnd::Ended => DecodeOutcome::Ended,
            DeckEnd::Failed(f) => DecodeOutcome::Failed(f),
        }
    }

    /// The outcome of an attempt that ends like this, with the end kept.
    pub fn split(self) -> (r: (DeckEnd, DecodeOutcome))
        ensures
            r == (self, self.outcome()),
    {
        match self {
            DeckEnd::Ended => (DeckEnd::Ended, DecodeOutcome::Ended),
            DeckEnd::Failed(f) => {
                let copy = Fault { code: f.code, message: f.message.clone() };
                (DeckEnd::Failed(copy), DecodeOutcome::Failed(f))
            },
        }
    }

    pub fn into_outcome(self) -> (o: DecodeOutcome)
        ensures
            o == self.outcome(),
    {
        match self {
            DeckEnd::Ended => DecodeOutcome::Ended,
            DeckEnd::Failed(f) => DecodeOutcome::Failed(f),
        }
    }
}

/// A fault with this code and message.
pub open spec fn saying(f: Fault, code: Seq<char>, message: Seq<char>) -> bool {
    f.code@ == code && f.message@ == message
}

/// `"{head} ({detail})"`.
pub open spec fn with_detail(head: Seq<char>, detail: Seq<char>) -> Seq<char> {
    head + " ("@ + detail + ")"@
}

/// A message with its detail.
fn detailed(head: &str, detail: &str) -> (s: String)
    ensures
        s@ == with_detail(head@, detail@),
{
    let mut s = head.to_owned();
    s.append(" (");
    s.append(detail);
    s.append(")");
    s
}

/// The fault behind the end of a deck. A clean end is a fault too, for a
/// stream that was needed.
pub fn fault_of(end: DeckEnd, clean_eof: &str) -> (f: Fault)
    ensures
        match end {
            DeckEnd::Failed(e) => f == e,
            DeckEnd::Ended => saying(f, "dropped"@, clean_eof@),
        },
{
    match end {
        DeckEnd::Failed(f) => f,
        DeckEnd::Ended => Fault { code: "dropped", message: clean_eof.to_owned() },
    }
}

/// The end of the pipe. With a recorded network error it is a broken
/// connection, not a clean end.
pub fn ended(net: Option<Fault>) -> (e: DeckEnd)
    ensures
        e == (match net {
            Some(f) => DeckEnd::Failed(f),
            None => DeckEnd::Ended,
        }),
{
    match net {
        Some(f) => DeckEnd::Failed(f),
        None => DeckEnd::Ended,
    }
}

/// Whether `f` is what to report of undecodable data: the network error where
/// there is one, or else the detail.
pub open spec fn undecodable(f: Fault, net: Option<Fault>, detail: Seq<char>) -> bool {
    match net {
        Some(e) => f == e,
        None => saying(f, "decode"@, with_detail("Stream is not decodable"@, detail)),
    }
}

/// Data that could not be decoded.
pub fn decode_fault(net: Option<Fault>, detail: &str) -> (f: Fault)
    ensures
        undecodable(f, net, detail@),
{
    match net {
        Some(f) => f,
        None => Fault { code: "decode", message: detailed("Stream is not decodable", detail) },
    }
}

/// Why a stream could not be opened.
pub enum ProbeFailure {
    /// Its format was not recognised.
    Unreadable(String),
    /// It has no audio.
    NoTrack,
    /// Its codec is not supported.
    Codec(String),
}

/// The fault to report of a stream that could not be opened. An end of stream
/// during the probe almost always means that the connection itself failed, so
/// a recorded network error is reported in its place.
pub fn probe_fault(net: Option<Fault>, why: ProbeFailure) -> (f: Fault)
    ensures
        match why {
            ProbeFailure::Unreadable(detail) => undecodable(f, net, detail@),
            ProbeFailure::NoTrack => saying(f, "decode"@, "Stream carries no audio track"@),
            ProbeFailure::Codec(detail) => saying(
                f,
                "decode"@,
                with_detail("Unsupported codec"@, detail@),
            ),
        },
{
    match why {
        ProbeFailure::Unreadable(detail) => decode_fault(net, detail.as_str()),
        ProbeFailure::NoTrack => Fault {
            code: "decode",
            message: "Stream carries no audio track".to_owned(),
        },
        ProbeFailure::Codec(detail) => Fault {
            code: "decode",
            message: detailed("Unsupported codec", detail.as_str()),
        },
    }
}

} // verus!
