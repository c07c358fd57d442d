//! Laws of faults: what a listener is told of a failure.

use crate::fault::{
    decode_fault, ended, fault_of, probe_fault, DeckEnd, DecodeOutcome, Fault, ProbeFailure,
};
use crate::stream::NetError;
use vstd::prelude::*;

verus! {

/// Whether a fault says that a stream cannot be made out, and why.
pub open spec fn not_decodable(f: Fault, detail: Seq<char>) -> bool {
    f.code@ == "decode"@ && f.message@ == "Stream is not decodable"@ + " ("@ + detail + ")"@
}

/// The network's failure is a fault as it is.
pub proof fn law_network_failures_are_faults(e: NetError, f: Fault)
    requires
        call_ensures(<Fault as From<NetError>>::from, (e,), f),
    ensures
        f.code@ == e.code@,
        f.message@ == e.message@,
{
}

/// How an attempt comes out is how its deck ended.
pub proof fn law_ends_are_outcomes(
    end: DeckEnd,
    r: (DeckEnd, DecodeOutcome),
    o: DecodeOutcome,
)
    requires
        call_ensures(DeckEnd::split, (end,), r),
        call_ensures(DeckEnd::into_outcome, (end,), o),
    ensures
        r.0 == end,
        r.1 == o,
        end is Ended ==> o is Ended,
        end matches DeckEnd::Failed(f) ==> o == DecodeOutcome::Failed(f),
{
}

/// A clean end counts as a drop; a failure is the fault that it was.
pub proof fn law_clean_ends_are_drops(end: DeckEnd, clean: &str, f: Fault)
    requires
        call_ensures(fault_of, (end, clean), f),
    ensures
        end matches DeckEnd::Failed(e) ==> f == e,
        end is Ended ==> f.code@ == "dropped"@ && f.message@ == clean@,
{
}

/// Where the network has failed, that is the reason, whatever followed from
/// it; otherwise the data is to blame.
pub proof fn law_the_network_is_blamed_first(
    net: Option<Fault>,
    detail: &str,
    e: DeckEnd,
    f: Fault,
)
    requires
        call_ensures(ended, (net,), e),
        call_ensures(decode_fault, (net, detail), f),
    ensures
        net is None ==> e is Ended,
        net matches Some(n) ==> e == DeckEnd::Failed(n) && f == n,
        net is None ==> not_decodable(f, detail@),
{
}

/// A stream that cannot be opened is told by what it lacks.
pub proof fn law_probes_tell_what_is_missing(net: Option<Fault>, why: ProbeFailure, f: Fault)
    requires
        call_ensures(probe_fault, (net, why), f),
    ensures
        why matches ProbeFailure::Unreadable(detail) ==> {
            &&& net is Some ==> f == net->0
            &&& net is None ==> not_decodable(f, detail@)
        },
        why is NoTrack ==> f.code@ == "decode"@ && f.message@ == "Stream carries no audio track"@,
        why matches ProbeFailure::Codec(detail) ==> f.code@ == "decode"@ && f.message@
            == "Unsupported codec"@ + " ("@ + detail@ + ")"@,
{
}

} // verus!
