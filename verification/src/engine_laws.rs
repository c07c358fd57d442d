//! Laws of the engine and its sessions: what the controls ask for, and how
//! long a session waits.

use crate::engine;
use crate::engine::{
    device_fault, Aftermath, Cmd, Engine, Session, Work, BACKOFF_MAX_MS, BACKOFF_MIN_MS,
    BACKOFF_STEP_MS,
};
use crate::fault::{DecodeOutcome, Fault};
use vstd::arithmetic::power2::*;
use vstd::prelude::*;

verus! {

// ---------------------------------------------------------------------------
// The engine
// ---------------------------------------------------------------------------

/// An engine begins idle.
pub proof fn law_engines_begin_idle<C, F>(controls: C, e: Engine<C, F>, held: &C, q: Engine<C, F>)
    requires
        call_ensures(Engine::<C, F>::new, (controls,), e),
        call_ensures(Engine::<C, F>::controls, (&q,), held),
    ensures
        e@.controls == controls,
        e@.session is None,
        e@.switch_to is None,
        *held == q@.controls,
{
}

/// To play and to stop both end the session that is running, and forget the
/// switch that was asked of it.
pub proof fn law_playing_and_stopping_cancel<C, F>(
    e: &mut Engine<C, F>,
    url: String,
    r: (Option<F>, Cmd),
    g: &mut Engine<C, F>,
    t: (Option<F>, Cmd),
)
    requires
        call_ensures(Engine::<C, F>::play, (e, url), r),
        call_ensures(Engine::<C, F>::stop, (g,), t),
    ensures
        r.0 == old(e)@.session,
        r.1 is Play && r.1->0@ == url@,
        final(e)@.session is None,
        final(e)@.switch_to is None,
        final(e)@.controls == old(e)@.controls,
        t.0 == old(g)@.session,
        t.1 is Stop,
        final(g)@.session is None,
        final(g)@.switch_to is None,
        final(g)@.controls == old(g)@.controls,
{
}

/// A switch is asked of the session that is running, the last one asked for
/// counts, and it is taken up once. Without a session there is none.
pub proof fn law_switches_are_asked_of_the_session<C, F>(
    e: &mut Engine<C, F>,
    url: String,
    g: &mut Engine<C, F>,
    taken: Option<String>,
)
    requires
        call_ensures(Engine::<C, F>::switch, (e, url), ()),
        call_ensures(Engine::<C, F>::take_switch, (g,), taken),
    ensures
        old(e)@.session is Some ==> final(e)@.switch_to == Some(url),
        old(e)@.session is None ==> final(e)@.switch_to == old(e)@.switch_to,
        final(e)@.session == old(e)@.session,
        final(e)@.controls == old(e)@.controls,
        taken == old(g)@.switch_to,
        final(g)@.switch_to is None,
        final(g)@.session == old(g)@.session,
        final(g)@.controls == old(g)@.controls,
{
}

/// To play runs a session, which can be cancelled by its flag; to stop runs
/// none.
pub proof fn law_commands_are_carried_out<C, F>(e: &mut Engine<C, F>, cmd: Cmd, flag: F, w: Work)
    requires
        call_ensures(Engine::<C, F>::on_cmd, (e, cmd, flag), w),
    ensures
        cmd is Stop ==> w is Standby && final(e)@ == old(e)@,
        cmd matches Cmd::Play(url) ==> {
            &&& w is Run
            &&& w->0@ == url@
            &&& final(e)@.session == Some(flag)
            &&& final(e)@.switch_to == old(e)@.switch_to
            &&& final(e)@.controls == old(e)@.controls
        },
{
}

// ---------------------------------------------------------------------------
// Sessions
// ---------------------------------------------------------------------------

/// The device's failure is told with its own words.
pub proof fn law_device_faults(detail: &str, f: Fault)
    requires
        call_ensures(device_fault, (detail,), f),
    ensures
        f.code@ == "device"@,
        f.message@ == "Audio device error: "@ + detail@,
{
}

/// A session begins with its stream and the shortest wait, half a second; the
/// longest is eight.
pub proof fn law_sessions_begin_patient(url: String, s: Session, q: Session, told: &str)
    requires
        call_ensures(Session::new, (url,), s),
        call_ensures(Session::url, (&q,), told),
    ensures
        BACKOFF_MIN_MS == 500,
        BACKOFF_MAX_MS == 8_000,
        BACKOFF_STEP_MS == 50,
        s@.url == url@,
        s@.backoff_ms == 500,
        told@ == q@.url,
{
}

/// A session plays the stream that it was tuned to last.
pub proof fn law_sessions_are_tuned(
    s: &mut Session,
    url: String,
    q: &mut Session,
    switch_to: Option<String>,
    notice: &'static str,
)
    requires
        call_ensures(Session::retune, (s, url), ()),
        call_ensures(Session::begin_attempt, (q, switch_to), notice),
    ensures
        final(s)@.url == url@,
        final(s)@.backoff_ms == old(s)@.backoff_ms,
        notice@ == "acquiring…"@,
        switch_to is None ==> final(q)@ == old(q)@,
        switch_to matches Some(next) ==> final(q)@.url == next@,
        final(q)@.backoff_ms == old(q)@.backoff_ms,
{
}

/// An attempt that fails tells its fault and leaves the wait as it is; any
/// other end makes the wait the shortest again. Only a retune does not wait.
pub proof fn law_what_follows_an_attempt(s: &mut Session, outcome: DecodeOutcome, a: Aftermath)
    requires
        call_ensures(Session::end_attempt, (s, outcome), a),
    ensures
        final(s)@.url == old(s)@.url,
        outcome is Failed ==> final(s)@.backoff_ms == old(s)@.backoff_ms,
        !(outcome is Failed) ==> final(s)@.backoff_ms == 500,
        a.wait <==> !(outcome is Retune),
        a.fault is Some <==> outcome is Failed,
        outcome matches DecodeOutcome::Failed(f) ==> a.fault == Some(f),
        a.notice is Some <==> outcome is Failed || outcome is Resync,
        outcome is Failed ==> a.notice->0@ == "reconnecting…"@,
        outcome is Resync ==> a.notice->0@ == "re-syncing…"@,
{
}

/// A session waits as long as its wait is, and each wait is twice the one
/// before, up to eight seconds.
pub proof fn law_waits_double(q: Session, slept: u64, waiting: bool, s: &mut Session)
    requires
        call_ensures(Session::still_waiting, (&q, slept), waiting),
        call_ensures(Session::after_wait, (s,), ()),
    ensures
        waiting <==> slept < q@.backoff_ms,
        final(s)@.url == old(s)@.url,
        old(s)@.backoff_ms <= 4_000 ==> final(s)@.backoff_ms == 2 * old(s)@.backoff_ms,
        old(s)@.backoff_ms > 4_000 ==> final(s)@.backoff_ms == 8_000,
{
}

/// After so many failures in a row the wait is half a second doubled as often,
/// or eight seconds where that is less.
pub proof fn law_the_wait_after_failures(s: engine::SessionView, run: Seq<DecodeOutcome>)
    requires
        s.backoff_ms == 500,
        forall|i: int| 0 <= i < run.len() ==> (#[trigger] run[i]) is Failed,
    ensures
        run.len() < 4 ==> engine::attempts(s, run).backoff_ms == 500 * pow2(run.len()),
        run.len() >= 4 ==> engine::attempts(s, run).backoff_ms == 8_000,
    decreases run.len(),
{
    lemma2_to64();
    if run.len() > 0 {
        let rest = run.drop_last();
        assert forall|i: int| 0 <= i < rest.len() implies (#[trigger] rest[i]) is Failed by {
            assert(rest[i] == run[i]);
        }
        assert(run.last() is Failed);
        law_the_wait_after_failures(s, rest);
        lemma_pow2_unfold(run.len());
    }
}

} // verus!
