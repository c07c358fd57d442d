//! The engine: what the controls of the receiver ask for, and the session that
//! plays a stream and reconnects until it is told to stop.

use crate::fault::{DecodeOutcome, Fault};
use vstd::prelude::*;

verus! {

/// A command to the thread that plays.
pub enum Cmd {
    Play(String),
    Stop,
}

/// What the thread that plays does about a command.
pub enum Work {
    /// Show that nothing is playing.
    Standby,
    /// Play a stream until the session's flag is raised.
    Run(String),
}

/// The engine's front. `C` holds the audio controls, `F` is the flag that ends
/// a session once it is raised.
pub struct Engine<C, F> {
    controls: C,
    session: Option<F>,
    /// A pending request for a seamless switch. A slot rather than a command:
    /// the thread that plays reads no commands while a session runs.
    switch_to: Option<String>,
}

/// What an [`Engine`] holds.
pub ghost struct EngineView<C, F> {
    pub controls: C,
    pub session: Option<F>,
    pub switch_to: Option<String>,
}

impl<C, F> View for Engine<C, F> {
    type V = EngineView<C, F>;

    closed spec fn view(&self) -> EngineView<C, F> {
        EngineView {
            controls: self.controls,
            session: self.session,
            switch_to: self.switch_to,
        }
    }
}

impl<C, F> Engine<C, F> {
    /// An engine at rest.
    pub fn new(controls: C) -> (e: Engine<C, F>)
        ensures
            e@ == (EngineView::<C, F> { controls, session: None, switch_to: None }),
    {
        Engine { controls, session: None, switch_to: None }
    }

    pub fn controls(&self) -> (c: &C)
        ensures
            *c == self@.controls,
    {
        &self.controls
    }

    /// Forget the running session. Its flag is handed out, to be raised.
    fn cancel_current(&mut self) -> (flag: Option<F>)
        ensures
            flag == old(self)@.session,
            final(self)@ == (EngineView { session: None, ..old(self)@ }),
    {
        let mut flag: Option<F> = None;
        core::mem::swap(&mut flag, &mut self.session);
        flag
    }

    /// Play a stream. A fresh session names its own stream, so an older switch
    /// request does not override it. Returns the flag of the session that this
    /// ends, to be raised, and the command to send.
    pub fn play(&mut self, url: String) -> (r: (Option<F>, Cmd))
        ensures
            final(self)@ == (EngineView { session: None, switch_to: None, ..old(self)@ }),
            r == (old(self)@.session, Cmd::Play(url)),
    {
        self.switch_to = None;
        let flag = self.cancel_current();
        (flag, Cmd::Play(url))
    }

    /// Stop playing. Returns the flag of the session that this ends, to be
    /// raised, and the command to send.
    pub fn stop(&mut self) -> (r: (Option<F>, Cmd))
        ensures
            final(self)@ == (EngineView { session: None, switch_to: None, ..old(self)@ }),
            r == (old(self)@.session, Cmd::Stop),
    {
        self.switch_to = None;
        let flag = self.cancel_current();
        (flag, Cmd::Stop)
    }

    /// Move the running session to another stream without a gap. Nothing
    /// happens while no session runs.
    pub fn switch(&mut self, url: String)
        ensures
            final(self)@ == (if old(self)@.session is Some {
                EngineView { switch_to: Some(url), ..old(self)@ }
            } else {
                old(self)@
            }),
    {
        if self.session.is_some() {
            self.switch_to = Some(url);
        }
    }

    /// Take the pending switch request.
    pub fn take_switch(&mut self) -> (url: Option<String>)
        ensures
            url == old(self)@.switch_to,
            final(self)@ == (EngineView { switch_to: None, ..old(self)@ }),
    {
        let mut url: Option<String> = None;
        core::mem::swap(&mut url, &mut self.switch_to);
        url
    }

    /// The thread that plays has received a command. `flag` is a fresh one,
    /// for the session that may begin.
    pub fn on_cmd(&mut self, cmd: Cmd, flag: F) -> (w: Work)
        ensures
            match cmd {
                Cmd::Stop => w == Work::Standby && final(self)@ == old(self)@,
                Cmd::Play(url) => {
                    &&& w == Work::Run(url)
                    &&& final(self)@ == (EngineView { session: Some(flag), ..old(self)@ })
                },
            },
    {
        match cmd {
            Cmd::Stop => Work::Standby,
            Cmd::Play(url) => {
                self.session = Some(flag);
                Work::Run(url)
            },
        }
    }
}

// ---------------------------------------------------------------------------
// Sessions
// ---------------------------------------------------------------------------

/// The first wait before a reconnect.
pub const BACKOFF_MIN_MS: u64 = 500;

/// The longest wait before a reconnect.
pub const BACKOFF_MAX_MS: u64 = 8_000;

/// The wait is slept through in steps of this length, so that a stop is
/// noticed.
pub const BACKOFF_STEP_MS: u64 = 50;

/// The fault of an audio device that could not be opened.
pub fn device_fault(detail: &str) -> (f: Fault)
    ensures
        f.code@ == "device"@,
        f.message@ == "Audio device error: "@ + detail@,
{
    let mut message = "Audio device error: ".to_owned();
    message.append(detail);
    Fault { code: "device", message }
}

/// A session: one stream after the other, with reconnects.
pub struct Session {
    url: String,
    backoff_ms: u64,
}

/// What a [`Session`] knows.
pub ghost struct SessionView {
    pub url: Seq<char>,
    pub backoff_ms: int,
}

/// The wait that follows a wait of `ms`.
pub open spec fn doubled(ms: int) -> int {
    if ms * 2 > BACKOFF_MAX_MS {
        BACKOFF_MAX_MS as int
    } else {
        ms * 2
    }
}

impl SessionView {
    pub open spec fn wf(self) -> bool {
        BACKOFF_MIN_MS <= self.backoff_ms <= BACKOFF_MAX_MS
    }

    /// An attempt came to its end. Only a failure leaves the wait grown.
    pub open spec fn concluded(self, o: DecodeOutcome) -> SessionView {
        match o {
            DecodeOutcome::Failed(_) => self,
            _ => SessionView { backoff_ms: BACKOFF_MIN_MS as int, ..self },
        }
    }

    /// The wait is over.
    pub open spec fn waited(self) -> SessionView {
        SessionView { backoff_ms: doubled(self.backoff_ms), ..self }
    }
}

impl View for Session {
    type V = SessionView;

    closed spec fn view(&self) -> SessionView {
        SessionView { url: self.url@, backoff_ms: self.backoff_ms as int }
    }
}

/// What follows an attempt.
pub struct Aftermath {
    /// What to show, next to `tuning`.
    pub notice: Option<&'static str>,
    /// What to report.
    pub fault: Option<Fault>,
    /// Whether to wait before the next attempt.
    pub wait: bool,
}

impl Session {
    pub fn new(url: String) -> (s: Session)
        ensures
            s@ == (SessionView { url: url@, backoff_ms: BACKOFF_MIN_MS as int }),
            s@.wf(),
    {
        Session { url, backoff_ms: BACKOFF_MIN_MS }
    }

    pub fn url(&self) -> (u: &str)
        ensures
            u@ == self@.url,
    {
        self.url.as_str()
    }

    /// The session now plays another stream.
    pub fn retune(&mut self, url: String)
        ensures
            final(self)@ == (SessionView { url: url@, ..old(self)@ }),
    {
        self.url = url;
    }

    /// An attempt begins. A switch asked for between attempts is simply where
    /// the session retunes to. Returns what to show, next to `tuning`.
    pub fn begin_attempt(&mut self, switch_to: Option<String>) -> (notice: &'static str)
        ensures
            notice@ == "acquiring…"@,
            final(self)@ == (match switch_to {
                Some(url) => SessionView { url: url@, ..old(self)@ },
                None => old(self)@,
            }),
    {
        if let Some(url) = switch_to {
            self.url = url;
        }
        "acquiring…"
    }

    /// An attempt came to its end. A resync is one that we chose, not a stream
    /// that broke: no fault, and no growth of the wait. A retune goes straight
    /// to the new stream.
    pub fn end_attempt(&mut self, outcome: DecodeOutcome) -> (a: Aftermath)
        ensures
            final(self)@ == old(self)@.concluded(outcome),
            old(self)@.wf() ==> final(self)@.wf(),
            match outcome {
                DecodeOutcome::Ended => a.notice is None && a.fault is None && a.wait,
                DecodeOutcome::Resync => {
                    &&& a.notice is Some && a.notice->0@ == "re-syncing…"@
                    &&& a.fault is None && a.wait
                },
                DecodeOutcome::Retune => a.notice is None && a.fault is None && !a.wait,
                DecodeOutcome::Failed(f) => {
                    &&& a.notice is Some && a.notice->0@ == "reconnecting…"@
                    &&& a.fault == Some(f) && a.wait
                },
            },
    {
        match outcome {
            DecodeOutcome::Ended => {
                self.backoff_ms = BACKOFF_MIN_MS;
                Aftermath { notice: None, fault: None, wait: true }
            },
            DecodeOutcome::Resync => {
                self.backoff_ms = BACKOFF_MIN_MS;
                Aftermath { notice: Some("re-syncing…"), fault: None, wait: true }
            },
            DecodeOutcome::Retune => {
                self.backoff_ms = BACKOFF_MIN_MS;
                Aftermath { notice: None, fault: None, wait: false }
            },
            DecodeOutcome::Failed(f) => Aftermath {
                notice: Some("reconnecting…"),
                fault: Some(f),
                wait: true,
            },
        }
    }

    /// Whether to sleep another step, having slept for `slept` already.
    pub fn still_waiting(&self, slept: u64) -> (b: bool)
        ensures
            b == (slept < self@.backoff_ms),
    {
        slept < self.backoff_ms
    }

    /// The wait is over; the next one will be longer.
    pub fn after_wait(&mut self)
        requires
            old(self)@.wf(),
        ensures
            final(self)@ == old(self)@.waited(),
            final(self)@.wf(),
    {
        let twice: u64 = self.backoff_ms * 2;
        self.backoff_ms = if twice > BACKOFF_MAX_MS {
            BACKOFF_MAX_MS
        } else {
            twice
        };
    }
}

/// A session after an attempt and, where one follows, the wait.
pub open spec fn attempted(s: SessionView, o: DecodeOutcome) -> SessionView {
    if o is Retune {
        s.concluded(o)
    } else {
        s.concluded(o).waited()
    }
}

/// A session after a run of attempts.
pub open spec fn attempts(s: SessionView, run: Seq<DecodeOutcome>) -> SessionView
    decreases run.len(),
{
    if run.len() == 0 {
        s
    } else {
        attempted(attempts(s, run.drop_last()), run.last())
    }
}

/// However the attempts end, the wait stays within its bounds.
pub proof fn law_backoff_is_bounded(s: SessionView, run: Seq<DecodeOutcome>)
    requires
        s.wf(),
    ensures
        attempts(s, run).wf(),
    decreases run.len(),
{
    if run.len() > 0 {
        law_backoff_is_bounded(s, run.drop_last());
    }
}

/// The wait after `n` failures in a row, from the first one on: it doubles
/// until it has reached its bound.
pub open spec fn backoff_after(n: nat) -> int
    decreases n,
{
    if n == 0 {
        BACKOFF_MIN_MS as int
    } else {
        doubled(backoff_after((n - 1) as nat))
    }
}

/// A run of failures makes the wait double each time, up to its bound.
pub proof fn law_failures_double_the_backoff(s: SessionView, run: Seq<DecodeOutcome>)
    requires
        s.backoff_ms == BACKOFF_MIN_MS,
        forall|i: int| 0 <= i < run.len() ==> (#[trigger] run[i]) is Failed,
    ensures
        attempts(s, run).backoff_ms == backoff_after(run.len()),
    decreases run.len(),
{
    if run.len() > 0 {
        let rest = run.drop_last();
        assert forall|i: int| 0 <= i < rest.len() implies (#[trigger] rest[i]) is Failed by {
            assert(rest[i] == run[i]);
        }
        assert(run.last() is Failed);
        law_failures_double_the_backoff(s, rest);
    }
}

/// After four failures the wait has reached its bound, and stays there.
pub proof fn law_backoff_reaches_its_bound(n: nat)
    ensures
        n >= 4 ==> backoff_after(n) == BACKOFF_MAX_MS,
    decreases n,
{
    if n > 4 {
        law_backoff_reaches_its_bound((n - 1) as nat);
    } else {
        reveal_with_fuel(backoff_after, 5);
    }
}

/// An attempt that did not fail makes the next wait a short one, whatever went
/// before.
pub proof fn law_success_resets_the_backoff(s: SessionView, o: DecodeOutcome)
    requires
        !(o is Failed),
    ensures
        s.concluded(o).backoff_ms == BACKOFF_MIN_MS,
{
}

} // verus!
