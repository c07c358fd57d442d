//! One attempt to play a stream, from the first chunk to its end.
//!
//! The attempt goes in turns: a chunk is decoded and taken from the playing
//! deck, a switch under way is taken one round further, the chunk goes to the
//! output, the metadata that has come due is published, and the drift is
//! looked after. [`Attempt::proceed`] tells what has to be done next; whoever
//! does it reports back, and asks again.

use crate::deck;
use crate::deck::{Deck, Frames, Packet, Pull, CHUNK};
use crate::events;
use crate::events::{BlockEvents, SyncPayload};
use crate::fault;
use crate::fault::{fault_of, DeckEnd, DecodeOutcome, Fault};
use crate::icy;
use crate::icy::Block;
use crate::playback;
use crate::playback::{succeed, Control, Playback, Request, Succession};
use crate::stream;
use crate::stream::{BytePipe, StationInfo};
use crate::switch;
use crate::switch::{Faded, Heard, Heeded, Incoming, Linked, Primed, Search, Side, Switch};
use vstd::prelude::*;

verus! {

/// Where in a turn an attempt stands.
#[derive(Debug, Clone, Copy, PartialEq, Eq, Structural)]
pub enum At {
    /// Between two turns.
    Turn,
    /// The next chunk is being decoded.
    Fill,
    /// The chunk is taken, and the switch goes on.
    Round,
    /// The decks of the switch are decoded ahead.
    Prime,
    /// The decks of the switch are positioned.
    Position,
    /// The incoming deck's part of the chunk is being decoded.
    Fade,
    /// The fade is complete.
    Swap,
    /// The chunk is ready for the output.
    Ready,
    /// The chunk has gone to the output.
    Aired,
}

/// What has to be done next.
pub enum Todo<S> {
    /// Nothing outside; ask again.
    Nothing,
    /// Begin a turn, with a switch request if there is one.
    Start,
    /// Pull and decode a packet of one of the decks.
    Pull(Side),
    /// Tell how the incoming connection stands.
    Link,
    /// Open the incoming stream.
    Probe,
    /// Estimate which frame of the incoming deck is playing.
    Estimate,
    /// Begin a search, off the audio thread.
    Search(Search),
    /// Tell what has been heard of the search.
    Listen,
    /// Mix a chunk of the incoming deck into the chunk.
    Mix(Faded<S>),
    /// The incoming deck is the playing one now: swap the connections too.
    SwapIn { fine: bool },
    /// The switch was abandoned: close its connection.
    Failed(Fault),
    /// End the attempt, and tune to another stream.
    Retune(String),
    /// Send the chunk to the output.
    Output,
    /// Publish the block that is next.
    Publish,
    /// Let the controller look after the drift.
    Control,
    /// End the attempt.
    End(DecodeOutcome),
}

/// How a turn begins.
pub enum Started {
    Go,
    /// Open another stream alongside, then go on.
    Open(String),
    /// End the attempt, and tune to another stream.
    Retune(String),
}

/// What an attempt cannot know by itself: the bytes that wait in the pipes of
/// the two decks, and the time.
#[derive(Debug, Clone, Copy)]
pub struct Scene {
    pub held_playing: usize,
    pub held_incoming: usize,
    pub now: u64,
}

/// What follows a chunk, once its metadata is published.
pub struct Settled {
    /// What the controller had done.
    pub control: Control,
    /// The lag readout, if it was due.
    pub readout: Option<SyncPayload>,
}

/// One attempt to play a stream.
pub struct Attempt<S> {
    play: Playback,
    active: Deck<S>,
    at: At,
    switch: Option<Switch<S>>,
    chunk: Vec<S>,
    /// How the deck before this one ended, if it has just taken over.
    ended: Option<DeckEnd>,
    /// Blocks whose audio has reached the speakers, oldest first.
    pending: Vec<Block>,
    /// Bytes between what is being played and the live edge.
    depth: u64,
}

/// What an [`Attempt`] knows.
pub ghost struct AttemptView<S> {
    pub play: playback::PlayView,
    pub active: deck::DeckView<S>,
    pub at: At,
    pub switch: Option<switch::SwitchView<S>>,
    pub chunk: Seq<S>,
    pub ended: Option<DeckEnd>,
    pub pending: Seq<icy::BlockView>,
    pub depth: int,
}

/// What blocks say.
pub open spec fn blocks_say(blocks: Seq<Block>) -> Seq<icy::BlockView> {
    Seq::new(blocks.len(), |i: int| blocks[i]@)
}

/// The newest of some blocks, if there is any.
pub open spec fn newest(blocks: Seq<icy::BlockView>) -> Seq<icy::BlockView> {
    if blocks.len() == 0 {
        blocks
    } else {
        seq![blocks.last()]
    }
}

impl<S> View for Attempt<S> {
    type V = AttemptView<S>;

    closed spec fn view(&self) -> AttemptView<S> {
        AttemptView {
            play: self.play@,
            active: self.active@,
            at: self.at,
            switch: match self.switch {
                Some(s) => Some(s@),
                None => None,
            },
            chunk: self.chunk@,
            ended: self.ended,
            pending: blocks_say(self.pending@),
            depth: self.depth as int,
        }
    }
}

/// What becomes of a deck that is needed for a switch and has ended.
pub open spec fn switch_fault(f: Fault, end: DeckEnd) -> bool {
    match end {
        DeckEnd::Failed(e) => f == e,
        DeckEnd::Ended => fault::saying(f, "dropped"@, "Incoming stream ended"@),
    }
}

impl<S> AttemptView<S> {
    /// What every step keeps.
    pub open spec fn wf(self) -> bool {
        &&& self.play.wf()
        &&& self.active.wf()
        &&& self.switch is Some ==> self.switch->0.wf()
        &&& match self.at {
            At::Turn | At::Fill | At::Ready | At::Aired => true,
            At::Round => self.switch is Some,
            At::Prime => self.switch is Some && self.switch->0.inc is Priming,
            At::Position => self.switch is Some && self.switch->0.inc is Positioning,
            At::Fade | At::Swap => self.switch is Some && self.switch->0.inc is Fading,
        }
        // From when it is taken, the chunk is a whole one.
        &&& !(self.at is Turn) && !(self.at is Fill) ==> self.chunk.len() == 2 * CHUNK
    }

    /// Whether the counters can hold the next step.
    pub open spec fn holds_step(self) -> bool {
        self.pending.len() == 0 ==> {
            &&& self.at is Prime ==> self.switch->0.holds_round(self.active)
            &&& self.at is Fade ==> self.switch->0.inc->done + CHUNK <= usize::MAX
        }
    }

    /// One of the decks.
    pub open spec fn deck_of(self, side: Side) -> deck::DeckView<S> {
        match side {
            Side::Playing => self.active,
            Side::Incoming => self.switch->0.deck->0,
        }
    }

    /// The attempt with another state of one of its decks.
    pub open spec fn with_deck(self, side: Side, d: deck::DeckView<S>) -> AttemptView<S> {
        match side {
            Side::Playing => AttemptView { active: d, ..self },
            Side::Incoming => AttemptView {
                switch: Some(switch::SwitchView { deck: Some(d), ..self.switch->0 }),
                ..self
            },
        }
    }

    /// The switch is over and done with, one way or the other.
    pub open spec fn abandoned(self) -> AttemptView<S> {
        AttemptView { switch: None, at: At::Ready, ..self }
    }

    /// The next step makes `after` of the attempt, and asks for `todo`. What
    /// has been heard is published before anything else.
    pub open spec fn proceeds(
        self,
        scene: Scene,
        after: AttemptView<S>,
        todo: Todo<S>,
    ) -> bool {
        if self.pending.len() > 0 {
            todo == Todo::<S>::Publish && after == self
        } else {
            self.steps(scene, after, todo)
        }
    }

    /// The next step, with nothing to be published.
    pub open spec fn steps(self, scene: Scene, after: AttemptView<S>, todo: Todo<S>) -> bool {
        match self.at {
            At::Turn => todo == Todo::<S>::Start && after == self,
            At::Fill => if self.active.available() < CHUNK {
                todo == Todo::<S>::Pull(Side::Playing) && after == self
            } else {
                &&& todo == Todo::<S>::Nothing
                &&& after == (AttemptView {
                    active: self.active.left(CHUNK as int),
                    chunk: self.active.fifo.take(2 * CHUNK),
                    ended: None,
                    at: if self.switch is Some {
                        At::Round
                    } else {
                        At::Ready
                    },
                    ..self
                })
            },
            At::Round => self.rounds(after, todo),
            At::Prime => self.primes(scene, after, todo),
            At::Position => match todo {
                Todo::Pull(side) => {
                    &&& self.switch->0.positions(
                        self.active,
                        after.switch->0,
                        after.active,
                        Some(side),
                    )
                    &&& after.switch is Some
                    &&& after == (AttemptView {
                        switch: after.switch,
                        active: after.active,
                        ..self
                    })
                },
                Todo::Nothing => {
                    &&& self.switch->0.positions(self.active, after.switch->0, after.active, None)
                    &&& after.switch is Some
                    &&& after == (AttemptView {
                        switch: after.switch,
                        active: after.active,
                        at: At::Ready,
                        ..self
                    })
                },
                _ => false,
            },
            At::Fade => match todo {
                Todo::Pull(side) => {
                    &&& side is Incoming
                    &&& self.switch->0.fades(CHUNK as int, after.switch->0, None)
                    &&& after == self
                },
                Todo::Mix(faded) => {
                    &&& self.switch->0.fades(CHUNK as int, after.switch->0, Some(faded))
                    &&& after.switch is Some
                    &&& after == (AttemptView {
                        switch: after.switch,
                        at: if faded.complete {
                            At::Swap
                        } else {
                            At::Ready
                        },
                        ..self
                    })
                },
                _ => false,
            },
            At::Swap => {
                &&& todo == (Todo::<S>::SwapIn { fine: self.switch->0.inc->Fading_fine })
                &&& after == (AttemptView {
                    active: self.switch->0.deck->0,
                    switch: None,
                    at: At::Ready,
                    ..self
                })
            },
            At::Ready => todo == Todo::<S>::Output && after == self,
            At::Aired => todo == Todo::<S>::Control && after == self,
        }
    }

    /// A round of the switch begins, depending on how far it has come.
    pub open spec fn rounds(self, after: AttemptView<S>, todo: Todo<S>) -> bool {
        match self.switch->0.inc {
            Incoming::Linking { .. } => todo == Todo::<S>::Link && after == self,
            Incoming::Priming { .. } => todo == Todo::<S>::Estimate && after == self,
            Incoming::Aligning { .. } => todo == Todo::<S>::Listen && after == self,
            Incoming::Positioning { .. } => {
                &&& todo == Todo::<S>::Nothing
                &&& after == (AttemptView { at: At::Position, ..self })
            },
            Incoming::Fading { .. } => {
                &&& todo == Todo::<S>::Nothing
                &&& after == (AttemptView { at: At::Fade, ..self })
            },
        }
    }

    /// Going on with a round of priming makes `switch` of the switch, and asks
    /// for `next`.
    pub open spec fn primed(
        self,
        scene: Scene,
        switch: switch::SwitchView<S>,
        next: Primed,
    ) -> bool {
        self.switch->0.primes(
            self.active,
            scene.held_incoming as int,
            scene.held_playing as int,
            scene.now as int,
            switch,
            next,
        )
    }

    /// A round of priming goes on.
    pub open spec fn primes(self, scene: Scene, after: AttemptView<S>, todo: Todo<S>) -> bool {
        match todo {
            Todo::Pull(side) => {
                &&& after.switch is Some
                &&& self.primed(scene, after.switch->0, Primed::Pull(side))
                &&& after == (AttemptView { switch: after.switch, ..self })
            },
            Todo::Search(search) => {
                &&& after.switch is Some
                &&& self.primed(scene, after.switch->0, Primed::Search(search))
                &&& after == (AttemptView { switch: after.switch, at: At::Ready, ..self })
            },
            Todo::Nothing => {
                &&& after.switch is Some
                &&& self.primed(scene, after.switch->0, Primed::Wait)
                &&& after == (AttemptView { switch: after.switch, at: At::Ready, ..self })
            },
            Todo::Retune(url) => {
                &&& self.primed(scene, self.switch->0, Primed::Retune)
                &&& after == self
                &&& url@ == self.switch->0.url
            },
            Todo::Failed(f) => {
                &&& self.primed(
                    scene,
                    switch::SwitchView { stage: switch::Stage::Over, ..self.switch->0 },
                    Primed::GiveUp,
                )
                &&& after == self.abandoned()
                &&& fault::saying(f, "timeout"@, "Stream did not align in time"@)
            },
            _ => false,
        }
    }

    /// The end of a deck makes `after` of the attempt, and leads to `todo`.
    pub open spec fn ends(
        self,
        side: Side,
        end: DeckEnd,
        after: AttemptView<S>,
        todo: Todo<S>,
    ) -> bool {
        match (side, self.at) {
            (Side::Playing, At::Fill) => match self.ended {
                // The deck that took over gives no audio either.
                Some(first) => todo == Todo::<S>::End(first.outcome()) && after == self,
                None => if self.switch is Some && self.switch->0.inc is Fading {
                    &&& todo == (Todo::<S>::SwapIn { fine: self.switch->0.inc->Fading_fine })
                    &&& after == (AttemptView {
                        active: self.switch->0.deck->0,
                        switch: None,
                        ended: Some(end),
                        ..self
                    })
                } else {
                    &&& todo == Todo::<S>::End(end.outcome())
                    &&& after == (AttemptView { switch: None, ..self })
                },
            },
            // That is dealt with when the deck's audio is used up.
            (Side::Playing, At::Prime) => {
                &&& todo == Todo::<S>::Nothing
                &&& after == (AttemptView {
                    switch: Some(
                        switch::SwitchView { stage: switch::Stage::Over, ..self.switch->0 },
                    ),
                    ..self
                })
            },
            (Side::Playing, At::Position) | (
                Side::Incoming,
                At::Prime | At::Position | At::Fade,
            ) => {
                &&& todo matches Todo::Failed(f) && switch_fault(f, end)
                &&& after == self.abandoned()
            },
            _ => todo == Todo::<S>::Nothing && after == self,
        }
    }

    /// How the incoming connection stands makes `after` of the attempt, and
    /// leads to `todo`.
    pub open spec fn links(
        self,
        net: Option<Fault>,
        buffered: int,
        closed: bool,
        now: int,
        after: AttemptView<S>,
        todo: Todo<S>,
    ) -> bool {
        let since = self.switch->0.inc->Linking_since as int;
        match todo {
            Todo::Nothing => {
                &&& switch::linked(Linked::Wait, since, net, buffered, closed, now)
                &&& after == (AttemptView { at: At::Ready, ..self })
            },
            Todo::Probe => {
                &&& switch::linked(Linked::Probe, since, net, buffered, closed, now)
                &&& after == self
            },
            Todo::Failed(f) => {
                &&& switch::linked(Linked::Fail(f), since, net, buffered, closed, now)
                &&& after == self.abandoned()
            },
            _ => false,
        }
    }

    /// Another stream has been opened alongside.
    pub open spec fn opening(self, url: Seq<char>, now: u64) -> AttemptView<S> {
        AttemptView { switch: Some(switch::SwitchView::fresh(url, now)), ..self }
    }

    /// The incoming stream has been opened.
    pub open spec fn opened(self, track_id: int, rate: int, now: u64) -> AttemptView<S> {
        AttemptView {
            at: At::Ready,
            switch: Some(
                switch::SwitchView {
                    inc: Incoming::Priming { since: now, retries: 0, not_before: 0 },
                    stage: switch::Stage::Over,
                    deck: Some(deck::DeckView::<S>::fresh(track_id, rate)),
                    ..self.switch->0
                },
            ),
            ..self
        }
    }

    /// The estimate has been made.
    pub open spec fn estimated(self, coarse: int) -> AttemptView<S> {
        AttemptView {
            at: At::Prime,
            switch: Some(
                switch::SwitchView {
                    coarse,
                    stage: switch::Stage::Incoming(0),
                    ..self.switch->0
                },
            ),
            ..self
        }
    }

    /// What has been heard of the search makes `after` of the attempt, and
    /// leads to `todo`.
    pub open spec fn heeds(
        self,
        heard: Heard,
        now: int,
        after: AttemptView<S>,
        todo: Todo<S>,
    ) -> bool {
        match todo {
            Todo::Nothing => {
                &&& after.switch is Some
                &&& self.switch->0.heeds(
                    heard,
                    self.active,
                    now,
                    after.switch->0,
                    if after.at is Position {
                        Heeded::Position
                    } else {
                        Heeded::Wait
                    },
                )
                &&& after.at is Position || after.at is Ready
                &&& after == (AttemptView { at: after.at, switch: after.switch, ..self })
            },
            Todo::Failed(f) => {
                &&& heard is Lost
                &&& fault::saying(f, "decode"@, "Alignment failed"@)
                &&& after == self.abandoned()
            },
            _ => false,
        }
    }

    /// The chunk has gone to the output, so that more metadata has come due.
    pub open spec fn aired(self, pipe: stream::PipeView, now: int) -> AttemptView<S> {
        AttemptView {
            at: At::Aired,
            play: self.play.played(now).measured(self.active.bitrate_update),
            active: deck::DeckView { bitrate_update: None, ..self.active },
            pending: self.pending + pipe.released(self.active.played_demuxed),
            depth: pipe.depth(self.active.played_demuxed),
            ..self
        }
    }

    /// The deck that is on air now is another one. Of the metadata that its
    /// audio has passed only the newest is to be published.
    pub open spec fn swapped(
        self,
        pipe: stream::PipeView,
        station: Option<StationInfo>,
        now: int,
    ) -> AttemptView<S> {
        AttemptView {
            play: self.play.swapped(station, now),
            pending: self.pending + newest(pipe.released(self.active.played_demuxed)),
            ..self
        }
    }

    /// The block that was next has been published.
    pub open spec fn published(self, now: u64) -> AttemptView<S> {
        AttemptView {
            play: self.play.published(self.pending[0], now),
            pending: self.pending.drop_first(),
            ..self
        }
    }

    /// The controller makes `after` of the attempt and `pipe_after` of the
    /// pipe, and `told` is what there is to tell. A connection that is given up
    /// has no readout.
    pub open spec fn settles(
        self,
        pipe: stream::PipeView,
        ring_ms: int,
        now: int,
        after: AttemptView<S>,
        pipe_after: stream::PipeView,
        told: Settled,
    ) -> bool {
        let (play, active, left) = self.play.controlled(
            self.active,
            pipe,
            self.depth,
            ring_ms,
            now,
        );
        &&& pipe_after == left
        &&& self.play.tells_control(self.active, pipe, self.depth, ring_ms, now, told.control)
        &&& if told.control is Resync {
            &&& told.readout is None
            &&& after == (AttemptView { at: At::Turn, play, active, ..self })
        } else {
            &&& play.tells_readout(now, told.readout)
            &&& after == (AttemptView { at: At::Turn, play: play.read_out(now), active, ..self })
        }
    }
}

impl<S: Copy> Attempt<S> {
    /// An attempt that plays `active`, of the station that its connection has
    /// told.
    pub fn new(active: Deck<S>, station: Option<&StationInfo>) -> (a: Attempt<S>)
        requires
            active@.wf(),
        ensures
            a@ == (AttemptView {
                play: playback::PlayView::fresh(
                    match station {
                        Some(s) => Some(*s),
                        None => None,
                    },
                ),
                active: active@,
                at: At::Turn,
                switch: None::<switch::SwitchView<S>>,
                chunk: Seq::<S>::empty(),
                ended: None,
                pending: Seq::empty(),
                depth: 0,
            }),
            a@.wf(),
    {
        let a = Attempt {
            play: Playback::new(station),
            active,
            at: At::Turn,
            switch: None,
            chunk: Vec::new(),
            ended: None,
            pending: Vec::new(),
            depth: 0,
        };
        assert(a@.chunk =~= Seq::<S>::empty());
        assert(a@.pending =~= Seq::empty());
        a
    }

    /// The deck on air.
    pub fn active(&self) -> (d: &Deck<S>)
        ensures
            d@ == self@.active,
    {
        &self.active
    }

    /// Whether a switch request can be taken up: not while a switch is under
    /// way.
    pub fn accepts_request(&self) -> (b: bool)
        ensures
            b == (self@.switch is None),
    {
        self.switch.is_none()
    }

    /// A turn begins, while the stream at `url` is playing. Before anything is
    /// on air there is nothing to blend, so that a switch request is a retune.
    pub fn start(&mut self, url: &String, request: Option<String>) -> (s: Started)
        requires
            old(self)@.wf(),
            old(self)@.at is Turn,
            request is Some ==> old(self)@.switch is None,
        ensures
            final(self)@.wf(),
            final(self)@ == (AttemptView { at: At::Fill, ..old(self)@ }),
            s == (match request {
                Some(next) => if next@ == url@ {
                    Started::Go
                } else if old(self)@.play.live {
                    Started::Open(next)
                } else {
                    Started::Retune(next)
                },
                None => Started::Go,
            }),
    {
        self.at = At::Fill;
        match request {
            Some(next) => match self.play.on_switch_request(url, next) {
                Request::Ignore => Started::Go,
                Request::Retune(next) => Started::Retune(next),
                Request::Open(next) => Started::Open(next),
            },
            None => Started::Go,
        }
    }

    /// Another stream has been opened alongside.
    pub fn open(&mut self, url: String, now: u64)
        requires
            old(self)@.wf(),
            old(self)@.switch is None,
        ensures
            final(self)@.wf(),
            final(self)@ == old(self)@.opening(url@, now),
    {
        self.switch = Some(Switch::new(url, now));
    }

    /// The switch under way.
    pub fn switch(&self) -> (s: Option<&Switch<S>>)
        ensures
            match s {
                Some(s) => self@.switch == Some(s@),
                None => self@.switch is None,
            },
    {
        self.switch.as_ref()
    }

    /// The chunk that was taken last.
    pub fn chunk(&self) -> (c: &Vec<S>)
        ensures
            c@ == self@.chunk,
    {
        &self.chunk
    }

    /// Whether the counters can hold the next step.
    pub fn holds_step(&self) -> (b: bool)
        requires
            self@.wf(),
        ensures
            b == self@.holds_step(),
    {
        if self.pending.len() > 0 {
            return true;
        }
        match self.at {
            At::Prime => match &self.switch {
                Some(s) => s.holds_round(&self.active),
                None => true,
            },
            At::Fade => match &self.switch {
                Some(s) => match s.phase() {
                    Incoming::Fading { done, .. } => done <= usize::MAX - CHUNK,
                    _ => true,
                },
                None => true,
            },
            _ => true,
        }
    }

    /// Take the next step, and tell what has to be done outside.
    pub fn proceed(&mut self, scene: Scene) -> (todo: Todo<S>)
        requires
            old(self)@.wf(),
            old(self)@.holds_step(),
        ensures
            final(self)@.wf(),
            old(self)@.proceeds(scene, final(self)@, todo),
    {
        if self.pending.len() > 0 {
            return Todo::Publish;
        }
        match self.at {
            At::Turn => Todo::Start,
            At::Fill => {
                if self.active.wants(CHUNK) {
                    return Todo::Pull(Side::Playing);
                }
                self.chunk = self.active.take(CHUNK);
                self.ended = None;
                self.at = if self.switch.is_some() {
                    At::Round
                } else {
                    At::Ready
                };
                Todo::Nothing
            },
            At::Round => self.round(),
            At::Prime => self.prime(scene),
            At::Position => self.position(),
            At::Fade => self.fade(),
            At::Swap => self.swap(),
            At::Ready => Todo::Output,
            At::Aired => Todo::Control,
        }
    }

    /// A round of the switch begins.
    fn round(&mut self) -> (todo: Todo<S>)
        requires
            old(self)@.wf(),
            old(self)@.at is Round,
        ensures
            final(self)@.wf(),
            old(self)@.rounds(final(self)@, todo),
    {
        let phase = match &self.switch {
            Some(s) => s.phase(),
            None => {
                return Todo::Nothing;
            },
        };
        match phase {
            Incoming::Linking { .. } => Todo::Link,
            Incoming::Priming { .. } => Todo::Estimate,
            Incoming::Aligning { .. } => Todo::Listen,
            Incoming::Positioning { .. } => {
                self.at = At::Position;
                Todo::Nothing
            },
            Incoming::Fading { .. } => {
                self.at = At::Fade;
                Todo::Nothing
            },
        }
    }

    /// A round of priming goes on.
    fn prime(&mut self, scene: Scene) -> (todo: Todo<S>)
        requires
            old(self)@.wf(),
            old(self)@.at is Prime,
            old(self)@.switch->0.holds_round(old(self)@.active),
        ensures
            final(self)@.wf(),
            old(self)@.primes(scene, final(self)@, todo),
    {
        let mut held: Option<Switch<S>> = None;
        core::mem::swap(&mut held, &mut self.switch);
        match held {
            Some(mut s) => {
                let next = s.prime(
                    &self.active,
                    scene.held_incoming,
                    scene.held_playing,
                    scene.now,
                );
                let url: String = s.url().to_owned();
                self.switch = Some(s);
                match next {
                    Primed::Pull(side) => Todo::Pull(side),
                    Primed::Search(search) => {
                        self.at = At::Ready;
                        Todo::Search(search)
                    },
                    Primed::Wait => {
                        self.at = At::Ready;
                        Todo::Nothing
                    },
                    Primed::Retune => Todo::Retune(url),
                    Primed::GiveUp => self.abandon(
                        Fault {
                            code: "timeout",
                            message: "Stream did not align in time".to_owned(),
                        },
                    ),
                }
            },
            None => Todo::Nothing,
        }
    }

    /// The decks of the switch are positioned.
    fn position(&mut self) -> (todo: Todo<S>)
        requires
            old(self)@.wf(),
            old(self)@.at is Position,
        ensures
            final(self)@.wf(),
            forall|scene: Scene| #[trigger] old(self)@.steps(scene, final(self)@, todo),
    {
        let mut held: Option<Switch<S>> = None;
        core::mem::swap(&mut held, &mut self.switch);
        match held {
            Some(mut s) => {
                let more = s.position(&mut self.active);
                self.switch = Some(s);
                match more {
                    Some(side) => Todo::Pull(side),
                    None => {
                        self.at = At::Ready;
                        Todo::Nothing
                    },
                }
            },
            None => Todo::Nothing,
        }
    }

    /// The incoming deck's part of the chunk is decoded and taken.
    fn fade(&mut self) -> (todo: Todo<S>)
        requires
            old(self)@.wf(),
            old(self)@.at is Fade,
            old(self)@.switch->0.inc->done + CHUNK <= usize::MAX,
        ensures
            final(self)@.wf(),
            forall|scene: Scene| #[trigger] old(self)@.steps(scene, final(self)@, todo),
    {
        let mut held: Option<Switch<S>> = None;
        core::mem::swap(&mut held, &mut self.switch);
        match held {
            Some(mut s) => {
                let part = s.fade(CHUNK);
                self.switch = Some(s);
                match part {
                    Some(faded) => {
                        self.at = if faded.complete {
                            At::Swap
                        } else {
                            At::Ready
                        };
                        Todo::Mix(faded)
                    },
                    None => Todo::Pull(Side::Incoming),
                }
            },
            None => Todo::Nothing,
        }
    }

    /// The fade is complete: the incoming deck is the playing one.
    fn swap(&mut self) -> (todo: Todo<S>)
        requires
            old(self)@.wf(),
            old(self)@.at is Swap,
        ensures
            final(self)@.wf(),
            forall|scene: Scene| #[trigger] old(self)@.steps(scene, final(self)@, todo),
    {
        let mut held: Option<Switch<S>> = None;
        core::mem::swap(&mut held, &mut self.switch);
        match held {
            Some(s) => {
                let fine = match s.phase() {
                    Incoming::Fading { fine, .. } => fine,
                    _ => false,
                };
                if let Some(next) = s.into_deck() {
                    self.active = next;
                }
                self.at = At::Ready;
                Todo::SwapIn { fine }
            },
            None => Todo::Nothing,
        }
    }

    /// A packet of one of the decks was pulled, or not.
    pub fn on_packet(&mut self, side: Side, packet: Packet, net: Option<Fault>) -> (next: Pull)
        requires
            old(self)@.wf(),
            side is Incoming ==> old(self)@.switch is Some && old(self)@.switch->0.deck is Some,
            packet matches Packet::Read { len, dur, .. } ==> old(self)@.deck_of(
                side,
            ).holds_packet(len as int, dur as int),
        ensures
            final(self)@.wf(),
            final(self)@ == old(self)@.with_deck(side, final(self)@.deck_of(side)),
            deck::packet_leads_to(
                old(self)@.deck_of(side),
                packet,
                net,
                final(self)@.deck_of(side),
                next,
            ),
    {
        match side {
            Side::Playing => self.active.on_packet(packet, net),
            Side::Incoming => {
                let mut held: Option<Switch<S>> = None;
                core::mem::swap(&mut held, &mut self.switch);
                match held {
                    Some(mut s) => {
                        let next = s.on_packet(packet, net);
                        self.switch = Some(s);
                        next
                    },
                    None => Pull::Again,
                }
            },
        }
    }

    /// A packet of one of the decks was decoded, or not.
    pub fn on_frames(&mut self, side: Side, frames: Frames<S>, net: Option<Fault>) -> (next: Pull)
        requires
            old(self)@.wf(),
            side is Incoming ==> old(self)@.switch is Some && old(self)@.switch->0.deck is Some,
            frames matches Frames::Decoded { samples, channels } ==> old(self)@.deck_of(
                side,
            ).decoded_frames + deck::frame_count(samples@.len() as int, channels as int)
                <= u64::MAX,
        ensures
            final(self)@.wf(),
            final(self)@ == old(self)@.with_deck(side, final(self)@.deck_of(side)),
            deck::frames_lead_to(
                old(self)@.deck_of(side),
                frames,
                net,
                final(self)@.deck_of(side),
                next,
            ),
    {
        match side {
            Side::Playing => self.active.on_frames(frames, net),
            Side::Incoming => {
                let mut held: Option<Switch<S>> = None;
                core::mem::swap(&mut held, &mut self.switch);
                match held {
                    Some(mut s) => {
                        let next = s.on_frames(frames, net);
                        self.switch = Some(s);
                        next
                    },
                    None => Pull::Again,
                }
            },
        }
    }

    /// One of the decks, that was to be decoded further, has ended.
    pub fn on_ended(&mut self, side: Side, end: DeckEnd) -> (todo: Todo<S>)
        requires
            old(self)@.wf(),
        ensures
            final(self)@.wf(),
            old(self)@.ends(side, end, final(self)@, todo),
    {
        match (side, self.at) {
            (Side::Playing, At::Fill) => self.succeed(end),
            (Side::Playing, At::Prime) => {
                let mut held: Option<Switch<S>> = None;
                core::mem::swap(&mut held, &mut self.switch);
                if let Some(mut s) = held {
                    s.on_playing_ended();
                    self.switch = Some(s);
                }
                Todo::Nothing
            },
            (Side::Playing, At::Position) => self.abandon(
                fault_of(end, "Incoming stream ended"),
            ),
            (Side::Incoming, At::Prime) => self.abandon(fault_of(end, "Incoming stream ended")),
            (Side::Incoming, At::Position) => self.abandon(
                fault_of(end, "Incoming stream ended"),
            ),
            (Side::Incoming, At::Fade) => self.abandon(fault_of(end, "Incoming stream ended")),
            _ => Todo::Nothing,
        }
    }

    /// The switch is abandoned; the playing deck plays on.
    fn abandon(&mut self, f: Fault) -> (todo: Todo<S>)
        requires
            old(self)@.wf(),
            !(old(self)@.at is Turn) && !(old(self)@.at is Fill),
        ensures
            final(self)@.wf(),
            final(self)@ == old(self)@.abandoned(),
            todo == Todo::<S>::Failed(f),
    {
        self.switch = None;
        self.at = At::Ready;
        Todo::Failed(f)
    }

    /// The playing deck has ended before it gave a whole chunk.
    fn succeed(&mut self, end: DeckEnd) -> (todo: Todo<S>)
        requires
            old(self)@.wf(),
            old(self)@.at is Fill,
        ensures
            final(self)@.wf(),
            old(self)@.ends(Side::Playing, end, final(self)@, todo),
    {
        let mut first: Option<DeckEnd> = None;
        core::mem::swap(&mut first, &mut self.ended);
        if let Some(first) = first {
            let (kept_end, outcome) = first.split();
            self.ended = Some(kept_end);
            return Todo::End(outcome);
        }
        let mut held: Option<Switch<S>> = None;
        core::mem::swap(&mut held, &mut self.switch);
        match succeed(end, held) {
            Succession::TakeOver { deck, fine, end } => {
                self.active = deck;
                self.ended = Some(end);
                Todo::SwapIn { fine }
            },
            Succession::Over(outcome) => Todo::End(outcome),
        }
    }

    /// How the incoming connection stands.
    pub fn on_link(&mut self, net: Option<Fault>, buffered: usize, closed: bool, now: u64) -> (
        todo: Todo<S>)
        requires
            old(self)@.wf(),
            old(self)@.at is Round,
            old(self)@.switch->0.inc is Linking,
        ensures
            final(self)@.wf(),
            old(self)@.links(net, buffered as int, closed, now as int, final(self)@, todo),
    {
        let next = match &self.switch {
            Some(s) => s.on_link(net, buffered, closed, now),
            None => Linked::Wait,
        };
        match next {
            Linked::Wait => {
                self.at = At::Ready;
                Todo::Nothing
            },
            Linked::Probe => Todo::Probe,
            Linked::Fail(f) => self.abandon(f),
        }
    }

    /// The incoming stream has been opened.
    pub fn on_opened(&mut self, track_id: u32, rate: Option<u32>, now: u64)
        requires
            old(self)@.wf(),
            old(self)@.at is Round,
            old(self)@.switch->0.inc is Linking,
        ensures
            final(self)@.wf(),
            final(self)@ == old(self)@.opened(track_id as int, deck::told_rate(rate), now),
    {
        let mut held: Option<Switch<S>> = None;
        core::mem::swap(&mut held, &mut self.switch);
        if let Some(mut s) = held {
            s.on_opened(track_id, rate, now);
            self.switch = Some(s);
        }
        self.at = At::Ready;
    }

    /// The incoming stream could not be opened.
    pub fn on_unopened(&mut self, f: Fault) -> (todo: Todo<S>)
        requires
            old(self)@.wf(),
            old(self)@.at is Round,
        ensures
            final(self)@.wf(),
            final(self)@ == old(self)@.abandoned(),
            todo == Todo::<S>::Failed(f),
    {
        self.abandon(f)
    }

    /// The estimate has been made.
    pub fn on_estimate(&mut self, coarse: i64)
        requires
            old(self)@.wf(),
            old(self)@.at is Round,
            old(self)@.switch->0.inc is Priming,
        ensures
            final(self)@.wf(),
            final(self)@ == old(self)@.estimated(coarse as int),
    {
        let mut held: Option<Switch<S>> = None;
        core::mem::swap(&mut held, &mut self.switch);
        if let Some(mut s) = held {
            s.begin_round(coarse);
            self.switch = Some(s);
        }
        self.at = At::Prime;
    }

    /// What has been heard of the search.
    pub fn on_heard(&mut self, heard: Heard, now: u64) -> (todo: Todo<S>)
        requires
            old(self)@.wf(),
            old(self)@.at is Round,
            old(self)@.switch->0.inc is Aligning,
            old(self)@.switch->0.holds_heard(heard, old(self)@.active, now as int),
        ensures
            final(self)@.wf(),
            old(self)@.heeds(heard, now as int, final(self)@, todo),
    {
        let mut held: Option<Switch<S>> = None;
        core::mem::swap(&mut held, &mut self.switch);
        match held {
            Some(mut s) => {
                let next = s.on_heard(heard, &self.active, now);
                self.switch = Some(s);
                match next {
                    Heeded::Wait => {
                        self.at = At::Ready;
                        Todo::Nothing
                    },
                    Heeded::Position => {
                        self.at = At::Position;
                        Todo::Nothing
                    },
                    Heeded::Fail(f) => self.abandon(f),
                }
            },
            None => Todo::Nothing,
        }
    }

    /// The incoming deck's part has been mixed into the chunk.
    pub fn on_mixed(&mut self, chunk: Vec<S>)
        requires
            old(self)@.wf(),
            old(self)@.at is Ready || old(self)@.at is Swap,
            chunk@.len() == 2 * CHUNK,
        ensures
            final(self)@.wf(),
            final(self)@ == (AttemptView { chunk: chunk@, ..old(self)@ }),
    {
        self.chunk = chunk;
    }

    /// Whether the read cursor of the deck on air can be held.
    pub fn holds_cursor(&self, pipe: &BytePipe) -> (b: bool)
        requires
            self@.wf(),
        ensures
            b == (pipe@.cursor(self@.active.played_demuxed) <= u64::MAX),
    {
        pipe.dropped() <= u64::MAX - self.active.played_demuxed()
    }

    /// The chunk has gone to the output, so that more metadata has come due in
    /// `pipe`, the one of the deck on air. Tells whether it was the first chunk
    /// of the attempt.
    pub fn on_output(&mut self, pipe: &mut BytePipe, now: u64) -> (first: bool)
        requires
            old(self)@.wf(),
            old(self)@.at is Ready,
            old(pipe)@.wf(),
            old(pipe)@.cursor(old(self)@.active.played_demuxed) <= u64::MAX,
        ensures
            final(self)@.wf(),
            final(self)@ == old(self)@.aired(old(pipe)@, now as int),
            final(pipe)@ == old(pipe)@.ticked(old(self)@.active.played_demuxed),
            final(pipe)@.wf(),
            first == !old(self)@.play.live,
    {
        let ghost before = self@;
        let first = self.play.on_played(now);
        let update = self.active.take_bitrate_update();
        self.play.on_bitrate(update);
        let mut tick = pipe.tick(self.active.played_demuxed());
        self.depth = tick.depth_bytes;
        self.pending.append(&mut tick.released);
        self.at = At::Aired;
        assert(self@.pending =~= before.pending + old(pipe)@.released(
            before.active.played_demuxed,
        ));
        first
    }

    /// The incoming deck has become the one on air, and `pipe` is its pipe. Its
    /// station is what its connection has told.
    pub fn on_swapped(&mut self, pipe: &mut BytePipe, station: Option<&StationInfo>, now: u64)
        requires
            old(self)@.wf(),
            old(pipe)@.wf(),
            old(pipe)@.cursor(old(self)@.active.played_demuxed) <= u64::MAX,
        ensures
            final(self)@.wf(),
            final(self)@ == old(self)@.swapped(
                old(pipe)@,
                match station {
                    Some(s) => Some(*s),
                    None => None,
                },
                now as int,
            ),
            final(pipe)@ == old(pipe)@.ticked(old(self)@.active.played_demuxed),
            final(pipe)@.wf(),
    {
        let ghost before = self@;
        let ghost due = pipe@.released(self.active@.played_demuxed);
        self.play.swap_in(station, now);
        let mut tick = pipe.tick(self.active.played_demuxed());
        let ghost released = tick.released@;
        if let Some(block) = tick.released.pop() {
            assert(block@ == due.last());
            self.pending.push(block);
        }
        assert(released.len() == due.len());
        assert(self@.pending =~= before.pending + newest(due));
    }

    /// The block that is to be published next.
    pub fn next_block(&self) -> (b: Option<&Block>)
        ensures
            match b {
                Some(block) => self@.pending.len() > 0 && block@ == self@.pending[0],
                None => self@.pending.len() == 0,
            },
    {
        if self.pending.len() > 0 {
            Some(&self.pending[0])
        } else {
            None
        }
    }

    /// Whether the counters can hold what the next block brings.
    pub fn holds_block(&self, now: u64) -> (b: bool)
        requires
            self@.wf(),
        ensures
            b == (self@.pending.len() > 0 ==> events::block_holds(
                self@.play.drift,
                self@.pending[0],
                now,
            )),
    {
        self.pending.len() == 0 || self.play.holds_block(&self.pending[0], now)
    }

    /// Publish the block that is next.
    pub fn on_publish(&mut self, station: Option<&StationInfo>, now: u64) -> (told: Option<
        BlockEvents,
    >)
        requires
            old(self)@.wf(),
            old(self)@.pending.len() > 0,
            events::block_holds(old(self)@.play.drift, old(self)@.pending[0], now),
        ensures
            final(self)@.wf(),
            final(self)@ == old(self)@.published(now),
            old(self)@.play.tells_block(
                old(self)@.pending[0],
                match station {
                    Some(s) => Some(*s),
                    None => None,
                },
                now,
                told,
            ),
    {
        let ghost before = self@;
        let block = self.pending.remove(0);
        assert(block@ == before.pending[0]);
        assert(self@.pending =~= before.pending.drop_first());
        self.play.on_released(block, station, now)
    }

    /// Whether the counters can hold what the controller measures.
    pub fn holds_control(&self, pipe: &BytePipe, ring_ms: u64, now: u64) -> (b: bool)
        requires
            self@.wf(),
            pipe@.wf(),
        ensures
            b == (self@.play.drift.holds_poll(self@.depth, ring_ms as int, now as int)
                && pipe@.dropped + pipe@.buf.len() + self@.active.demuxed <= u64::MAX),
    {
        let end: u128 = pipe.dropped() as u128 + pipe.buffered() as u128
            + self.active.demuxed() as u128;
        self.play.holds_poll(self.depth, ring_ms, now) && end <= u64::MAX as u128
    }

    /// Let the controller look after the drift, with so much audio waiting in
    /// the output, and give the lag readout when it is due.
    pub fn on_control(&mut self, pipe: &mut BytePipe, ring_ms: u64, now: u64) -> (told: Settled)
        requires
            old(self)@.wf(),
            old(self)@.at is Aired,
            old(pipe)@.wf(),
            old(self)@.play.drift.holds_poll(old(self)@.depth, ring_ms as int, now as int),
            old(pipe)@.dropped + old(pipe)@.buf.len() + old(self)@.active.demuxed <= u64::MAX,
        ensures
            final(self)@.wf(),
            final(pipe)@.wf(),
            old(self)@.settles(
                old(pipe)@,
                ring_ms as int,
                now as int,
                final(self)@,
                final(pipe)@,
                told,
            ),
    {
        let control = self.play.control(&mut self.active, pipe, self.depth, ring_ms, now);
        self.at = At::Turn;
        let readout: Option<SyncPayload> = match &control {
            Control::Resync(_) => None,
            _ => self.play.readout(now),
        };
        Settled { control, readout }
    }
}

} // verus!
