//! The states of a mirroring session and the moves between them.

use vstd::prelude::*;

use crate::wire;

verus! {

/// Where a session stands.
#[derive(Debug, Clone, Copy, PartialEq, Eq, Hash, Structural)]
pub enum State {
    Idle,
    Discovering,
    Pairing,
    Connecting,
    Negotiating,
    Streaming,
    Recovering,
    Failed,
    Closed,
}

impl State {
    /// Whether a session may move from one state to another.
    pub open spec fn may_move(from: State, to: State) -> bool {
        match from {
            State::Idle => to is Discovering || to is Connecting || to is Closed,
            State::Discovering => to is Pairing || to is Connecting || to is Idle || to is Failed,
            State::Pairing => to is Connecting || to is Discovering || to is Failed,
            State::Connecting => to is Negotiating || to is Recovering || to is Failed
                || to is Idle,
            State::Negotiating => to is Streaming || to is Failed,
            State::Streaming => to is Recovering || to is Negotiating || to is Closed
                || to is Failed,
            State::Recovering => to is Streaming || to is Connecting || to is Failed
                || to is Closed,
            State::Failed => to is Idle || to is Closed,
            State::Closed => to is Idle || to is Connecting,
        }
    }

    /// Whether a session may move from one state to another.
    pub fn allowed(from: State, to: State) -> (r: bool)
        ensures
            r == State::may_move(from, to),
    {
        match (from, to) {
            (State::Idle, State::Discovering) => true,
            (State::Idle, State::Connecting) => true,
            (State::Idle, State::Closed) => true,
            (State::Discovering, State::Pairing) => true,
            (State::Discovering, State::Connecting) => true,
            (State::Discovering, State::Idle) => true,
            (State::Discovering, State::Failed) => true,
            (State::Pairing, State::Connecting) => true,
            (State::Pairing, State::Discovering) => true,
            (State::Pairing, State::Failed) => true,
            (State::Connecting, State::Negotiating) => true,
            (State::Connecting, State::Recovering) => true,
            (State::Connecting, State::Failed) => true,
            (State::Connecting, State::Idle) => true,
            (State::Negotiating, State::Streaming) => true,
            (State::Negotiating, State::Failed) => true,
            (State::Streaming, State::Recovering) => true,
            (State::Streaming, State::Negotiating) => true,
            (State::Streaming, State::Closed) => true,
            (State::Streaming, State::Failed) => true,
            (State::Recovering, State::Streaming) => true,
            (State::Recovering, State::Connecting) => true,
            (State::Recovering, State::Failed) => true,
            (State::Recovering, State::Closed) => true,
            (State::Failed, State::Idle) => true,
            (State::Failed, State::Closed) => true,
            (State::Closed, State::Idle) => true,
            (State::Closed, State::Connecting) => true,
            _ => false,
        }
    }

    /// Whether a stream is up, or about to be, or to be again.
    pub fn is_streaming(self) -> (r: bool)
        ensures
            r == (self is Streaming || self is Recovering || self is Negotiating),
    {
        match self {
            State::Streaming => true,
            State::Recovering => true,
            State::Negotiating => true,
            _ => false,
        }
    }

    /// The state in words.
    pub open spec fn text(self) -> Seq<char> {
        match self {
            State::Idle => "Idle"@,
            State::Discovering => "Discovering devices"@,
            State::Pairing => "Pairing"@,
            State::Connecting => "Connecting"@,
            State::Negotiating => "Negotiating session"@,
            State::Streaming => "Streaming"@,
            State::Recovering => "Recovering connection"@,
            State::Failed => "Connection failed"@,
            State::Closed => "Disconnected"@,
        }
    }

    /// The state in words.
    pub fn to_string(&self) -> (r: String)
        ensures
            r@ == self.text(),
    {
        let s: &str = match self {
            State::Idle => "Idle",
            State::Discovering => "Discovering devices",
            State::Pairing => "Pairing",
            State::Connecting => "Connecting",
            State::Negotiating => "Negotiating session",
            State::Streaming => "Streaming",
            State::Recovering => "Recovering connection",
            State::Failed => "Connection failed",
            State::Closed => "Disconnected",
        };
        s.to_owned()
    }
}

/// A move that is not allowed.
#[derive(Debug, Clone, Copy, PartialEq, Eq, Structural)]
pub struct InvalidTransition {
    pub from: State,
    pub to: State,
}

impl InvalidTransition {
    /// The message of the error.
    pub open spec fn text(self) -> Seq<char> {
        "illegal session transition "@ + self.from.text() + " -> "@ + self.to.text()
    }

    /// The message of the error.
    pub fn to_string(&self) -> (r: String)
        ensures
            r@ == self.text(),
    {
        let mut out = "illegal session transition ".to_owned();
        out.append(self.from.to_string().as_str());
        out.append(" -> ");
        out.append(self.to.to_string().as_str());
        out
    }
}

/// What a session tells its observers.
#[derive(Debug, Clone, PartialEq)]
pub enum Event {
    StateChanged { from: State, to: State },
    PeerChanged { name: String },
}

/// The view of an `Event`.
#[verifier::ext_equal]
pub enum EventModel {
    StateChanged { from: State, to: State },
    PeerChanged { name: Seq<char> },
}

impl View for Event {
    type V = EventModel;

    open spec fn view(&self) -> EventModel {
        match *self {
            Event::StateChanged { from, to } => EventModel::StateChanged { from, to },
            Event::PeerChanged { name } => EventModel::PeerChanged { name: name@ },
        }
    }
}

/// The views of a list of events.
pub open spec fn event_views(events: Seq<Event>) -> Seq<EventModel> {
    Seq::new(events.len(), |i: int| events[i]@)
}

/// Owns the state of the session, the name of the peer, and the events that observers
/// have not been told yet.
pub struct SessionManager {
    state: State,
    peer: Option<String>,
    events: Vec<Event>,
}

/// The view of a `SessionManager`.
#[verifier::ext_equal]
pub struct SessionModel {
    pub state: State,
    pub peer: Option<Seq<char>>,
    pub events: Seq<EventModel>,
}

impl SessionModel {
    /// The session after it was asked to move: it moves, and says so, if it may.
    pub open spec fn moved(self, to: State) -> SessionModel {
        if State::may_move(self.state, to) {
            SessionModel {
                state: to,
                peer: self.peer,
                events: self.events.push(EventModel::StateChanged { from: self.state, to }),
            }
        } else {
            self
        }
    }

    /// The session after it was told its peer.
    pub open spec fn with_peer(self, name: Seq<char>) -> SessionModel {
        SessionModel {
            state: self.state,
            peer: Some(name),
            events: self.events.push(EventModel::PeerChanged { name }),
        }
    }

    /// The session after its connection ended: failed, unless it had come to rest.
    pub open spec fn run_ended(self) -> SessionModel {
        if self.state is Closed || self.state is Idle || self.state is Failed {
            self
        } else {
            self.moved(State::Failed)
        }
    }

    /// The session after its peer said goodbye: closed, by way of a failure where it may not
    /// close at once.
    pub open spec fn closed(self) -> SessionModel {
        if State::may_move(self.state, State::Closed) {
            self.moved(State::Closed)
        } else {
            self.moved(State::Failed).moved(State::Closed)
        }
    }

    /// The session made ready for the next connection.
    pub open spec fn recycled(self) -> SessionModel {
        if self.state is Idle {
            self
        } else {
            self.moved(State::Failed).moved(State::Idle)
        }
    }
}

impl View for SessionManager {
    type V = SessionModel;

    closed spec fn view(&self) -> SessionModel {
        SessionModel {
            state: self.state,
            peer: wire::maybe_view(self.peer),
            events: event_views(self.events@),
        }
    }
}

impl Default for SessionManager {
    fn default() -> (r: Self)
        ensures
            r@ == (SessionModel { state: State::Idle, peer: None, events: Seq::empty() }),
    {
        SessionManager::new()
    }
}

impl SessionManager {
    /// A session at rest.
    pub fn new() -> (r: SessionManager)
        ensures
            r@ == (SessionModel { state: State::Idle, peer: None, events: Seq::empty() }),
    {
        let r = SessionManager { state: State::Idle, peer: None, events: Vec::new() };
        assert(r@.events =~= Seq::<EventModel>::empty());
        r
    }

    /// The present state.
    pub fn state(&self) -> (r: State)
        ensures
            r == self@.state,
    {
        self.state
    }

    /// The name of the peer, if one was set.
    pub fn peer(&self) -> (r: Option<String>)
        ensures
            wire::maybe_view(r) == self@.peer,
    {
        match &self.peer {
            Some(name) => Some(name.clone()),
            None => None,
        }
    }

    /// Hands out the events that have not been told yet.
    pub fn take_events(&mut self) -> (r: Vec<Event>)
        ensures
            event_views(r@) == old(self)@.events,
            final(self)@ == (SessionModel { events: Seq::empty(), ..old(self)@ }),
    {
        let mut out: Vec<Event> = Vec::new();
        out.append(&mut self.events);
        proof {
            assert(event_views(out@) =~= old(self)@.events);
            assert(self@.events =~= Seq::<EventModel>::empty());
        }
        out
    }

    fn tell(&mut self, e: Event)
        ensures
            final(self)@ == (SessionModel { events: old(self)@.events.push(e@), ..old(self)@ }),
    {
        self.events.push(e);
        proof {
            assert(self@.events =~= old(self)@.events.push(e@));
        }
    }

    /// Notes the name of the peer.
    pub fn set_peer(&mut self, name: &str)
        ensures
            final(self)@ == old(self)@.with_peer(name@),
    {
        self.peer = Some(name.to_owned());
        self.tell(Event::PeerChanged { name: name.to_owned() });
    }

    /// Moves to another state. A move that is not allowed is refused and changes nothing;
    /// a state is not followed by itself.
    pub fn transition(&mut self, to: State) -> (r: Result<(), InvalidTransition>)
        ensures
            final(self)@ == old(self)@.moved(to),
            match r {
                Ok(_) => State::may_move(old(self)@.state, to),
                Err(e) => !State::may_move(old(self)@.state, to) && e == (InvalidTransition {
                    from: old(self)@.state,
                    to,
                }),
            },
    {
        let from = self.state;
        if from == to || !State::allowed(from, to) {
            return Err(InvalidTransition { from, to });
        }
        self.state = to;
        self.tell(Event::StateChanged { from, to });
        Ok(())
    }

    /// Moves to another state if that is allowed.
    pub fn try_move(&mut self, to: State)
        ensures
            final(self)@ == old(self)@.moved(to),
    {
        let _ = self.transition(to);
    }

    /// The connection ended: the session has failed, unless it had come to rest.
    pub fn end_run(&mut self)
        ensures
            final(self)@ == old(self)@.run_ended(),
    {
        match self.state {
            State::Closed => {},
            State::Idle => {},
            State::Failed => {},
            _ => {
                self.try_move(State::Failed);
            },
        }
    }

    /// Closes the session.
    pub fn close(&mut self)
        ensures
            final(self)@ == old(self)@.closed(),
            final(self)@.state is Closed,
    {
        if !State::allowed(self.state, State::Closed) {
            self.try_move(State::Failed);
        }
        self.try_move(State::Closed);
    }

    /// Makes the session ready for the next connection.
    pub fn recycle(&mut self)
        ensures
            final(self)@ == old(self)@.recycled(),
            final(self)@.state is Idle,
    {
        match self.state {
            State::Idle => {},
            _ => {
                self.try_move(State::Failed);
                self.try_move(State::Idle);
            },
        }
    }
}

/// From whatever state a connection ends in, the session is idle again before the next
/// one, and its peer is kept.
pub proof fn law_sessions_recycle_to_idle(s: SessionModel)
    ensures
        s.run_ended().state is Closed || s.run_ended().state is Idle || s.run_ended().state is Failed,
        s.run_ended().recycled().state is Idle,
        s.recycled().state is Idle,
        s.run_ended().recycled().peer == s.peer,
{
}

/// From whatever state a session is closed, it ends closed and stays so until the next
/// connection.
pub proof fn law_closed_sessions_stay_closed(s: SessionModel)
    ensures
        s.closed().state is Closed,
        s.closed().run_ended() == s.closed(),
        s.closed().peer == s.peer,
{
}

/// A move is told to observers exactly when it happens.
pub proof fn law_moves_are_told(s: SessionModel, to: State)
    ensures
        State::may_move(s.state, to) ==> s.moved(to).state == to && s.moved(to).events
            == s.events.push(EventModel::StateChanged { from: s.state, to }),
        !State::may_move(s.state, to) ==> s.moved(to) == s,
{
}

/// No state may follow itself, and every state but a resting one may fail.
pub proof fn law_moves_lead_elsewhere(s: State)
    ensures
        !State::may_move(s, s),
        State::may_move(s, State::Failed) <==> !(s is Idle || s is Failed || s is Closed),
{
}

/// Which states may follow which, from both sides: what each may become, and so what may lead
/// to a stream, to a failure, to a close and to rest.
pub proof fn law_the_moves_of_a_session(from: State, to: State)
    ensures
        State::may_move(from, to) <==> (match to {
            State::Idle => from is Discovering || from is Connecting || from is Failed || from
                is Closed,
            State::Discovering => from is Idle || from is Pairing,
            State::Pairing => from is Discovering,
            State::Connecting => from is Idle || from is Discovering || from is Pairing || from
                is Recovering || from is Closed,
            State::Negotiating => from is Connecting || from is Streaming,
            State::Streaming => from is Negotiating || from is Recovering,
            State::Recovering => from is Connecting || from is Streaming,
            State::Failed => from is Discovering || from is Pairing || from is Connecting || from
                is Negotiating || from is Streaming || from is Recovering,
            State::Closed => from is Idle || from is Streaming || from is Recovering || from
                is Failed,
        }),
{
}

/// A connection goes from rest through negotiation to a stream, an interrupted stream comes
/// back or fails, and every end leads to rest; each step is told, in order, and the name of a
/// peer is kept and told.
pub proof fn law_a_session_runs_its_course(s: SessionModel, name: Seq<char>)
    requires
        s.state is Idle,
    ensures
        ({
            let a = s.moved(State::Connecting);
            let b = a.moved(State::Negotiating);
            let c = b.with_peer(name);
            let d = c.moved(State::Streaming);
            let e = d.moved(State::Recovering);
            &&& a.state is Connecting && b.state is Negotiating && d.state is Streaming
            &&& e.state is Recovering && e.moved(State::Streaming).state is Streaming
            &&& c.peer == Some(name) && d.peer == Some(name) && c.state is Negotiating
            &&& d.events == s.events + seq![
                EventModel::StateChanged { from: State::Idle, to: State::Connecting },
                EventModel::StateChanged { from: State::Connecting, to: State::Negotiating },
                EventModel::PeerChanged { name },
                EventModel::StateChanged { from: State::Negotiating, to: State::Streaming },
            ]
            &&& d.run_ended().state is Failed && e.run_ended().state is Failed
            &&& d.closed().events == d.events.push(
                EventModel::StateChanged { from: State::Streaming, to: State::Closed },
            )
            &&& d.closed().recycled().events == d.closed().events.push(
                EventModel::StateChanged { from: State::Closed, to: State::Idle },
            )
            &&& c.closed().events == c.events + seq![
                EventModel::StateChanged { from: State::Negotiating, to: State::Failed },
                EventModel::StateChanged { from: State::Failed, to: State::Closed },
            ]
            &&& c.run_ended().recycled().events == c.events + seq![
                EventModel::StateChanged { from: State::Negotiating, to: State::Failed },
                EventModel::StateChanged { from: State::Failed, to: State::Idle },
            ]
        }),
{
    let a = s.moved(State::Connecting);
    let b = a.moved(State::Negotiating);
    let c = b.with_peer(name);
    let d = c.moved(State::Streaming);
    assert(d.events =~= s.events + seq![
        EventModel::StateChanged { from: State::Idle, to: State::Connecting },
        EventModel::StateChanged { from: State::Connecting, to: State::Negotiating },
        EventModel::PeerChanged { name },
        EventModel::StateChanged { from: State::Negotiating, to: State::Streaming },
    ]);
    assert(c.closed().events =~= c.events + seq![
        EventModel::StateChanged { from: State::Negotiating, to: State::Failed },
        EventModel::StateChanged { from: State::Failed, to: State::Closed },
    ]);
    assert(c.run_ended().recycled().events =~= c.events + seq![
        EventModel::StateChanged { from: State::Negotiating, to: State::Failed },
        EventModel::StateChanged { from: State::Failed, to: State::Idle },
    ]);
}

/// A session that failed, or that came to rest, stays as it is when its connection ends, and
/// any other fails.
pub proof fn law_what_does_not_rest_fails(s: SessionModel)
    ensures
        s.state is Idle || s.state is Closed || s.state is Failed ==> s.run_ended() == s,
        !(s.state is Idle || s.state is Closed || s.state is Failed) ==> s.run_ended() == (
        SessionModel {
            state: State::Failed,
            peer: s.peer,
            events: s.events.push(EventModel::StateChanged { from: s.state, to: State::Failed }),
        }),
        s.state is Idle ==> s.recycled() == s,
{
}

/// The model of a list of events holds every event of it, in its place, field by field.
pub proof fn law_models_hold_every_event(list: Seq<Event>, i: int)
    requires
        0 <= i < list.len(),
    ensures
        event_views(list).len() == list.len(),
        list[i] matches Event::StateChanged { from, to } ==> event_views(list)[i] == (
        EventModel::StateChanged { from, to }),
        list[i] matches Event::PeerChanged { name } ==> event_views(list)[i] == (
        EventModel::PeerChanged { name: name@ }),
{
}

/// Every state has its own words, and a move that is not allowed is told by the two states.
pub proof fn law_states_in_words(s: State, e: InvalidTransition)
    ensures
        s is Idle ==> s.text() == "Idle"@,
        s is Discovering ==> s.text() == "Discovering devices"@,
        s is Pairing ==> s.text() == "Pairing"@,
        s is Connecting ==> s.text() == "Connecting"@,
        s is Negotiating ==> s.text() == "Negotiating session"@,
        s is Streaming ==> s.text() == "Streaming"@,
        s is Recovering ==> s.text() == "Recovering connection"@,
        s is Failed ==> s.text() == "Connection failed"@,
        s is Closed ==> s.text() == "Disconnected"@,
        e.text() == "illegal session transition "@ + e.from.text() + " -> "@ + e.to.text(),
{
}

} // verus!
