//! The room-join exchange: what to do on each event of the connection until
//! the room is joined or the attempt has failed.

use vstd::prelude::*;
use crate::codec::ClientMessage;
use crate::error::Failure;
use crate::inbound::{decode, decoded, ServerMessage};
use crate::room::RoomId;

verus! {

/// Where the exchange stands.
#[derive(Clone, Copy, Debug, PartialEq, Eq, Structural)]
pub enum HandshakeState {
    /// The transport is being opened; nothing has been sent.
    Connecting,
    /// The join request is out and its answer is awaited.
    AwaitingJoinAck,
    /// The server confirmed the join: streaming may begin.
    Joined,
    /// The server knows no such room. Terminal.
    Rejected,
    /// The transport could not be opened, or closed or failed before the
    /// server answered. Terminal.
    Disconnected,
}

/// What the connection reports.
#[derive(Clone, Copy, Debug, PartialEq, Eq, Structural)]
pub enum Event {
    /// The transport is open.
    Connected,
    /// A message arrived.
    Received(ServerMessage),
    /// The transport could not be opened, closed, or failed.
    Closed,
}

/// What the caller is to do next.
#[derive(Clone, Copy, Debug, PartialEq, Eq, Structural)]
pub enum Directive {
    /// Send the join request for the room, then read.
    SendJoin,
    /// Read the next message.
    Read,
    /// The room is joined: stream the image.
    Stream,
    /// Give up, reporting no such room.
    AbortUnknownRoom,
    /// Give up, reporting the loss of the connection.
    AbortDisconnected,
    /// Nothing: the exchange was over before this event.
    Stop,
}

/// The state that follows `state` on `event`.
pub open spec fn next_state(state: HandshakeState, event: Event) -> HandshakeState {
    match (state, event) {
        (HandshakeState::Connecting, Event::Connected) => HandshakeState::AwaitingJoinAck,
        (HandshakeState::Connecting, Event::Received(_)) => HandshakeState::Connecting,
        (HandshakeState::Connecting, Event::Closed) => HandshakeState::Disconnected,
        (HandshakeState::AwaitingJoinAck, Event::Received(ServerMessage::Join)) => {
            HandshakeState::Joined
        },
        (HandshakeState::AwaitingJoinAck, Event::Received(ServerMessage::RoomNotFound)) => {
            HandshakeState::Rejected
        },
        (HandshakeState::AwaitingJoinAck, Event::Received(ServerMessage::Other)) => {
            HandshakeState::AwaitingJoinAck
        },
        (HandshakeState::AwaitingJoinAck, Event::Connected) => HandshakeState::AwaitingJoinAck,
        (HandshakeState::AwaitingJoinAck, Event::Closed) => HandshakeState::Disconnected,
        (HandshakeState::Joined, _) => HandshakeState::Joined,
        (HandshakeState::Rejected, _) => HandshakeState::Rejected,
        (HandshakeState::Disconnected, _) => HandshakeState::Disconnected,
    }
}

/// What the caller is told when `state` meets `event`.
pub open spec fn directive_for(state: HandshakeState, event: Event) -> Directive {
    match (state, event) {
        (HandshakeState::Connecting, Event::Connected) => Directive::SendJoin,
        (HandshakeState::Connecting, Event::Received(_)) => Directive::Read,
        (HandshakeState::Connecting, Event::Closed) => Directive::AbortDisconnected,
        (HandshakeState::AwaitingJoinAck, Event::Received(ServerMessage::Join)) => {
            Directive::Stream
        },
        (HandshakeState::AwaitingJoinAck, Event::Received(ServerMessage::RoomNotFound)) => {
            Directive::AbortUnknownRoom
        },
        (HandshakeState::AwaitingJoinAck, Event::Received(ServerMessage::Other)) => {
            Directive::Read
        },
        (HandshakeState::AwaitingJoinAck, Event::Connected) => Directive::Read,
        (HandshakeState::AwaitingJoinAck, Event::Closed) => Directive::AbortDisconnected,
        (HandshakeState::Joined, _) => Directive::Stop,
        (HandshakeState::Rejected, _) => Directive::Stop,
        (HandshakeState::Disconnected, _) => Directive::Stop,
    }
}

/// The state reached from `state` after all of `events`, in order.
pub open spec fn state_after(state: HandshakeState, events: Seq<Event>) -> HandshakeState
    decreases events.len(),
{
    if events.len() == 0 {
        state
    } else {
        next_state(state_after(state, events.drop_last()), events.last())
    }
}

/// The directives given from `state` for each of `events`, in order.
pub open spec fn directives_for(state: HandshakeState, events: Seq<Event>) -> Seq<Directive>
    decreases events.len(),
{
    if events.len() == 0 {
        Seq::empty()
    } else {
        directives_for(state, events.drop_last()).push(
            directive_for(state_after(state, events.drop_last()), events.last()),
        )
    }
}

/// One step of the exchange.
pub fn step(state: HandshakeState, event: Event) -> (r: (HandshakeState, Directive))
    ensures
        r.0 == next_state(state, event),
        r.1 == directive_for(state, event),
{
    match state {
        HandshakeState::Connecting => match event {
            Event::Connected => (HandshakeState::AwaitingJoinAck, Directive::SendJoin),
            Event::Received(_) => (HandshakeState::Connecting, Directive::Read),
            Event::Closed => (HandshakeState::Disconnected, Directive::AbortDisconnected),
        },
        HandshakeState::AwaitingJoinAck => match event {
            Event::Received(ServerMessage::Join) => (HandshakeState::Joined, Directive::Stream),
            Event::Received(ServerMessage::RoomNotFound) => (
                HandshakeState::Rejected,
                Directive::AbortUnknownRoom,
            ),
            Event::Received(ServerMessage::Other) => (
                HandshakeState::AwaitingJoinAck,
                Directive::Read,
            ),
            Event::Connected => (HandshakeState::AwaitingJoinAck, Directive::Read),
            Event::Closed => (HandshakeState::Disconnected, Directive::AbortDisconnected),
        },
        HandshakeState::Joined => (HandshakeState::Joined, Directive::Stop),
        HandshakeState::Rejected => (HandshakeState::Rejected, Directive::Stop),
        HandshakeState::Disconnected => (HandshakeState::Disconnected, Directive::Stop),
    }
}

/// The exchange for one room.
#[derive(Clone, Copy, Debug, PartialEq, Eq)]
pub struct Handshake {
    room: RoomId,
    state: HandshakeState,
}

impl Handshake {
    /// The room being joined.
    pub closed spec fn spec_room(&self) -> RoomId {
        self.room
    }

    /// Where the exchange stands.
    pub closed spec fn spec_state(&self) -> HandshakeState {
        self.state
    }

    /// An exchange that has not begun: the transport is still to be opened.
    pub fn new(room: RoomId) -> (h: Handshake)
        ensures
            h.spec_room() == room,
            h.spec_state() == HandshakeState::Connecting,
    {
        Handshake { room, state: HandshakeState::Connecting }
    }

    /// Begins an exchange from the room identifier as the operator typed it.
    /// A text that is no version-4 UUID fails here, before anything is sent.
    pub fn begin(room_text: &str) -> (r: Result<Handshake, Failure>)
        ensures
            r is Ok <==> (crate::room::uuid_parsed(crate::text::trimmed(room_text@)) matches Some(v)
                && crate::room::is_version_4(v)),
            r matches Ok(h) ==> {
                &&& h.spec_state() == HandshakeState::Connecting
                &&& crate::room::uuid_parsed(crate::text::trimmed(room_text@)) == Some(
                    h.spec_room().spec_value(),
                )
            },
            r is Err ==> (r matches Err(Failure::InvalidRoomId(t)) && t@ == crate::text::trimmed(
                room_text@,
            )),
    {
        match RoomId::parse(room_text) {
            Ok(room) => Ok(Handshake::new(room)),
            Err(e) => Err(e),
        }
    }

    /// The room being joined.
    pub fn room(&self) -> (room: RoomId)
        ensures
            room == self.spec_room(),
    {
        self.room
    }

    /// Where the exchange stands.
    pub fn state(&self) -> (s: HandshakeState)
        ensures
            s == self.spec_state(),
    {
        self.state
    }

    /// Whether streaming may begin: only once the room is joined.
    pub fn may_stream(&self) -> (b: bool)
        ensures
            b == (self.spec_state() == HandshakeState::Joined),
    {
        self.state == HandshakeState::Joined
    }

    /// The wire text of the join request for the room.
    pub fn join_request(&self) -> (s: String)
        ensures
            s@ == crate::codec::join_text(self.spec_room().spec_value()),
    {
        ClientMessage::JoinRoom(self.room).encode()
    }

    /// Takes one event of the connection and says what to do next.
    pub fn on_event(&mut self, event: Event) -> (d: Directive)
        ensures
            final(self).spec_room() == old(self).spec_room(),
            final(self).spec_state() == next_state(old(self).spec_state(), event),
            d == directive_for(old(self).spec_state(), event),
    {
        let (state, directive) = step(self.state, event);
        self.state = state;
        directive
    }

    /// Takes one text frame from the server: decodes it and treats it as a
    /// received message.
    pub fn on_text(&mut self, text: &str) -> (d: Directive)
        ensures
            final(self).spec_room() == old(self).spec_room(),
            final(self).spec_state() == next_state(
                old(self).spec_state(),
                Event::Received(decoded(text@)),
            ),
            d == directive_for(old(self).spec_state(), Event::Received(decoded(text@))),
    {
        let message = decode(text);
        self.on_event(Event::Received(message))
    }

    /// The failure that ends the run in this state, if the state is one of
    /// failure: an unknown room or a lost connection, each with the room id.
    pub fn failure(&self) -> (f: Option<Failure>)
        ensures
            match self.spec_state() {
                HandshakeState::Rejected => f matches Some(Failure::RoomNotFound(t)) && t@
                    == crate::room::hyphenated(self.spec_room().spec_value()),
                HandshakeState::Disconnected => f matches Some(Failure::Disconnected(t)) && t@
                    == crate::room::hyphenated(self.spec_room().spec_value()),
                _ => f is None,
            },
    {
        match self.state {
            HandshakeState::Rejected => Some(Failure::RoomNotFound(self.room.to_text())),
            HandshakeState::Disconnected => Some(Failure::Disconnected(self.room.to_text())),
            _ => None,
        }
    }
}

/// Whether every event is a message to be ignored.
pub open spec fn all_ignored(events: Seq<Event>) -> bool {
    forall|i: int| 0 <= i < events.len() ==> #[trigger] events[i] == Event::Received(
        ServerMessage::Other,
    )
}

/// Whether a state ends the exchange.
pub open spec fn is_terminal(state: HandshakeState) -> bool {
    state == HandshakeState::Joined || state == HandshakeState::Rejected || state
        == HandshakeState::Disconnected
}

/// Events taken one after another: first those of `a`, then those of `b` from
/// where `a` left the exchange.
pub proof fn lemma_events_in_sequence(state: HandshakeState, a: Seq<Event>, b: Seq<Event>)
    ensures
        state_after(state, a + b) == state_after(state_after(state, a), b),
        directives_for(state, a + b) == directives_for(state, a) + directives_for(
            state_after(state, a),
            b,
        ),
    decreases b.len(),
{
    if b.len() == 0 {
        assert(a + b =~= a);
        assert(directives_for(state, a) + Seq::<Directive>::empty() =~= directives_for(state, a));
    } else {
        assert((a + b).drop_last() =~= a + b.drop_last());
        assert((a + b).last() == b.last());
        lemma_events_in_sequence(state, a, b.drop_last());
        assert(directives_for(state, a + b) =~= directives_for(state, a) + directives_for(
            state_after(state, a),
            b,
        ));
    }
}

/// The exchange of a single event.
pub proof fn lemma_single_event(state: HandshakeState, event: Event)
    ensures
        state_after(state, seq![event]) == next_state(state, event),
        directives_for(state, seq![event]) == seq![directive_for(state, event)],
{
    let one = seq![event];
    assert(one.drop_last() =~= Seq::<Event>::empty());
    assert(one.last() == event);
    assert(state_after(state, one.drop_last()) == state);
    assert(directives_for(state, one.drop_last()) =~= Seq::<Directive>::empty());
    assert(directives_for(state, one) =~= seq![directive_for(state, event)]);
}

/// A terminal state is final: whatever happens afterwards, the state stays
/// and nothing more is asked of the caller.
pub proof fn lemma_terminal_is_final(state: HandshakeState, events: Seq<Event>)
    requires
        is_terminal(state),
    ensures
        state_after(state, events) == state,
        directives_for(state, events).len() == events.len(),
        forall|i: int|
            0 <= i < events.len() ==> #[trigger] directives_for(state, events)[i]
                == Directive::Stop,
    decreases events.len(),
{
    if events.len() > 0 {
        lemma_terminal_is_final(state, events.drop_last());
    }
}

/// Messages that are neither a confirmation nor a rejection are discarded:
/// the exchange keeps waiting and asks for the next message.
pub proof fn lemma_ignored_messages_keep_waiting(events: Seq<Event>)
    requires
        all_ignored(events),
    ensures
        state_after(HandshakeState::AwaitingJoinAck, events) == HandshakeState::AwaitingJoinAck,
        directives_for(HandshakeState::AwaitingJoinAck, events).len() == events.len(),
        forall|i: int|
            0 <= i < events.len() ==> #[trigger] directives_for(
                HandshakeState::AwaitingJoinAck,
                events,
            )[i] == Directive::Read,
    decreases events.len(),
{
    if events.len() > 0 {
        assert(all_ignored(events.drop_last())) by {
            assert forall|i: int| 0 <= i < events.drop_last().len() implies #[trigger] events.drop_last()[i]
                == Event::Received(ServerMessage::Other) by {
                assert(events.drop_last()[i] == events[i]);
            }
        }
        assert(events.last() == events[events.len() - 1]);
        lemma_ignored_messages_keep_waiting(events.drop_last());
    }
}

/// A server that answers the join request with "room not found", after any
/// number of messages to be ignored, leaves the exchange rejected for good:
/// whatever follows, the state is `Rejected` and the caller is never told to
/// stream.
pub proof fn lemma_unknown_room_never_streams(ignored: Seq<Event>, later: Seq<Event>)
    requires
        all_ignored(ignored),
    ensures
        ({
            let events = seq![Event::Connected] + ignored + seq![
                Event::Received(ServerMessage::RoomNotFound),
            ] + later;
            &&& state_after(HandshakeState::Connecting, events) == HandshakeState::Rejected
            &&& directives_for(HandshakeState::Connecting, events).len() == events.len()
            &&& forall|i: int|
                0 <= i < events.len() ==> #[trigger] directives_for(
                    HandshakeState::Connecting,
                    events,
                )[i] != Directive::Stream
        }),
{
    let start = HandshakeState::Connecting;
    let waiting = HandshakeState::AwaitingJoinAck;
    let opened = seq![Event::Connected];
    let refusal = seq![Event::Received(ServerMessage::RoomNotFound)];
    lemma_single_event(start, Event::Connected);
    lemma_ignored_messages_keep_waiting(ignored);
    lemma_events_in_sequence(start, opened, ignored);
    lemma_single_event(waiting, Event::Received(ServerMessage::RoomNotFound));
    lemma_events_in_sequence(start, opened + ignored, refusal);
    lemma_terminal_is_final(HandshakeState::Rejected, later);
    lemma_events_in_sequence(start, opened + ignored + refusal, later);
}

/// A server that answers the join request with a confirmation, after any
/// number of messages to be ignored, brings the exchange to `Joined`, and the
/// confirmation is answered by the directive to stream. Up to then the caller
/// is told to send the join request and to read, nothing else.
pub proof fn lemma_confirmed_join_streams(ignored: Seq<Event>)
    requires
        all_ignored(ignored),
    ensures
        ({
            let events = seq![Event::Connected] + ignored + seq![
                Event::Received(ServerMessage::Join),
            ];
            &&& state_after(HandshakeState::Connecting, events) == HandshakeState::Joined
            &&& directives_for(HandshakeState::Connecting, events) == seq![Directive::SendJoin]
                + Seq::new(ignored.len(), |i: int| Directive::Read) + seq![Directive::Stream]
        }),
{
    let start = HandshakeState::Connecting;
    let waiting = HandshakeState::AwaitingJoinAck;
    let opened = seq![Event::Connected];
    let confirmation = seq![Event::Received(ServerMessage::Join)];
    lemma_single_event(start, Event::Connected);
    lemma_ignored_messages_keep_waiting(ignored);
    lemma_events_in_sequence(start, opened, ignored);
    lemma_single_event(waiting, Event::Received(ServerMessage::Join));
    lemma_events_in_sequence(start, opened + ignored, confirmation);
    assert(directives_for(waiting, ignored) =~= Seq::new(ignored.len(), |i: int| Directive::Read));
}

/// The caller is told to stream in one situation only: a confirmation arrives
/// while the join request is unanswered. And only that brings the exchange to
/// `Joined`.
pub proof fn lemma_stream_only_on_join(state: HandshakeState, event: Event)
    ensures
        directive_for(state, event) == Directive::Stream <==> state
            == HandshakeState::AwaitingJoinAck && event == Event::Received(ServerMessage::Join),
        state != HandshakeState::Joined ==> (next_state(state, event) == HandshakeState::Joined
            <==> state == HandshakeState::AwaitingJoinAck && event == Event::Received(
            ServerMessage::Join,
        )),
{
}

} // verus!
