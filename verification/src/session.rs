//! The connection to the relay: resolve, connect, join a room, serve it, and start over when
//! anything goes wrong. The caller does the talking; a session says what comes next.

use crate::client::{ClientState, ClientView, Sound};
use crate::protocol::{ClientMessage, ServerMessage, MAX_CONTROL_MESSAGE_SIZE};
use crate::types::Channels;
use std::collections::HashMap;
use vstd::prelude::*;
use vstd::string::{StrSliceExecFns, StringExecFns};

verus! {

/// How long a session rests after a failed attempt to join.
pub const RETRY_MILLIS: u64 = 2000;

/// How long a session rests after it lost a room.
pub const RECONNECT_MILLIS: u64 = 500;

/// Where a session stands.
#[derive(Debug, Clone, Copy, PartialEq, Eq, Structural)]
pub enum NetPhase {
    /// Waiting before the next attempt.
    Resting,
    Resolving,
    Connecting,
    /// Opening the control stream.
    Opening,
    /// Waiting for the length of the relay's answer.
    Greeting,
    /// Waiting for the relay's answer.
    Reading,
    /// In the room.
    Running,
    /// In the room, in the middle of a control message.
    Filling,
    /// Left for good.
    Done,
}

/// What happened to a session.
#[derive(Debug, Clone, PartialEq, Eq)]
pub enum NetEvent {
    /// The rest is over.
    Rested,
    /// The host's addresses: of each, whether it is an IPv6 address.
    Resolved(Vec<bool>),
    Connected,
    Opened,
    /// The length of a control message has come in.
    Length(u32),
    /// A control message has come in, if it could be made sense of.
    Body(Option<ServerMessage>),
    /// Something to tell the relay.
    Report(ClientMessage),
    /// A datagram has come in.
    Datagram(Vec<u8>),
    /// The user wants to leave.
    Disconnect,
    /// What was asked for did not work, or the connection broke.
    Failed,
}

/// What a session wants done.
#[derive(Debug, Clone, PartialEq, Eq)]
pub enum NetAction {
    /// Wait, with a sound if there is one.
    Rest { millis: u64, sound: Option<Sound> },
    Resolve(String),
    /// Connect to the address with this index.
    Connect(usize),
    /// Open a control stream. The peers of an earlier room are forgotten.
    Open,
    /// Send a control message, then wait for what comes.
    Send(ClientMessage),
    /// Read so many bytes of a control message.
    ReadBody(usize),
    /// Take an audio datagram in, then wait for what comes.
    Hear(Vec<u8>),
    /// Take a control message in, then wait for what comes.
    Serve(ServerMessage),
    /// Wait for what comes.
    Listen,
    /// Send a last control message and quit.
    Leave(ClientMessage),
}

/// A session with the relay.
pub struct Session {
    pub host_port: String,
    pub room_name: String,
    /// The layout that the microphone had when the session was made.
    pub channels: Channels,
    pub phase: NetPhase,
    /// Whether there is a connection that audio can be sent over.
    pub connected: bool,
}

/// The address of a host: port 39201, unless the host names a port itself.
pub open spec fn with_port(host: Seq<char>) -> Seq<char> {
    if host.contains(':') {
        host
    } else {
        host + ":39201"@
    }
}

pub fn host_port(host: &String) -> (address: String)
    ensures
        address@ == with_port(host@),
{
    let len: usize = host.as_str().unicode_len();
    let mut i: usize = 0;
    while i < len
        invariant
            i <= len == host@.len(),
            forall|j: int| 0 <= j < i ==> host@[j] != ':',
        decreases len - i,
    {
        if host.as_str().get_char(i) == ':' {
            assert(host@[i as int] == ':');
            return host.clone();
        }
        i = i + 1;
    }
    let mut address = host.clone();
    address.append(":39201");
    address
}

/// The preferred address is the first IPv6 one, or else the first.
pub open spec fn preferred(families: Seq<bool>) -> Option<int> {
    if families.len() == 0 {
        None
    } else if families.contains(true) {
        Some(families.index_of_first(true)->Some_0)
    } else {
        Some(0)
    }
}

pub fn pick_address(families: &Vec<bool>) -> (index: Option<usize>)
    ensures
        match index {
            Some(i) => preferred(families@) == Some(i as int) && i < families@.len(),
            None => preferred(families@) is None,
        },
{
    if families.len() == 0 {
        return None;
    }
    let mut i: usize = 0;
    while i < families.len()
        invariant
            i <= families@.len(),
            forall|j: int| 0 <= j < i ==> !families@[j],
        decreases families@.len() - i,
    {
        if families[i] {
            proof {
                families@.index_of_first_ensures(true);
                let first = families@.index_of_first(true)->Some_0;
                assert(families@[i as int]);
                assert(first == i) by {
                    if first < i {
                        assert(!families@[first]);
                    }
                }
            }
            return Some(i);
        }
        i = i + 1;
    }
    Some(0)
}

impl Session {
    /// There is a connection in the phases that need one, and in no others.
    pub open spec fn wf(&self) -> bool {
        self.connected == (self.phase is Opening || self.phase is Greeting || self.phase is Reading
            || self.phase is Running || self.phase is Filling)
    }

    /// An attempt to join has failed.
    pub open spec fn refused(self) -> (Self, NetAction) {
        (
            Session { phase: NetPhase::Resting, connected: false, ..self },
            NetAction::Rest { millis: RETRY_MILLIS, sound: None },
        )
    }

    /// The room is lost.
    pub open spec fn interrupted(self) -> (Self, NetAction) {
        (
            Session { phase: NetPhase::Resting, connected: false, ..self },
            NetAction::Rest { millis: RECONNECT_MILLIS, sound: Some(Sound::Error) },
        )
    }

    /// The request to join the room.
    pub open spec fn request(self) -> ClientMessage {
        ClientMessage::JoinRoom {
            room_name: self.room_name,
            channels: self.channels.width() as u8,
        }
    }

    /// The events that can come in a phase.
    pub open spec fn expects(self, event: NetEvent) -> bool {
        match self.phase {
            NetPhase::Resting => event is Rested,
            NetPhase::Resolving => event is Resolved || event is Failed,
            NetPhase::Connecting => event is Connected || event is Failed,
            NetPhase::Opening => event is Opened || event is Failed,
            NetPhase::Greeting => event is Length || event is Failed,
            NetPhase::Reading | NetPhase::Filling => event is Body || event is Failed,
            NetPhase::Running => event is Length || event is Report || event is Datagram
                || event is Disconnect || event is Failed,
            NetPhase::Done => false,
        }
    }

    /// What comes next.
    pub open spec fn next(self, event: NetEvent) -> (Self, NetAction) {
        match (self.phase, event) {
            (NetPhase::Resting, _) => (
                Session { phase: NetPhase::Resolving, ..self },
                NetAction::Resolve(self.host_port),
            ),
            (NetPhase::Resolving, NetEvent::Resolved(families)) => match preferred(families@) {
                Some(index) => (
                    Session { phase: NetPhase::Connecting, ..self },
                    NetAction::Connect(index as usize),
                ),
                None => self.refused(),
            },
            (NetPhase::Connecting, NetEvent::Connected) => (
                Session { phase: NetPhase::Opening, connected: true, ..self },
                NetAction::Open,
            ),
            (NetPhase::Opening, NetEvent::Opened) => (
                Session { phase: NetPhase::Greeting, ..self },
                NetAction::Send(self.request()),
            ),
            (NetPhase::Greeting, NetEvent::Length(len)) => (
                Session { phase: NetPhase::Reading, ..self },
                NetAction::ReadBody(len as usize),
            ),
            (
                NetPhase::Reading,
                NetEvent::Body(Some(ServerMessage::RoomJoined { .. })),
            ) => (Session { phase: NetPhase::Running, ..self }, NetAction::Listen),
            (NetPhase::Running, NetEvent::Disconnect) => (
                Session { phase: NetPhase::Done, connected: false, ..self },
                NetAction::Leave(ClientMessage::LeaveRoom),
            ),
            (NetPhase::Running, NetEvent::Report(msg)) => (self, NetAction::Send(msg)),
            (NetPhase::Running, NetEvent::Datagram(data)) => (self, NetAction::Hear(data)),
            (NetPhase::Running, NetEvent::Length(len)) => if len <= MAX_CONTROL_MESSAGE_SIZE {
                (
                    Session { phase: NetPhase::Filling, ..self },
                    NetAction::ReadBody(len as usize),
                )
            } else {
                self.interrupted()
            },
            (NetPhase::Filling, NetEvent::Body(body)) => (
                Session { phase: NetPhase::Running, ..self },
                match body {
                    Some(msg) => NetAction::Serve(msg),
                    None => NetAction::Listen,
                },
            ),
            (NetPhase::Running, _) | (NetPhase::Filling, _) => self.interrupted(),
            _ => self.refused(),
        }
    }

    /// A session that is about to make its first attempt.
    pub fn new(server_host: &String, room_name: String, channels: Channels) -> (session: Self)
        ensures
            session.wf(),
            session.phase is Resting,
            session.host_port@ == with_port(server_host@),
            session.room_name == room_name,
            session.channels == channels,
    {
        Session {
            host_port: host_port(server_host),
            room_name,
            channels,
            phase: NetPhase::Resting,
            connected: false,
        }
    }

    /// Gives up an attempt to join.
    fn refuse(&mut self) -> (action: NetAction)
        ensures
            (*final(self), action) == old(self).refused(),
    {
        self.phase = NetPhase::Resting;
        self.connected = false;
        NetAction::Rest { millis: RETRY_MILLIS, sound: None }
    }

    /// Gives up a room.
    fn interrupt(&mut self) -> (action: NetAction)
        ensures
            (*final(self), action) == old(self).interrupted(),
    {
        self.phase = NetPhase::Resting;
        self.connected = false;
        NetAction::Rest { millis: RECONNECT_MILLIS, sound: Some(Sound::Error) }
    }

    /// Takes an event in and says what to do.
    pub fn step(&mut self, event: NetEvent) -> (action: NetAction)
        requires
            old(self).wf(),
            old(self).expects(event),
        ensures
            (*final(self), action) == old(self).next(event),
            final(self).wf(),
    {
        match (self.phase, event) {
            (NetPhase::Resting, _) => {
                self.phase = NetPhase::Resolving;
                NetAction::Resolve(self.host_port.clone())
            },
            (NetPhase::Resolving, NetEvent::Resolved(families)) => match pick_address(&families) {
                Some(index) => {
                    self.phase = NetPhase::Connecting;
                    NetAction::Connect(index)
                },
                None => self.refuse(),
            },
            (NetPhase::Connecting, NetEvent::Connected) => {
                self.phase = NetPhase::Opening;
                self.connected = true;
                NetAction::Open
            },
            (NetPhase::Opening, NetEvent::Opened) => {
                self.phase = NetPhase::Greeting;
                let channels: u8 = match self.channels {
                    Channels::Mono => 1,
                    Channels::Stereo => 2,
                };
                NetAction::Send(
                    ClientMessage::JoinRoom { room_name: self.room_name.clone(), channels },
                )
            },
            (NetPhase::Greeting, NetEvent::Length(len)) => {
                self.phase = NetPhase::Reading;
                NetAction::ReadBody(len as usize)
            },
            (NetPhase::Reading, NetEvent::Body(Some(ServerMessage::RoomJoined { .. }))) => {
                self.phase = NetPhase::Running;
                NetAction::Listen
            },
            (NetPhase::Running, NetEvent::Disconnect) => {
                self.phase = NetPhase::Done;
                self.connected = false;
                NetAction::Leave(ClientMessage::LeaveRoom)
            },
            (NetPhase::Running, NetEvent::Report(msg)) => NetAction::Send(msg),
            (NetPhase::Running, NetEvent::Datagram(data)) => NetAction::Hear(data),
            (NetPhase::Running, NetEvent::Length(len)) => {
                if len as usize <= MAX_CONTROL_MESSAGE_SIZE {
                    self.phase = NetPhase::Filling;
                    NetAction::ReadBody(len as usize)
                } else {
                    self.interrupt()
                }
            },
            (NetPhase::Filling, NetEvent::Body(body)) => {
                self.phase = NetPhase::Running;
                match body {
                    Some(msg) => NetAction::Serve(msg),
                    None => NetAction::Listen,
                }
            },
            (NetPhase::Running, _) | (NetPhase::Filling, _) => self.interrupt(),
            _ => self.refuse(),
        }
    }

    /// Takes an event in for a client and what belongs to its peers, and says what to do. A new
    /// connection starts with no peers.
    pub fn attend<S: Copy, V>(
        &mut self,
        client: &mut ClientState<S>,
        voices: &mut HashMap<u32, V>,
        event: NetEvent,
    ) -> (action: NetAction)
        requires
            old(self).wf(),
            old(self).expects(event),
            old(client).wf(),
        ensures
            (*final(self), action) == old(self).next(event),
            final(self).wf(),
            final(client).wf(),
            final(client)@ == met(old(client)@, action),
            final(voices)@ == if action is Open {
                Map::<u32, V>::empty()
            } else {
                old(voices)@
            },
    {
        let action = self.step(event);
        if matches!(action, NetAction::Open) {
            client.clear_peers();
            voices.clear();
        }
        action
    }

    /// Where a series of events leads.
    pub open spec fn after(self, events: Seq<NetEvent>) -> Self
        decreases events.len(),
    {
        if events.len() == 0 {
            self
        } else {
            self.after(events.drop_last()).next(events.last()).0
        }
    }

    /// The events can come, one behind the other, and none of them ends the connection.
    pub open spec fn stays_connected(self, events: Seq<NetEvent>) -> bool
        decreases events.len(),
    {
        &&& self.after(events).connected
        &&& events.len() > 0 ==> {
            &&& self.stays_connected(events.drop_last())
            &&& self.after(events.drop_last()).expects(events.last())
        }
    }
}

/// The state of a client once an action is carried out on it: with a new connection its peers are
/// gone.
pub open spec fn met<S>(v: ClientView<S>, action: NetAction) -> ClientView<S> {
    if action is Open {
        ClientView { peers: Map::empty(), ..v }
    } else {
        v
    }
}

/// A new connection starts with no peers, whoever was there before.
pub proof fn law_connection_starts_empty<S>(session: Session, event: NetEvent, v: ClientView<S>)
    requires
        session.wf(),
        session.expects(event),
    ensures
        session.next(event).0.connected && !session.connected ==> met(
            v,
            session.next(event).1,
        ).peers == Map::<u32, crate::peer_model::PeerView<S>>::empty(),
        !(session.next(event).0.connected && !session.connected) ==> met(v, session.next(event).1)
            == v,
{
}

/// Where a connection stands after a series of events that it survived.
proof fn lemma_connection_goes_on(session: Session, events: Seq<NetEvent>)
    requires
        session.wf(),
        session.phase is Opening,
        session.stays_connected(events),
    ensures
        session.after(events) == (Session { phase: session.after(events).phase, ..session }),
        events.len() == 0 ==> session.after(events).phase is Opening,
        events.len() == 1 ==> session.after(events).phase is Greeting,
        events.len() == 2 ==> session.after(events).phase is Reading,
        events.len() > 2 ==> {
            &&& session.after(events).phase is Running || session.after(events).phase is Filling
            &&& events[2] matches NetEvent::Body(Some(msg)) && msg is RoomJoined
        },
        events.len() > 0 ==> events[0] is Opened,
    decreases events.len(),
{
    if events.len() > 0 {
        let earlier = events.drop_last();
        lemma_connection_goes_on(session, earlier);
        if events.len() > 1 {
            assert(earlier[0] == events[0]);
        }
        if events.len() > 3 {
            assert(earlier[2] == events[2]);
        }
    }
}

/// The first message of a connection is the request to join the room, and nothing is taken in for
/// the client before the relay has answered that the room was joined.
pub proof fn law_connection_joins_first(
    session: Session,
    events: Seq<NetEvent>,
    event: NetEvent,
)
    requires
        session.wf(),
        session.phase is Opening,
        session.stays_connected(events),
        session.after(events).expects(event),
    ensures
        ({
            let action = session.after(events).next(event).1;
            &&& events.len() == 0 ==> action == NetAction::Send(session.request()) || action is Rest
            &&& action is Send && events.len() > 0 ==> session.next(events[0]).1
                == NetAction::Send(session.request())
            &&& action is Hear || action is Serve ==> events.len() > 2 && (
            events[2] matches NetEvent::Body(Some(msg)) && msg is RoomJoined)
        }),
{
    lemma_connection_goes_on(session, events);
}

/// The preferred address is one of those that there are; it is an IPv6 address if there is any,
/// and no address of the same kind comes before it.
pub proof fn law_preferred_address(families: Seq<bool>)
    requires
        families.len() > 0,
    ensures
        preferred(families) matches Some(i) && 0 <= i < families.len() && families[i]
            == families.contains(true) && forall|j: int|
            0 <= j < i ==> families[j] != families[i],
{
    families.index_of_first_ensures(true);
}

/// A session ends only when the user asks for it, and then at once: the last thing to do is to
/// tell the relay. Whatever else goes wrong, it rests and tries again.
pub proof fn law_session_ends_on_request_only(session: Session, event: NetEvent)
    requires
        session.expects(event),
    ensures
        session.next(event).0.phase is Done <==> event is Disconnect,
        session.next(event).0.phase is Done <==> session.next(event).1 == NetAction::Leave(
            ClientMessage::LeaveRoom,
        ),
        event is Failed ==> session.next(event).0.phase is Resting
            && !session.next(event).0.connected,
        session.next(event).0.phase is Resting <==> session.next(event).1 is Rest,
{
}

/// Every phase but the last can go on: a session is never stuck.
pub proof fn law_session_is_never_stuck(session: Session)
    requires
        !(session.phase is Done),
    ensures
        exists|event: NetEvent| session.expects(event),
{
    if session.phase is Resting {
        assert(session.expects(NetEvent::Rested));
    } else {
        assert(session.expects(NetEvent::Failed));
    }
}

/// The user hears of a connection that broke, not of an attempt that failed; and the pause is
/// shorter after the former.
pub proof fn law_lost_room_is_heard(session: Session, event: NetEvent)
    requires
        session.expects(event),
        session.next(event).1 is Rest,
    ensures
        session.next(event).1 == if session.phase is Running || session.phase is Filling {
            NetAction::Rest { millis: RECONNECT_MILLIS, sound: Some(Sound::Error) }
        } else {
            NetAction::Rest { millis: RETRY_MILLIS, sound: None }
        },
{
}

/// In a room, no control message beyond the limit is ever read.
pub proof fn law_large_messages_are_not_read(session: Session, len: u32)
    requires
        session.phase is Running,
    ensures
        session.next(NetEvent::Length(len)).1 is ReadBody <==> len <= MAX_CONTROL_MESSAGE_SIZE,
        len > MAX_CONTROL_MESSAGE_SIZE ==> session.next(NetEvent::Length(len))
            == session.interrupted(),
{
}

/// Audio and control messages are taken in only in a room.
pub proof fn law_only_members_are_served(session: Session, event: NetEvent)
    requires
        session.expects(event),
        session.next(event).1 is Hear || session.next(event).1 is Serve,
    ensures
        session.phase is Running || session.phase is Filling,
        session.next(event).0.phase is Running,
{
}

/// Only the answer that the room was joined lets a session in.
pub proof fn law_joining_takes_an_answer(session: Session, event: NetEvent)
    requires
        session.expects(event),
        !(session.phase is Running) && !(session.phase is Filling),
        session.next(event).0.phase is Running,
    ensures
        session.phase is Reading,
        event matches NetEvent::Body(Some(msg)) && msg is RoomJoined,
{
}

/// When all goes well, a session is in the room after six steps, and the relay was asked for the
/// room that the user wanted.
pub proof fn law_session_joins(session: Session, families: Vec<bool>, len: u32, msg: ServerMessage)
    requires
        session.phase is Resting,
        families@.len() > 0,
        msg is RoomJoined,
    ensures
        ({
            let (resolving, first) = session.next(NetEvent::Rested);
            let (connecting, second) = resolving.next(NetEvent::Resolved(families));
            let (opening, third) = connecting.next(NetEvent::Connected);
            let (greeting, fourth) = opening.next(NetEvent::Opened);
            let (reading, fifth) = greeting.next(NetEvent::Length(len));
            let (running, sixth) = reading.next(NetEvent::Body(Some(msg)));
            &&& first == NetAction::Resolve(session.host_port)
            &&& second is Connect
            &&& third is Open
            &&& fourth == NetAction::Send(session.request())
            &&& fifth == NetAction::ReadBody(len as usize)
            &&& sixth is Listen
            &&& running == Session { phase: NetPhase::Running, connected: true, ..session }
        }),
{
}

} // verus!
