//! What holds of a session with the relay, phase by phase.

use crate::client::Sound;
use crate::protocol::{ClientMessage, ServerMessage};
use crate::session::{NetAction, NetEvent, NetPhase, Session};
use vstd::prelude::*;

verus! {

/// In a room, every control message that could be read is served as it came, and the session
/// listens on; one that made no sense is passed over.
pub proof fn law_control_messages_are_served(session: Session, msg: ServerMessage)
    requires
        session.phase is Filling,
    ensures
        session.next(NetEvent::Body(Some(msg))) == (
            Session { phase: NetPhase::Running, ..session },
            NetAction::Serve(msg),
        ),
        session.next(NetEvent::Body(None)) == (
            Session { phase: NetPhase::Running, ..session },
            NetAction::Listen,
        ),
{
}

/// In a room, every datagram is heard and every report is sent, as it came and at once.
pub proof fn law_members_hear_and_report(session: Session, data: Vec<u8>, msg: ClientMessage)
    requires
        session.phase is Running,
    ensures
        session.next(NetEvent::Datagram(data)) == (session, NetAction::Hear(data)),
        session.next(NetEvent::Report(msg)) == (session, NetAction::Send(msg)),
{
}

/// In a room, a control message of at most 65536 bytes is read whole. A longer one ends the
/// connection.
pub proof fn law_members_read_messages_whole(session: Session, len: u32)
    requires
        session.phase is Running,
    ensures
        len <= 65536 ==> session.next(NetEvent::Length(len)) == (
            Session { phase: NetPhase::Filling, ..session },
            NetAction::ReadBody(len as usize),
        ),
        len > 65536 ==> session.next(NetEvent::Length(len)) == session.next(NetEvent::Failed),
{
}

/// A session that loses its room rests for half a second, with the sound of an error; an attempt
/// that fails earlier rests for two seconds and is not heard. Either way the connection is gone.
pub proof fn law_failures_are_rested_off(session: Session)
    requires
        session.expects(NetEvent::Failed),
    ensures
        ({
            let (after, action) = session.next(NetEvent::Failed);
            &&& after == (Session { phase: NetPhase::Resting, connected: false, ..session })
            &&& action == if session.phase is Running || session.phase is Filling {
                NetAction::Rest { millis: 500, sound: Some(Sound::Error) }
            } else {
                NetAction::Rest { millis: 2000, sound: None }
            }
        }),
{
}

/// After a rest the host is looked up again.
pub proof fn law_rest_ends_with_another_attempt(session: Session)
    requires
        session.phase is Resting,
    ensures
        session.next(NetEvent::Rested) == (
            Session { phase: NetPhase::Resolving, ..session },
            NetAction::Resolve(session.host_port),
        ),
{
}

/// Of the addresses of a host, the first IPv6 one is connected to, or else the first; without any
/// the attempt has failed.
pub proof fn law_an_address_is_picked(session: Session, families: Vec<bool>, index: int)
    requires
        session.phase is Resolving,
        0 <= index < families@.len(),
        forall|i: int| 0 <= i < index ==> !families@[i],
        families@[index] || (index == 0 && forall|i: int| 0 <= i < families@.len() ==> !families@[i]),
    ensures
        session.next(NetEvent::Resolved(families)) == (
            Session { phase: NetPhase::Connecting, ..session },
            NetAction::Connect(index as usize),
        ),
{
    families@.index_of_first_ensures(true);
    if families@[index] {
        assert(families@.contains(true));
        let first = families@.index_of_first(true)->Some_0;
        assert(first == index) by {
            if first < index {
                assert(!families@[first]);
            }
        }
    } else if families@.contains(true) {
        let i = choose|i: int| 0 <= i < families@.len() && families@[i] == true;
        assert(!families@[i]);
    }
}

/// A host without addresses is an attempt that has failed.
pub proof fn law_hosts_without_addresses_fail(session: Session, families: Vec<bool>)
    requires
        session.phase is Resolving,
        families@.len() == 0,
    ensures
        session.next(NetEvent::Resolved(families)) == session.next(NetEvent::Failed),
{
}

/// A connection is opened once it is made, and then asks for the room that the user wanted, with
/// the channels of the microphone: two for stereo, one for mono.
pub proof fn law_connections_ask_for_the_room(session: Session)
    ensures
        session.phase is Connecting ==> session.next(NetEvent::Connected) == (
            Session { phase: NetPhase::Opening, connected: true, ..session },
            NetAction::Open,
        ),
        session.phase is Opening ==> session.next(NetEvent::Opened) == (
            Session { phase: NetPhase::Greeting, ..session },
            NetAction::Send(
                ClientMessage::JoinRoom {
                    room_name: session.room_name,
                    channels: if session.channels is Stereo {
                        2
                    } else {
                        1
                    },
                },
            ),
        ),
{
}

/// The relay's answer is read whole, whatever its length, and lets the session in exactly when it
/// says that the room was joined; with any other the attempt has failed.
pub proof fn law_the_answer_decides(session: Session, len: u32, body: Option<ServerMessage>)
    ensures
        session.phase is Greeting ==> session.next(NetEvent::Length(len)) == (
            Session { phase: NetPhase::Reading, ..session },
            NetAction::ReadBody(len as usize),
        ),
        session.phase is Reading ==> session.next(NetEvent::Body(body)) == if body matches Some(
            msg,
        ) && msg is RoomJoined {
            (Session { phase: NetPhase::Running, ..session }, NetAction::Listen)
        } else {
            session.next(NetEvent::Failed)
        },
{
}

/// A user who leaves says so to the relay, and the session is over.
pub proof fn law_leaving_is_said(session: Session)
    requires
        session.phase is Running,
    ensures
        session.next(NetEvent::Disconnect) == (
            Session { phase: NetPhase::Done, connected: false, ..session },
            NetAction::Leave(ClientMessage::LeaveRoom),
        ),
{
}

/// Whatever happens, a session keeps to its host, its room and its channels.
pub proof fn law_sessions_keep_to_their_room(session: Session, event: NetEvent)
    ensures
        session.next(event).0.host_port == session.host_port,
        session.next(event).0.room_name == session.room_name,
        session.next(event).0.channels == session.channels,
{
}

/// A session has a connection from the moment it is made until it fails or is given up, and at no
/// other time.
pub proof fn law_connections_last(session: Session, event: NetEvent)
    requires
        session.wf(),
        session.expects(event),
    ensures
        session.next(event).0.wf(),
        session.next(event).0.connected && !session.connected ==> event is Connected,
        session.connected && !session.next(event).0.connected ==> session.next(event).1 is Rest
            || session.next(event).1 is Leave,
{
}

/// In each phase the session waits for what it asked for, or for a failure; in a room also for
/// whatever comes.
pub proof fn law_sessions_wait_for_what_they_asked_for(session: Session, event: NetEvent)
    ensures
        session.expects(event) == match event {
            NetEvent::Rested => session.phase is Resting,
            NetEvent::Resolved(_) => session.phase is Resolving,
            NetEvent::Connected => session.phase is Connecting,
            NetEvent::Opened => session.phase is Opening,
            NetEvent::Length(_) => session.phase is Greeting || session.phase is Running,
            NetEvent::Body(_) => session.phase is Reading || session.phase is Filling,
            NetEvent::Report(_) | NetEvent::Datagram(_) | NetEvent::Disconnect =>
                session.phase is Running,
            NetEvent::Failed => !(session.phase is Resting) && !(session.phase is Done),
        },
{
}

/// A host that names no port is called on port 39201; one that does is called as it is.
pub proof fn law_hosts_have_a_port(host: Seq<char>)
    ensures
        ({
            let address = crate::session::with_port(host);
            &&& address.contains(':')
            &&& host.contains(':') ==> address == host
            &&& !host.contains(':') ==> address == host + seq![':', '3', '9', '2', '0', '1']
        }),
{
    reveal_strlit(":39201");
    assert(":39201"@ =~= seq![':', '3', '9', '2', '0', '1']);
    let address = crate::session::with_port(host);
    if !host.contains(':') {
        assert(address[host.len() as int] == ':');
    }
}

} // verus!
