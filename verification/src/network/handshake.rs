//! The decisions of a connection's handshake: a status ping or a login.
use vstd::prelude::*;

use super::ids::{IdPool, NetworkID};
use crate::player_count::PlayerCount;
use crate::protocol::client::{ClientHandshakePacket, ClientLoginPacket};
use crate::protocol::io::{PingData, String16};
use crate::protocol::server::{Handshake, Kick, ServerHandshakePacket};

verus! {

/// The protocol version that the server speaks.
pub const PROTOCOL_VERSION: i32 = 17;

/// What a connection turned out to be.
#[derive(Debug)]
pub enum HandshakeResult {
    /// A player logging in, with the network id given to it.
    Player { username: String, id: NetworkID },
    /// A server list ping, answered.
    Ping,
}

/// How the server answers the first packet of a connection.
#[derive(Debug)]
pub enum FirstReply {
    /// A server list ping: send the status.
    Status,
    /// A login attempt by `username`: send `reply`, then wait for the
    /// login request.
    Handshake { username: String, reply: ServerHandshakePacket },
}

/// Why a login was refused.
#[derive(Debug)]
pub enum LoginError {
    /// The client speaks another protocol version.
    WrongProtocolVersion(i32),
}

/// The answer to the first packet: the status for a ping, else the
/// server's handshake, whose connection hash `-` means that no session is
/// checked.
pub fn reply_to_first_packet(packet: ClientHandshakePacket) -> (r: FirstReply)
    ensures
        packet is ServerListPing ==> r is Status,
        packet matches ClientHandshakePacket::Handshake(h) ==> (r matches FirstReply::Handshake {
            username,
            reply,
        } && username@ == h.username.0@ && (reply matches ServerHandshakePacket::Handshake(s)
            && s.connection_hash.0@ == "-"@)),
{
    match packet {
        ClientHandshakePacket::ServerListPing(_) => FirstReply::Status,
        ClientHandshakePacket::Handshake(handshake) => {
            let reply = ServerHandshakePacket::Handshake(
                Handshake { connection_hash: String16("-".to_owned()) },
            );
            FirstReply::Handshake { username: handshake.username.0, reply }
        },
    }
}

/// Takes the login request: a player of the right protocol version gets the
/// next free network id.
pub fn handle_login(packet: ClientLoginPacket, ids: &mut IdPool) -> (r: Result<
    HandshakeResult,
    LoginError,
>)
    requires
        (packet matches ClientLoginPacket::LoginRequest(l) && l.protocol_version == PROTOCOL_VERSION)
            ==> old(ids).free().len() > 0,
    ensures
        packet matches ClientLoginPacket::LoginRequest(l) ==> {
            &&& l.protocol_version != PROTOCOL_VERSION ==> (r matches Err(
                LoginError::WrongProtocolVersion(v),
            ) && v == l.protocol_version && final(ids).free() == old(ids).free())
            &&& l.protocol_version == PROTOCOL_VERSION ==> (r matches Ok(
                HandshakeResult::Player { username, id },
            ) && username@ == l.username.0@ && id.0 == old(ids).free().last()
                && final(ids).free() == old(ids).free().drop_last())
        },
{
    let ClientLoginPacket::LoginRequest(login_request) = packet;
    if login_request.protocol_version != PROTOCOL_VERSION {
        return Err(LoginError::WrongProtocolVersion(login_request.protocol_version));
    }
    let id = NetworkID::new(ids);
    Ok(HandshakeResult::Player { username: login_request.username.0, id })
}

/// The status that a server list ping gets: the message of the day, the
/// player count and the most players.
pub fn status_reply(motd: String, players: &PlayerCount) -> (r: PingData)
    ensures
        r.deep_view().0 == motd@,
        r.deep_view().2 == players.max() as usize,
{
    PingData::new(motd, players.get() as usize, players.get_max() as usize)
}

/// Counts a new player in; when the server is full, the kick that the
/// player gets instead.
pub fn admit_player(players: &PlayerCount) -> (r: Option<Kick>)
    ensures
        r matches Some(k) ==> k.reason.0@ == "The server is full!"@,
{
    if players.try_add_player().is_err() {
        return Some(Kick { reason: String16("The server is full!".to_owned()) });
    }
    None
}

} // verus!
