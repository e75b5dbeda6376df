use exopteron::network::handshake::{
    admit_player, handle_login, reply_to_first_packet, status_reply, FirstReply, HandshakeResult,
    LoginError, PROTOCOL_VERSION,
};
use exopteron::network::ids::{IdPool, NetworkID};
use exopteron::player_count::PlayerCount;
use exopteron::protocol::client::{
    ClientHandshakePacket, ClientLoginPacket, Handshake, LoginRequest, ServerListPing,
};
use exopteron::protocol::io::{ProtocolVersion, String16, Writeable};
use exopteron::protocol::server::ServerHandshakePacket;

fn login(version: i32, name: &str) -> ClientLoginPacket {
    ClientLoginPacket::LoginRequest(LoginRequest {
        protocol_version: version,
        username: String16(name.to_string()),
        unused_1: 0,
        unused_2: 0,
        unused_3: 0,
        unused_4: 0,
        unused_5: 0,
        unused_6: 0,
    })
}

#[test]
fn ping_gets_the_status() {
    let r = reply_to_first_packet(ClientHandshakePacket::ServerListPing(ServerListPing {}));
    assert!(matches!(r, FirstReply::Status));
}

#[test]
fn handshake_gets_the_offline_connection_hash() {
    let r = reply_to_first_packet(ClientHandshakePacket::Handshake(Handshake {
        username: String16("Notch".to_string()),
    }));
    match r {
        FirstReply::Handshake { username, reply } => {
            assert_eq!(username, "Notch");
            let ServerHandshakePacket::Handshake(h) = reply;
            assert_eq!(h.connection_hash.0, "-");
        }
        FirstReply::Status => panic!("a handshake is no ping"),
    }
}

#[test]
fn login_checks_the_protocol_version() {
    let mut ids = IdPool::new();
    let r = handle_login(login(14, "old"), &mut ids);
    assert!(matches!(r, Err(LoginError::WrongProtocolVersion(14))));
    let r = handle_login(login(PROTOCOL_VERSION, "new"), &mut ids).unwrap();
    match r {
        HandshakeResult::Player { username, id } => {
            assert_eq!(username, "new");
            assert_eq!(id, NetworkID(0));
        }
        HandshakeResult::Ping => panic!("a login is no ping"),
    }
}

#[test]
fn status_reply_text() {
    let players = PlayerCount::new(10);
    players.try_add_player().unwrap();
    let reply = status_reply("Hi".to_string(), &players);
    let mut out = Vec::new();
    reply.write(&mut out, ProtocolVersion::Vb1_8_1).unwrap();
    // "Hi§1§10"
    assert_eq!(out, vec![0, 7, 0, b'H', 0, b'i', 0, 0xA7, 0, b'1', 0, 0xA7, 0, b'1', 0, b'0']);
}

#[test]
fn full_server_kicks() {
    let players = PlayerCount::new(1);
    assert!(admit_player(&players).is_none());
    let kick = admit_player(&players).unwrap();
    assert_eq!(kick.reason.0, "The server is full!");
}
