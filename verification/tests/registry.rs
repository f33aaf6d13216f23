use phast::packet::{Decoded, PacketType, ReadField, WriteField};
use phast::protocol::registry::{get_protocol, Packet, Protocol, ProtocolType};
use phast::protocol::{Bound, ProtocolEdition, State};
use phast::protocol::java::v1_7;
use phast::protocol::bedrock::raknet;
use phast::types::{raknet_magic, Address, ShortLengthPrefixedString, VarInt,
    VarIntLengthPrefixedString};

#[test]
fn version_table_is_registered() {
    assert_eq!(get_protocol(9), Some(Protocol::ProtocolBedrockRakNet));
    assert_eq!(get_protocol(5), Some(Protocol::ProtocolJava_1_7));
    assert_eq!(get_protocol(47), Some(Protocol::ProtocolJava_1_8));
    assert_eq!(get_protocol(110), Some(Protocol::ProtocolJava_1_9));
    assert_eq!(get_protocol(210), Some(Protocol::ProtocolJava_1_10));
    assert_eq!(get_protocol(316), Some(Protocol::ProtocolJava_1_11));
    assert_eq!(get_protocol(340), Some(Protocol::ProtocolJava_1_12));
    assert_eq!(get_protocol(404), Some(Protocol::ProtocolJava_1_13));
    assert_eq!(get_protocol(457), Some(Protocol::ProtocolJava_1_14));
    assert_eq!(get_protocol(6), None);
    let p = Protocol::ProtocolJava_1_12;
    assert_eq!(p.name(), "1.12");
    assert_eq!(p.protocol_version(), 340);
    assert_eq!(p.protocol_type(), ProtocolEdition::JavaEdition);
    let b = Protocol::ProtocolBedrockRakNet;
    assert_eq!(b.name(), "RakNet");
    assert_eq!(b.protocol_type(), ProtocolEdition::BedrockEdition);
}

#[test]
fn login_start_frames_exactly() {
    // LoginStart{name: "Alice"} under 1.12, serverbound: outer VarInt length
    // 7, VarInt id 0, VarInt(5), then the name's bytes.
    let p = Packet::java_v1_7_LoginStartPacket(v1_7::LoginStartPacket::new(
        VarIntLengthPrefixedString(String::from("Alice")),
    ));
    let out = Protocol::ProtocolJava_1_12.write(p, Bound::Serverbound);
    assert_eq!(
        out,
        Some(vec![0x07, 0x00, 0x05, 0x41, 0x6C, 0x69, 0x63, 0x65])
    );
}

#[test]
fn write_refuses_wrong_direction_and_edition() {
    let p = Packet::java_v1_7_LoginStartPacket(v1_7::LoginStartPacket::new(
        VarIntLengthPrefixedString(String::from("Alice")),
    ));
    // LoginStart is serverbound only.
    assert!(Protocol::ProtocolJava_1_12.write(p, Bound::Clientbound).is_none());
    let q = Packet::java_v1_7_PongPacket(v1_7::PongPacket::new(7));
    // A Java packet has no entry in the RakNet table.
    assert!(Protocol::ProtocolBedrockRakNet.write(q, Bound::Clientbound).is_none());
}

#[test]
fn java_encode_decode_round_trip() {
    // Encode a handshake under 1.8, strip the frame by hand, read it back.
    let p = v1_7::HandshakePacket::new(
        VarInt(47),
        VarIntLengthPrefixedString(String::from("mc.example.net")),
        25565,
        VarInt(2),
    );
    let proto = Protocol::ProtocolJava_1_8;
    let framed = proto
        .write(Packet::java_v1_7_HandshakePacket(p), Bound::Serverbound)
        .expect("handshake is serverbound-writable");
    // One-byte length VarInt, one-byte id VarInt for this size.
    let length = framed[0] as usize;
    assert_eq!(framed.len(), 1 + length);
    let id = framed[1] as i32;
    assert_eq!(id, 0);
    let payload = framed[2..].to_vec();
    match proto.read(id, State::JavaHandshake, Bound::Serverbound, payload.clone()) {
        Decoded::Value(Packet::java_v1_7_HandshakePacket(q), n) => {
            assert_eq!(n, payload.len());
            assert_eq!(q.protocol_version.0, 47);
            assert_eq!(q.server_address.0, "mc.example.net");
            assert_eq!(q.server_port, 25565);
            assert_eq!(q.next_state.0, 2);
        }
        _ => panic!("expected the handshake back"),
    }
}

#[test]
fn bedrock_encode_decode_round_trip() {
    let p = raknet::OpenConnectionReply2Packet::new(
        raknet_magic(),
        1234,
        Address::V4 { o0: 127, o1: 0, o2: 0, o3: 1, port: 19132 },
        800,
        0,
    );
    let proto = Protocol::ProtocolBedrockRakNet;
    let framed = proto
        .write(Packet::bedrock_raknet_OpenConnectionReply2Packet(p), Bound::Clientbound)
        .expect("reply2 is clientbound-writable");
    assert_eq!(framed[0], 0x08);
    let payload = framed[1..].to_vec();
    match proto.read(0x08, State::BedrockRakNetOffline, Bound::Clientbound, payload.clone()) {
        Decoded::Value(Packet::bedrock_raknet_OpenConnectionReply2Packet(q), n) => {
            assert_eq!(n, payload.len());
            assert_eq!(q.server_id, 1234);
            assert_eq!(q.client_address, Address::V4 { o0: 127, o1: 0, o2: 0, o3: 1, port: 19132 });
            assert_eq!(q.mtu_size, 800);
            assert_eq!(q.security, 0);
        }
        _ => panic!("expected the reply back"),
    }
}

#[test]
fn unconnected_pong_layout() {
    // The pong's final field is the big-endian two-byte length followed by
    // the ASCII server-list text.
    let motd = "MCPE;srv;282;1.6.0;1;2;9999;x;Survival;";
    let p = raknet::UnconnectedPongPacket::new(
        0,
        1234,
        raknet_magic(),
        ShortLengthPrefixedString(String::from(motd)),
    );
    let framed = Protocol::ProtocolBedrockRakNet
        .write(Packet::bedrock_raknet_UnconnectedPongPacket(p), Bound::Clientbound)
        .expect("pong is clientbound-writable");
    assert_eq!(framed[0], 0x1C);
    let tail = &framed[framed.len() - motd.len()..];
    assert_eq!(tail, motd.as_bytes());
    let lenfield = &framed[framed.len() - motd.len() - 2..framed.len() - motd.len()];
    assert_eq!(lenfield, &[0x00, motd.len() as u8]);
}

#[test]
fn unknown_id_is_refused() {
    let r = Protocol::ProtocolJava_1_12.read(0x7F, State::JavaStatus, Bound::Serverbound, vec![]);
    assert!(matches!(r, Decoded::Malformed));
}

#[test]
fn join_game_id_moves_across_versions() {
    let mk = || {
        phast::protocol::java::v1_9::JoinGamePacket::new(
            1,
            0,
            0,
            1,
            20,
            VarIntLengthPrefixedString(String::from("default")),
            0,
        )
    };
    let under_1_9 = Protocol::ProtocolJava_1_9
        .write(Packet::java_v1_9_JoinGamePacket(mk()), Bound::Clientbound)
        .unwrap();
    let under_1_14 = Protocol::ProtocolJava_1_14
        .write(Packet::java_v1_9_JoinGamePacket(mk()), Bound::Clientbound)
        .unwrap();
    assert_eq!(under_1_9[1], 0x23);
    assert_eq!(under_1_14[1], 0x25);
    // The 1.9 layout has no entry under 1.7.
    assert!(Protocol::ProtocolJava_1_7
        .write(Packet::java_v1_9_JoinGamePacket(mk()), Bound::Clientbound)
        .is_none());
}

#[test]
fn packet_names_and_next_state() {
    let hs = v1_7::HandshakePacket::new(
        VarInt(5),
        VarIntLengthPrefixedString(String::from("h")),
        1,
        VarInt(1),
    );
    assert_eq!(hs.name(), "HandshakePacket");
    assert_eq!(hs.next_state(), Some(State::JavaStatus));
    let hs2 = v1_7::HandshakePacket::new(
        VarInt(5),
        VarIntLengthPrefixedString(String::from("h")),
        1,
        VarInt(2),
    );
    assert_eq!(hs2.next_state(), Some(State::JavaLogin));
    let ping = v1_7::PingPacket::new(9);
    assert_eq!(ping.name(), "PingPacket");
    assert_eq!(ping.next_state(), None);
    let p = Packet::java_v1_7_PingPacket(ping);
    assert_eq!(p.name(), "PingPacket");
    assert_eq!(p.next_state(), None);
}
