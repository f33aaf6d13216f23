use phast::connection::{Connection, Transport};
use phast::manager::ConnectionManager;
use phast::protocol::registry::{Packet, Protocol, ProtocolType};
use phast::protocol::{Bound, State};
use phast::protocol::bedrock::raknet;
use phast::server::handle_packet;
use phast::types::{raknet_magic, Address, IntRangeList};

fn handshake_bytes() -> Vec<u8> {
    vec![
        0x10, 0x00, 0x05, 0x0A, 0x6D, 0x63, 0x2E, 0x70, 0x68, 0x61, 0x73, 0x74, 0x2E, 0x78, 0x63,
        0xDD, 0x01,
    ]
}

#[test]
fn stream_handshake_extracts_and_switches_state() {
    let mut conn = Connection::new(Transport::Stream);
    assert!(conn.is_tcp());
    assert!(!conn.is_udp());
    assert_eq!(conn.protocol_state, State::JavaHandshake);
    let mut bytes = handshake_bytes();
    let packets = conn.handle_read(&mut bytes);
    assert_eq!(packets.len(), 1);
    match &packets[0] {
        Packet::java_v1_7_HandshakePacket(h) => {
            assert_eq!(h.protocol_version.0, 5);
            assert_eq!(h.server_address.0, "mc.phast.x");
            assert_eq!(h.server_port, 25565);
            assert_eq!(h.next_state.0, 1);
        }
        _ => panic!("expected a handshake"),
    }
    // The transition applies before the next packet would be parsed.
    assert_eq!(conn.protocol_state, State::JavaStatus);
}

#[test]
fn handshake_next_state_two_enters_login() {
    let mut conn = Connection::new(Transport::Stream);
    let mut bytes = handshake_bytes();
    bytes[16] = 0x02;
    let packets = conn.handle_read(&mut bytes);
    assert_eq!(packets.len(), 1);
    assert_eq!(conn.protocol_state, State::JavaLogin);
}

#[test]
fn one_byte_ping_is_skipped() {
    // The legacy one-byte ping `01 00` yields no packet and leaves the
    // stream aligned: a handshake following it still parses.
    let mut conn = Connection::new(Transport::Stream);
    let mut bytes = vec![0x01, 0x00];
    let packets = conn.handle_read(&mut bytes);
    assert_eq!(packets.len(), 0);
    let mut rest = handshake_bytes();
    let packets = conn.handle_read(&mut rest);
    assert_eq!(packets.len(), 1);
}

#[test]
fn legacy_server_list_ping_is_skipped() {
    // 0xFE 0x01 0xFA, a 22-byte UTF-16 channel name, then a 7-byte block.
    let mut bytes = vec![
        0xFE, 0x01, 0xFA, 0x00, 0x0B, 0x00, 0x4D, 0x00, 0x43, 0x00, 0x7C, 0x00, 0x50, 0x00, 0x69,
        0x00, 0x6E, 0x00, 0x67, 0x00, 0x48, 0x00, 0x6F, 0x00, 0x73, 0x00, 0x74, 0x00, 0x07,
    ];
    bytes.extend([0x4A, 0x00, 0x00, 0x00, 0x00, 0x00, 0x00]);
    assert_eq!(bytes.len(), 36);
    let mut conn = Connection::new(Transport::Stream);
    let packets = conn.handle_read(&mut bytes);
    assert_eq!(packets.len(), 0);
    // The probe was dropped whole: the stream is aligned again.
    let mut rest = handshake_bytes();
    let packets = conn.handle_read(&mut rest);
    assert_eq!(packets.len(), 1);
}

#[test]
fn short_frame_completes_with_next_byte() {
    // A frame claiming one byte more than is present waits, then completes.
    let all = handshake_bytes();
    let mut conn = Connection::new(Transport::Stream);
    let mut first = all[..all.len() - 1].to_vec();
    let packets = conn.handle_read(&mut first);
    assert_eq!(packets.len(), 0);
    let mut last = vec![all[all.len() - 1]];
    let packets = conn.handle_read(&mut last);
    assert_eq!(packets.len(), 1);
    assert_eq!(conn.protocol_state, State::JavaStatus);
}

#[test]
fn two_handshakes_one_read() {
    // Two handshake frames in a single delivery come out in order and leave
    // nothing buffered. Their next-state field requests no transition, so
    // both parse in the handshake state.
    let mut one = handshake_bytes();
    one[16] = 0x03;
    let mut bytes = one.clone();
    bytes.extend(one.iter().copied());
    let mut conn = Connection::new(Transport::Stream);
    let packets = conn.handle_read(&mut bytes);
    assert_eq!(packets.len(), 2);
    for p in &packets {
        match p {
            Packet::java_v1_7_HandshakePacket(h) => {
                assert_eq!(h.server_address.0, "mc.phast.x");
            }
            _ => panic!("expected handshakes"),
        }
    }
    // Nothing left: a further delivery starts a fresh frame.
    let mut rest = handshake_bytes();
    let packets = conn.handle_read(&mut rest);
    assert_eq!(packets.len(), 1);
}

#[test]
fn split_feed_equals_whole_feed() {
    // Byte-by-byte delivery yields the same packets as one delivery.
    let mut one = handshake_bytes();
    one[16] = 0x03;
    let mut whole = one.clone();
    whole.extend(one.iter().copied());
    let mut conn_whole = Connection::new(Transport::Stream);
    let mut w = whole.clone();
    let whole_packets = conn_whole.handle_read(&mut w);
    let mut conn_parts = Connection::new(Transport::Stream);
    let mut count = 0;
    for b in whole.iter() {
        let mut delivery = vec![*b];
        count += conn_parts.handle_read(&mut delivery).len();
    }
    assert_eq!(whole_packets.len(), 2);
    assert_eq!(count, 2);
}

#[test]
fn datagram_first_byte_alone_waits() {
    // A reliability-frame marker with no further bytes asks for more data.
    let mut conn = Connection::new(Transport::Datagram);
    let mut bytes = vec![0x80];
    let packets = conn.handle_read(&mut bytes);
    assert_eq!(packets.len(), 0);
}

fn unconnected_ping_bytes() -> Vec<u8> {
    let mut bytes = vec![0x01];
    bytes.extend([0, 0, 0, 0, 0, 0, 0, 0x42]);
    bytes.extend(raknet_magic().0.iter().copied());
    bytes.extend([0, 0, 0, 0, 0, 0, 0x12, 0x34]);
    bytes
}

#[test]
fn unconnected_ping_datagram_parses() {
    let mut conn = Connection::new(Transport::Datagram);
    assert!(conn.is_udp());
    let mut bytes = unconnected_ping_bytes();
    let packets = conn.handle_read(&mut bytes);
    assert_eq!(packets.len(), 1);
    match &packets[0] {
        Packet::bedrock_raknet_UnconnectedPingPacket(p) => {
            assert_eq!(p.ping_time, 66);
            assert_eq!(p.guid, 0x1234);
        }
        _ => panic!("expected an unconnected ping"),
    }
}

#[test]
fn reliability_frame_carries_inner_packet() {
    // A reliable (reliability 2) frame around a ConnectionRequest, parsed in
    // the online RakNet state.
    let inner = Protocol::ProtocolBedrockRakNet
        .write(
            Packet::bedrock_raknet_ConnectionRequestPacket(raknet::ConnectionRequestPacket::new(
                77, 99, 0,
            )),
            Bound::Serverbound,
        )
        .unwrap();
    let bits = (inner.len() * 8) as u16;
    let mut bytes = vec![0x84, 0, 0, 0, 0x40, (bits >> 8) as u8, (bits & 0xFF) as u8];
    bytes.extend([0, 0, 0]); // reliable message number
    bytes.extend(inner.iter().copied());
    let mut conn = Connection::new(Transport::Datagram);
    conn.set_state(State::BedrockRakNet);
    let packets = conn.handle_read(&mut bytes);
    assert_eq!(packets.len(), 1);
    match &packets[0] {
        Packet::bedrock_raknet_ConnectionRequestPacket(p) => {
            assert_eq!(p.client_guid, 77);
            assert_eq!(p.timestamp, 99);
        }
        _ => panic!("expected a connection request"),
    }
}

#[test]
fn outbound_datagram_gets_reliable_header() {
    let mut conn = Connection::new(Transport::Datagram);
    conn.set_state(State::BedrockRakNet);
    let accepted = raknet::ConnectionRequestAcceptedPacket::new(
        Address::V4 { o0: 0, o1: 0, o2: 0, o3: 0, port: 19132 },
        0,
        vec![],
        1,
        2,
    );
    let out = conn
        .send_packet(Packet::bedrock_raknet_ConnectionRequestAcceptedPacket(accepted))
        .expect("accepted is clientbound-writable");
    assert_eq!(out[0], 0x84);
    // The counter is seeded to 42, little-endian over three bytes.
    assert_eq!(&out[1..4], &[42, 0, 0]);
    assert_eq!(out[4], 0x40);
    let payload_len = out.len() - 10;
    let bits = (payload_len * 8) as u16;
    assert_eq!(out[5], (bits >> 8) as u8);
    assert_eq!(out[6], (bits & 0xFF) as u8);
    assert_eq!(&out[7..10], &[0, 0, 0]);
    // A second send advances the sequence number.
    let accepted2 = raknet::ConnectionRequestAcceptedPacket::new(
        Address::V4 { o0: 0, o1: 0, o2: 0, o3: 0, port: 19132 },
        0,
        vec![],
        1,
        2,
    );
    let out2 = conn
        .send_packet(Packet::bedrock_raknet_ConnectionRequestAcceptedPacket(accepted2))
        .unwrap();
    assert_eq!(&out2[1..4], &[43, 0, 0]);
}

#[test]
fn offline_send_has_no_datagram_header() {
    let mut conn = Connection::new(Transport::Datagram);
    let pong = raknet::UnconnectedPongPacket::new(
        0,
        1234,
        raknet_magic(),
        phast::types::ShortLengthPrefixedString(String::from("MCPE;x;")),
    );
    let out = conn
        .send_packet(Packet::bedrock_raknet_UnconnectedPongPacket(pong))
        .unwrap();
    assert_eq!(out[0], 0x1C);
}

#[test]
fn manager_routes_deliveries_and_sends() {
    let mut mgr = ConnectionManager::new();
    mgr.insert_connection(7, Connection::new(Transport::Stream));
    assert_eq!(mgr.tcp_addresses, vec![7]);
    let mut bytes = handshake_bytes();
    let packets = mgr.handle_delivery(7, &mut bytes);
    assert_eq!(packets.len(), 1);
    // A delivery for an unknown peer yields nothing.
    let mut stray = handshake_bytes();
    assert_eq!(mgr.handle_delivery(8, &mut stray).len(), 0);
    // Sending through the table uses the connection's framing.
    let out = mgr.send_to_peer(
        7,
        Packet::java_v1_7_PongPacket(phast::protocol::java::v1_7::PongPacket::new(66)),
    );
    let out = out.expect("pong is clientbound-writable");
    assert_eq!(out, vec![0x09, 0x01, 0, 0, 0, 0, 0, 0, 0, 0x42]);
    assert!(mgr.send_to_peer(9, Packet::java_v1_7_PongPacket(
        phast::protocol::java::v1_7::PongPacket::new(1),
    )).is_none());
}

#[test]
fn manager_applies_updates() {
    let mut mgr = ConnectionManager::new();
    mgr.insert_connection(3, Connection::new(Transport::Datagram));
    assert_eq!(mgr.tcp_addresses.len(), 0);
    mgr.apply_update(3, Some(State::BedrockRakNet), None);
    // After the update, outbound datagrams carry the reliability header.
    let accepted = raknet::ConnectionRequestAcceptedPacket::new(
        Address::V4 { o0: 0, o1: 0, o2: 0, o3: 0, port: 19132 },
        0,
        vec![],
        1,
        2,
    );
    let out = mgr
        .send_to_peer(3, Packet::bedrock_raknet_ConnectionRequestAcceptedPacket(accepted))
        .unwrap();
    assert_eq!(out[0], 0x84);
}

#[test]
fn ping_gets_a_pong() {
    let action = handle_packet(
        &Packet::java_v1_7_PingPacket(phast::protocol::java::v1_7::PingPacket::new(123)),
        Protocol::ProtocolJava_1_12,
        Address::V4 { o0: 1, o1: 2, o2: 3, o3: 4, port: 5 },
        0,
    );
    assert_eq!(action.responses.len(), 1);
    match &action.responses[0] {
        Packet::java_v1_7_PongPacket(p) => assert_eq!(p.payload, 123),
        _ => panic!("expected a pong"),
    }
    assert!(action.new_state.is_none());
    assert!(action.new_protocol.is_none());
}

#[test]
fn status_handshake_gets_server_list_text() {
    let hs = phast::protocol::java::v1_7::HandshakePacket::new(
        phast::types::VarInt(340),
        phast::types::VarIntLengthPrefixedString(String::from("mc.phast.x")),
        25565,
        phast::types::VarInt(1),
    );
    let action = handle_packet(
        &Packet::java_v1_7_HandshakePacket(hs),
        Protocol::ProtocolJava_1_12,
        Address::V4 { o0: 1, o1: 2, o2: 3, o3: 4, port: 5 },
        0,
    );
    assert_eq!(action.new_protocol, Some(Protocol::ProtocolJava_1_12));
    assert_eq!(action.responses.len(), 1);
    match &action.responses[0] {
        Packet::java_v1_7_ResponsePacket(r) => {
            assert!(r.response.0.starts_with("{\"version\""));
            assert!(r.response.0.contains("§2Client: 1.12"));
        }
        _ => panic!("expected a status response"),
    }
}

#[test]
fn login_start_answers_success_and_join_game() {
    let action = handle_packet(
        &Packet::java_v1_7_LoginStartPacket(phast::protocol::java::v1_7::LoginStartPacket::new(
            phast::types::VarIntLengthPrefixedString(String::from("Alice")),
        )),
        Protocol::ProtocolJava_1_7,
        Address::V4 { o0: 1, o1: 2, o2: 3, o3: 4, port: 5 },
        0,
    );
    assert_eq!(action.new_state, Some(State::JavaPlay));
    assert_eq!(action.responses.len(), 2);
    match &action.responses[0] {
        Packet::java_v1_7_LoginSuccessPacket(p) => assert_eq!(p.username.0, "Alice"),
        _ => panic!("expected login success"),
    }
    assert!(matches!(&action.responses[1], Packet::java_v1_7_JoinGamePacket(_)));
}

#[test]
fn open_connection_request_two_promotes_the_connection() {
    let peer = Address::V4 { o0: 9, o1: 8, o2: 7, o3: 6, port: 1000 };
    let req = raknet::OpenConnectionRequest2Packet::new(
        raknet_magic(),
        Address::V4 { o0: 0, o1: 0, o2: 0, o3: 0, port: 19132 },
        800,
        55,
    );
    let action = handle_packet(
        &Packet::bedrock_raknet_OpenConnectionRequest2Packet(req),
        Protocol::ProtocolBedrockRakNet,
        peer,
        0,
    );
    assert_eq!(action.new_state, Some(State::BedrockRakNet));
    assert_eq!(action.responses.len(), 1);
    match &action.responses[0] {
        Packet::bedrock_raknet_OpenConnectionReply2Packet(p) => {
            assert_eq!(p.client_address, peer);
            assert_eq!(p.mtu_size, 800);
        }
        _ => panic!("expected reply 2"),
    }
}

#[test]
fn connection_request_is_accepted_with_tick_time() {
    let action = handle_packet(
        &Packet::bedrock_raknet_ConnectionRequestPacket(raknet::ConnectionRequestPacket::new(
            5, 77, 0,
        )),
        Protocol::ProtocolBedrockRakNet,
        Address::V4 { o0: 0, o1: 0, o2: 0, o3: 0, port: 0 },
        123456,
    );
    assert_eq!(action.responses.len(), 1);
    match &action.responses[0] {
        Packet::bedrock_raknet_ConnectionRequestAcceptedPacket(p) => {
            assert_eq!(p.system_addresses.len(), 20);
            assert_eq!(p.incoming_timestamp, 77);
            assert_eq!(p.system_timestamp, 123456);
        }
        _ => panic!("expected an accepted reply"),
    }
}

#[test]
fn ack_and_nak_parse_in_any_direction() {
    let ack = raknet::AckPacket::new(IntRangeList(vec![(3, 3)]));
    let framed = phast::protocol::registry::Protocol::ProtocolBedrockRakNet
        .write(Packet::bedrock_raknet_AckPacket(ack), Bound::Serverbound)
        .expect("ack entries match either direction");
    assert_eq!(framed[0], 0xC0);
    let mut conn = Connection::new(Transport::Datagram);
    let mut bytes = framed.clone();
    let packets = conn.handle_read(&mut bytes);
    assert_eq!(packets.len(), 1);
    match &packets[0] {
        Packet::bedrock_raknet_AckPacket(p) => assert_eq!(p.ids.0, vec![(3, 3)]),
        _ => panic!("expected an ack"),
    }
}

#[test]
fn malformed_length_varint_resynchronizes() {
    // Five bytes of a VarInt whose fifth byte is out of range are dropped;
    // the frame after them still parses.
    let mut conn = Connection::new(Transport::Stream);
    let mut bytes = vec![0x80, 0x80, 0x80, 0x80, 0x70];
    bytes.extend(handshake_bytes());
    let packets = conn.handle_read(&mut bytes);
    assert_eq!(packets.len(), 1);
    assert_eq!(conn.protocol_state, State::JavaStatus);
}

#[test]
fn unknown_offline_datagram_is_dropped() {
    // An offline datagram with an id outside the table yields nothing and
    // does not poison the next datagram.
    let mut conn = Connection::new(Transport::Datagram);
    let mut junk = vec![0x7E, 1, 2, 3];
    assert_eq!(conn.handle_read(&mut junk).len(), 0);
    let mut ping = unconnected_ping_bytes();
    assert_eq!(conn.handle_read(&mut ping).len(), 1);
}

fn split_frame(split_id: u16, count: u32, index: u32, seq: u8, fragment: &[u8]) -> Vec<u8> {
    // Reliability 2 (reliable), split flag set: a 3-byte message number and
    // the three split sub-fields precede the fragment.
    let bits = (fragment.len() * 8) as u16;
    let mut frame = vec![0x84, seq, 0, 0, 0x50, (bits >> 8) as u8, (bits & 0xFF) as u8];
    frame.extend([0, 0, seq]); // reliable message number
    frame.extend(count.to_be_bytes());
    frame.extend(split_id.to_be_bytes());
    frame.extend(index.to_be_bytes());
    frame.extend(fragment.iter().copied());
    frame
}

#[test]
fn split_datagram_reassembles_in_order() {
    let inner = Protocol::ProtocolBedrockRakNet
        .write(
            Packet::bedrock_raknet_ConnectionRequestPacket(raknet::ConnectionRequestPacket::new(
                7, 13, 0,
            )),
            Bound::Serverbound,
        )
        .unwrap();
    let cut = inner.len() / 2;
    let mut conn = Connection::new(Transport::Datagram);
    conn.set_state(State::BedrockRakNet);
    let mut first = split_frame(9, 2, 0, 1, &inner[..cut]);
    assert_eq!(conn.handle_read(&mut first).len(), 0);
    let mut second = split_frame(9, 2, 1, 2, &inner[cut..]);
    let packets = conn.handle_read(&mut second);
    assert_eq!(packets.len(), 1);
    match &packets[0] {
        Packet::bedrock_raknet_ConnectionRequestPacket(p) => {
            assert_eq!(p.client_guid, 7);
            assert_eq!(p.timestamp, 13);
        }
        _ => panic!("expected the reassembled connection request"),
    }
}

#[test]
fn split_datagram_reassembles_out_of_order() {
    let inner = Protocol::ProtocolBedrockRakNet
        .write(
            Packet::bedrock_raknet_ConnectionRequestPacket(raknet::ConnectionRequestPacket::new(
                21, 22, 0,
            )),
            Bound::Serverbound,
        )
        .unwrap();
    let mut conn = Connection::new(Transport::Datagram);
    conn.set_state(State::BedrockRakNet);
    let mut last = split_frame(3, 3, 2, 1, &inner[12..]);
    assert_eq!(conn.handle_read(&mut last).len(), 0);
    let mut mid = split_frame(3, 3, 1, 2, &inner[6..12]);
    assert_eq!(conn.handle_read(&mut mid).len(), 0);
    let mut head = split_frame(3, 3, 0, 3, &inner[..6]);
    let packets = conn.handle_read(&mut head);
    assert_eq!(packets.len(), 1);
    assert!(matches!(&packets[0], Packet::bedrock_raknet_ConnectionRequestPacket(_)));
}

#[test]
fn oversized_split_announcement_is_dropped() {
    // A split claiming more fragments than the cap is treated as malformed;
    // the connection still accepts whole datagrams afterwards.
    let mut conn = Connection::new(Transport::Datagram);
    let mut bad = split_frame(1, 1000, 0, 1, &[0x09, 1, 2, 3]);
    assert_eq!(conn.handle_read(&mut bad).len(), 0);
    let mut ping = unconnected_ping_bytes();
    assert_eq!(conn.handle_read(&mut ping).len(), 1);
}

#[test]
fn encoded_login_start_round_trips_through_extractor() {
    // Encode under a version, feed the framed bytes to a connection in the
    // kind's own state: the extractor hands the packet back whole.
    let framed = Protocol::ProtocolJava_1_12
        .write(
            Packet::java_v1_7_LoginStartPacket(phast::protocol::java::v1_7::LoginStartPacket::new(
                phast::types::VarIntLengthPrefixedString(String::from("Alice")),
            )),
            Bound::Serverbound,
        )
        .unwrap();
    let mut conn = Connection::new(Transport::Stream);
    conn.set_state(State::JavaLogin);
    conn.set_protocol(Protocol::ProtocolJava_1_12);
    let mut bytes = framed;
    let packets = conn.handle_read(&mut bytes);
    assert_eq!(packets.len(), 1);
    match &packets[0] {
        Packet::java_v1_7_LoginStartPacket(p) => assert_eq!(p.name.0, "Alice"),
        _ => panic!("expected the login start back"),
    }
}
