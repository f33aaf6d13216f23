use vstd::prelude::*;
use vstd::string::*;
use crate::protocol::registry::{get_protocol, spec_get_protocol, spec_proto_name, Packet,
    PacketModel, Protocol, ProtocolType};
use crate::protocol::State;
use crate::types::{magic_bytes, raknet_magic, Address, ShortLengthPrefixedString,
    VarIntLengthPrefixedString};
use crate::protocol::java::v1_7;
use crate::protocol::bedrock::raknet;

verus! {

/// What the game loop decides for one inbound packet: the responses to send
/// back to the peer, and the connection updates to apply.
pub struct PacketAction {
    pub responses: Vec<Packet>,
    pub new_state: Option<State>,
    pub new_protocol: Option<Protocol>,
}

/// The model of a `PacketAction`.
pub struct ActionModel {
    pub responses: Seq<PacketModel>,
    pub new_state: Option<State>,
    pub new_protocol: Option<Protocol>,
}

/// The client-version note embedded in the server-list text.
pub open spec fn spec_motd_support(version: i32) -> Seq<char> {
    match spec_get_protocol(version) {
        Some(p) => "§2Client: "@ + spec_proto_name(p),
        None => "§cYour version is not supported yet!"@,
    }
}

pub open spec fn spec_status_json(version: i32) -> Seq<char> {
    "{\"version\": {\"name\": \"§7[§f1.7-1.14§7] §e0§b/§e1000\",\"protocol\": -1},\"players\": {\"max\": 3,\"online\": 2,\"sample\": [{\"name\": \"§bphast §fis §calpha §fsoftware.\",\"id\": \"4566e69f-c907-48ee-8d71-d7ba5aa00d20\"},{\"name\": \"don't expect much\",\"id\": \"4566e69f-c907-48ee-8d71-d7ba5aa00d20\"}]},\"description\": {\"text\": \"§bphast §eserver\\n§f§ohttps://pha.st/ "@
        + spec_motd_support(version) + "\"}}"@
}

/// The address every slot of the accepted-connection reply is filled with.
pub open spec fn spec_loopback() -> Address {
    Address::V4 { o0: 0, o1: 0, o2: 0, o3: 0, port: 19132 }
}

/// The decision table of the game loop: for each inbound packet, the
/// responses it sends and the connection updates it applies. `proto` is the
/// peer connection's protocol binding, `peer` its address, and `now` the
/// tick's clock reading in milliseconds.
pub open spec fn spec_packet_action(
    pm: PacketModel,
    proto: Protocol,
    peer: Address,
    now: u64,
) -> ActionModel {
    match pm {
        PacketModel::java_v1_7_HandshakePacket(x) => ActionModel {
            responses: if x.3 == 1 {
                seq![PacketModel::java_v1_7_ResponsePacket(spec_status_json(x.0))]
            } else {
                Seq::empty()
            },
            new_state: None,
            new_protocol: spec_get_protocol(x.0),
        },
        PacketModel::java_v1_7_PingPacket(payload) => ActionModel {
            responses: seq![PacketModel::java_v1_7_PongPacket(payload)],
            new_state: None,
            new_protocol: None,
        },
        PacketModel::bedrock_raknet_UnconnectedPingPacket(x) => ActionModel {
            responses: seq![
                PacketModel::bedrock_raknet_UnconnectedPongPacket(
                    (
                        0u64,
                        1234u64,
                        magic_bytes(),
                        "MCPE;phast test;282;1.6.0;1;2;9999;test2;Survival;"@,
                    ),
                ),
            ],
            new_state: None,
            new_protocol: None,
        },
        PacketModel::java_v1_7_LoginStartPacket(name) => ActionModel {
            responses: seq![
                PacketModel::java_v1_7_LoginSuccessPacket(
                    ("e63a1d61-adf1-4d47-b5f8-43efc5c84908"@, name),
                ),
            ] + (match proto {
                Protocol::ProtocolJava_1_7 => seq![
                    PacketModel::java_v1_7_JoinGamePacket((0i32, 0u8, 0u8, 1u8, 70u8, "default"@)),
                ],
                Protocol::ProtocolJava_1_8 => seq![
                    PacketModel::java_v1_8_JoinGamePacket(
                        (0i32, 0u8, 0u8, 1u8, 70u8, "default"@, 0u8),
                    ),
                ],
                _ => Seq::empty(),
            }),
            new_state: Some(State::JavaPlay),
            new_protocol: None,
        },
        PacketModel::bedrock_raknet_OpenConnectionRequest1Packet(x) => ActionModel {
            responses: seq![
                PacketModel::bedrock_raknet_OpenConnectionReply1Packet(
                    (magic_bytes(), 1234u64, 0u8, 800u16),
                ),
            ],
            new_state: None,
            new_protocol: None,
        },
        PacketModel::bedrock_raknet_OpenConnectionRequest2Packet(x) => ActionModel {
            responses: seq![
                PacketModel::bedrock_raknet_OpenConnectionReply2Packet(
                    (magic_bytes(), 1234u64, peer, x.2, 0u8),
                ),
            ],
            new_state: Some(State::BedrockRakNet),
            new_protocol: None,
        },
        PacketModel::bedrock_raknet_ConnectionRequestPacket(x) => ActionModel {
            responses: seq![
                PacketModel::bedrock_raknet_ConnectionRequestAcceptedPacket(
                    (
                        spec_loopback(),
                        0u16,
                        Seq::new(20, |i: int| spec_loopback()),
                        x.1,
                        now,
                    ),
                ),
            ],
            new_state: None,
            new_protocol: None,
        },
        _ => ActionModel { responses: Seq::empty(), new_state: None, new_protocol: None },
    }
}

/// Builds the server-list status text for a client version.
fn status_json(version: i32) -> (r: String)
    ensures
        r@ == spec_status_json(version),
{
    let support: String = match get_protocol(version) {
        Some(p) => {
            let s = String::from_str("§2Client: ");
            s.concat(p.name())
        },
        None => String::from_str("§cYour version is not supported yet!"),
    };
    let prefix = String::from_str(
        "{\"version\": {\"name\": \"§7[§f1.7-1.14§7] §e0§b/§e1000\",\"protocol\": -1},\"players\": {\"max\": 3,\"online\": 2,\"sample\": [{\"name\": \"§bphast §fis §calpha §fsoftware.\",\"id\": \"4566e69f-c907-48ee-8d71-d7ba5aa00d20\"},{\"name\": \"don't expect much\",\"id\": \"4566e69f-c907-48ee-8d71-d7ba5aa00d20\"}]},\"description\": {\"text\": \"§bphast §eserver\\n§f§ohttps://pha.st/ ",
    );
    let joined = prefix.concat(support.as_str());
    joined.concat("\"}}")
}

/// Builds the accepted-connection reply's address list.
fn loopback_addresses() -> (out: Vec<Address>)
    ensures
        out@ == Seq::new(20, |i: int| spec_loopback()),
{
    let mut out: Vec<Address> = Vec::new();
    let mut k: usize = 0;
    while k < 20
        invariant
            k <= 20,
            out@ == Seq::new(k as nat, |i: int| spec_loopback()),
        decreases 20 - k,
    {
        out.push(Address::V4 { o0: 0, o1: 0, o2: 0, o3: 0, port: 19132 });
        k = k + 1;
        proof {
            assert(out@ =~= Seq::new(k as nat, |i: int| spec_loopback()));
        }
    }
    out
}

/// Dispatches one inbound packet: decides the response packets and the
/// connection updates, exactly as `spec_packet_action` states them.
pub fn handle_packet(packet: &Packet, proto: Protocol, peer: Address, now_ms: u64) -> (r:
    PacketAction)
    ensures
        r.responses@.map_values(|p: Packet| p@) == spec_packet_action(
            packet@,
            proto,
            peer,
            now_ms,
        ).responses,
        r.new_state == spec_packet_action(packet@, proto, peer, now_ms).new_state,
        r.new_protocol == spec_packet_action(packet@, proto, peer, now_ms).new_protocol,
{
    let ghost am = spec_packet_action(packet@, proto, peer, now_ms);
    match packet {
        Packet::java_v1_7_HandshakePacket(x) => {
            let new_protocol = get_protocol(x.protocol_version.0);
            let mut responses: Vec<Packet> = Vec::new();
            if x.next_state.0 == 1 {
                let json = status_json(x.protocol_version.0);
                responses.push(
                    Packet::java_v1_7_ResponsePacket(
                        v1_7::ResponsePacket::new(VarIntLengthPrefixedString(json)),
                    ),
                );
            }
            proof {
                assert(responses@.map_values(|p: Packet| p@) =~= am.responses);
            }
            PacketAction { responses, new_state: None, new_protocol }
        },
        Packet::java_v1_7_PingPacket(x) => {
            let mut responses: Vec<Packet> = Vec::new();
            responses.push(Packet::java_v1_7_PongPacket(v1_7::PongPacket::new(x.payload)));
            proof {
                assert(responses@.map_values(|p: Packet| p@) =~= am.responses);
            }
            PacketAction { responses, new_state: None, new_protocol: None }
        },
        Packet::bedrock_raknet_UnconnectedPingPacket(x) => {
            let mut responses: Vec<Packet> = Vec::new();
            responses.push(
                Packet::bedrock_raknet_UnconnectedPongPacket(
                    raknet::UnconnectedPongPacket::new(
                        0,
                        1234,
                        raknet_magic(),
                        ShortLengthPrefixedString(
                            String::from_str("MCPE;phast test;282;1.6.0;1;2;9999;test2;Survival;"),
                        ),
                    ),
                ),
            );
            proof {
                assert(responses@.map_values(|p: Packet| p@) =~= am.responses);
            }
            PacketAction { responses, new_state: None, new_protocol: None }
        },
        Packet::java_v1_7_LoginStartPacket(x) => {
            let mut responses: Vec<Packet> = Vec::new();
            responses.push(
                Packet::java_v1_7_LoginSuccessPacket(
                    v1_7::LoginSuccessPacket::new(
                        VarIntLengthPrefixedString(
                            String::from_str("e63a1d61-adf1-4d47-b5f8-43efc5c84908"),
                        ),
                        VarIntLengthPrefixedString(x.name.0.clone()),
                    ),
                ),
            );
            match proto {
                Protocol::ProtocolJava_1_7 => {
                    responses.push(
                        Packet::java_v1_7_JoinGamePacket(
                            v1_7::JoinGamePacket::new(
                                0,
                                0,
                                0,
                                1,
                                70,
                                VarIntLengthPrefixedString(String::from_str("default")),
                            ),
                        ),
                    );
                },
                Protocol::ProtocolJava_1_8 => {
                    responses.push(
                        Packet::java_v1_8_JoinGamePacket(
                            crate::protocol::java::v1_8::JoinGamePacket::new(
                                0,
                                0,
                                0,
                                1,
                                70,
                                VarIntLengthPrefixedString(String::from_str("default")),
                                0,
                            ),
                        ),
                    );
                },
                _ => {},
            }
            proof {
                assert(responses@.map_values(|p: Packet| p@) =~= am.responses);
            }
            PacketAction { responses, new_state: Some(State::JavaPlay), new_protocol: None }
        },
        Packet::bedrock_raknet_OpenConnectionRequest1Packet(x) => {
            let mut responses: Vec<Packet> = Vec::new();
            responses.push(
                Packet::bedrock_raknet_OpenConnectionReply1Packet(
                    raknet::OpenConnectionReply1Packet::new(raknet_magic(), 1234, 0, 800),
                ),
            );
            proof {
                assert(responses@.map_values(|p: Packet| p@) =~= am.responses);
            }
            PacketAction { responses, new_state: None, new_protocol: None }
        },
        Packet::bedrock_raknet_OpenConnectionRequest2Packet(x) => {
            let mut responses: Vec<Packet> = Vec::new();
            responses.push(
                Packet::bedrock_raknet_OpenConnectionReply2Packet(
                    raknet::OpenConnectionReply2Packet::new(
                        raknet_magic(),
                        1234,
                        peer,
                        x.mtu_size,
                        0,
                    ),
                ),
            );
            proof {
                assert(responses@.map_values(|p: Packet| p@) =~= am.responses);
            }
            PacketAction {
                responses,
                new_state: Some(State::BedrockRakNet),
                new_protocol: None,
            }
        },
        Packet::bedrock_raknet_ConnectionRequestPacket(x) => {
            let mut responses: Vec<Packet> = Vec::new();
            responses.push(
                Packet::bedrock_raknet_ConnectionRequestAcceptedPacket(
                    raknet::ConnectionRequestAcceptedPacket::new(
                        Address::V4 { o0: 0, o1: 0, o2: 0, o3: 0, port: 19132 },
                        0,
                        loopback_addresses(),
                        x.timestamp,
                        now_ms,
                    ),
                ),
            );
            proof {
                assert(responses@.map_values(|p: Packet| p@) =~= am.responses);
            }
            PacketAction { responses, new_state: None, new_protocol: None }
        },
        _ => {
            let responses: Vec<Packet> = Vec::new();
            proof {
                assert(responses@.map_values(|p: Packet| p@) =~= am.responses);
            }
            PacketAction { responses, new_state: None, new_protocol: None }
        },
    }
}

} // verus!
