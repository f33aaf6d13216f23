// The packet registry: the closed catalog of packets across all supported
// protocol versions, the per-version (id, state, direction) tables, and the
// version-dependent framing rules.
use vstd::prelude::*;
use crate::packet::{dec_models, Decoded, PacketType, ReadField, WireField, WriteField};
use crate::protocol::{Bound, ProtocolEdition, State};
use crate::types::{i32_to_u32, lemma_pow128_values, lemma_varint_dec_enc,
    lemma_varint_enc_u_len, u32_to_i32, varint_dec, varint_enc, varint_enc_u, varint_write_u,
    VarInt};

verus! {

/// Every packet type across all supported versions, as one closed sum.
#[derive(Clone, Debug)]
#[allow(non_camel_case_types)]
pub enum Packet {
    bedrock_raknet_ConnectedPingPacket(crate::protocol::bedrock::raknet::ConnectedPingPacket),
    bedrock_raknet_UnconnectedPingPacket(crate::protocol::bedrock::raknet::UnconnectedPingPacket),
    bedrock_raknet_UnconnectedPingOpenConnectionsPacket(crate::protocol::bedrock::raknet::UnconnectedPingOpenConnectionsPacket),
    bedrock_raknet_ConnectedPongPacket(crate::protocol::bedrock::raknet::ConnectedPongPacket),
    bedrock_raknet_OpenConnectionRequest1Packet(crate::protocol::bedrock::raknet::OpenConnectionRequest1Packet),
    bedrock_raknet_OpenConnectionReply1Packet(crate::protocol::bedrock::raknet::OpenConnectionReply1Packet),
    bedrock_raknet_OpenConnectionRequest2Packet(crate::protocol::bedrock::raknet::OpenConnectionRequest2Packet),
    bedrock_raknet_OpenConnectionReply2Packet(crate::protocol::bedrock::raknet::OpenConnectionReply2Packet),
    bedrock_raknet_ConnectionRequestPacket(crate::protocol::bedrock::raknet::ConnectionRequestPacket),
    bedrock_raknet_ConnectionRequestAcceptedPacket(crate::protocol::bedrock::raknet::ConnectionRequestAcceptedPacket),
    bedrock_raknet_NewIncomingConnectionPacket(crate::protocol::bedrock::raknet::NewIncomingConnectionPacket),
    bedrock_raknet_NoFreeIncomingConnectionsPacket(crate::protocol::bedrock::raknet::NoFreeIncomingConnectionsPacket),
    bedrock_raknet_DisconnectNotificationPacket(crate::protocol::bedrock::raknet::DisconnectNotificationPacket),
    bedrock_raknet_ConnectionBannedPacket(crate::protocol::bedrock::raknet::ConnectionBannedPacket),
    bedrock_raknet_IncompatibleProtocolPacket(crate::protocol::bedrock::raknet::IncompatibleProtocolPacket),
    bedrock_raknet_IpRecentlyConnectedPacket(crate::protocol::bedrock::raknet::IpRecentlyConnectedPacket),
    bedrock_raknet_UnconnectedPongPacket(crate::protocol::bedrock::raknet::UnconnectedPongPacket),
    bedrock_raknet_NakPacket(crate::protocol::bedrock::raknet::NakPacket),
    bedrock_raknet_AckPacket(crate::protocol::bedrock::raknet::AckPacket),
    java_v1_7_HandshakePacket(crate::protocol::java::v1_7::HandshakePacket),
    java_v1_7_ResponsePacket(crate::protocol::java::v1_7::ResponsePacket),
    java_v1_7_PongPacket(crate::protocol::java::v1_7::PongPacket),
    java_v1_7_RequestPacket(crate::protocol::java::v1_7::RequestPacket),
    java_v1_7_PingPacket(crate::protocol::java::v1_7::PingPacket),
    java_v1_7_LoginStartPacket(crate::protocol::java::v1_7::LoginStartPacket),
    java_v1_7_EncryptionResponsePacket(crate::protocol::java::v1_7::EncryptionResponsePacket),
    java_v1_7_DisconnectPacket(crate::protocol::java::v1_7::DisconnectPacket),
    java_v1_7_EncryptionRequestPacket(crate::protocol::java::v1_7::EncryptionRequestPacket),
    java_v1_7_LoginSuccessPacket(crate::protocol::java::v1_7::LoginSuccessPacket),
    java_v1_7_SetCompressionPacket(crate::protocol::java::v1_7::SetCompressionPacket),
    java_v1_7_KeepAlivePacket(crate::protocol::java::v1_7::KeepAlivePacket),
    java_v1_7_JoinGamePacket(crate::protocol::java::v1_7::JoinGamePacket),
    java_v1_8_JoinGamePacket(crate::protocol::java::v1_8::JoinGamePacket),
    java_v1_9_JoinGamePacket(crate::protocol::java::v1_9::JoinGamePacket),
}

/// The mathematical model of a packet: the same sum over the field models.
#[allow(non_camel_case_types)]
pub enum PacketModel {
    bedrock_raknet_ConnectedPingPacket(<crate::protocol::bedrock::raknet::ConnectedPingPacket as View>::V),
    bedrock_raknet_UnconnectedPingPacket(<crate::protocol::bedrock::raknet::UnconnectedPingPacket as View>::V),
    bedrock_raknet_UnconnectedPingOpenConnectionsPacket(<crate::protocol::bedrock::raknet::UnconnectedPingOpenConnectionsPacket as View>::V),
    bedrock_raknet_ConnectedPongPacket(<crate::protocol::bedrock::raknet::ConnectedPongPacket as View>::V),
    bedrock_raknet_OpenConnectionRequest1Packet(<crate::protocol::bedrock::raknet::OpenConnectionRequest1Packet as View>::V),
    bedrock_raknet_OpenConnectionReply1Packet(<crate::protocol::bedrock::raknet::OpenConnectionReply1Packet as View>::V),
    bedrock_raknet_OpenConnectionRequest2Packet(<crate::protocol::bedrock::raknet::OpenConnectionRequest2Packet as View>::V),
    bedrock_raknet_OpenConnectionReply2Packet(<crate::protocol::bedrock::raknet::OpenConnectionReply2Packet as View>::V),
    bedrock_raknet_ConnectionRequestPacket(<crate::protocol::bedrock::raknet::ConnectionRequestPacket as View>::V),
    bedrock_raknet_ConnectionRequestAcceptedPacket(<crate::protocol::bedrock::raknet::ConnectionRequestAcceptedPacket as View>::V),
    bedrock_raknet_NewIncomingConnectionPacket(<crate::protocol::bedrock::raknet::NewIncomingConnectionPacket as View>::V),
    bedrock_raknet_NoFreeIncomingConnectionsPacket(<crate::protocol::bedrock::raknet::NoFreeIncomingConnectionsPacket as View>::V),
    bedrock_raknet_DisconnectNotificationPacket(<crate::protocol::bedrock::raknet::DisconnectNotificationPacket as View>::V),
    bedrock_raknet_ConnectionBannedPacket(<crate::protocol::bedrock::raknet::ConnectionBannedPacket as View>::V),
    bedrock_raknet_IncompatibleProtocolPacket(<crate::protocol::bedrock::raknet::IncompatibleProtocolPacket as View>::V),
    bedrock_raknet_IpRecentlyConnectedPacket(<crate::protocol::bedrock::raknet::IpRecentlyConnectedPacket as View>::V),
    bedrock_raknet_UnconnectedPongPacket(<crate::protocol::bedrock::raknet::UnconnectedPongPacket as View>::V),
    bedrock_raknet_NakPacket(<crate::protocol::bedrock::raknet::NakPacket as View>::V),
    bedrock_raknet_AckPacket(<crate::protocol::bedrock::raknet::AckPacket as View>::V),
    java_v1_7_HandshakePacket(<crate::protocol::java::v1_7::HandshakePacket as View>::V),
    java_v1_7_ResponsePacket(<crate::protocol::java::v1_7::ResponsePacket as View>::V),
    java_v1_7_PongPacket(<crate::protocol::java::v1_7::PongPacket as View>::V),
    java_v1_7_RequestPacket(<crate::protocol::java::v1_7::RequestPacket as View>::V),
    java_v1_7_PingPacket(<crate::protocol::java::v1_7::PingPacket as View>::V),
    java_v1_7_LoginStartPacket(<crate::protocol::java::v1_7::LoginStartPacket as View>::V),
    java_v1_7_EncryptionResponsePacket(<crate::protocol::java::v1_7::EncryptionResponsePacket as View>::V),
    java_v1_7_DisconnectPacket(<crate::protocol::java::v1_7::DisconnectPacket as View>::V),
    java_v1_7_EncryptionRequestPacket(<crate::protocol::java::v1_7::EncryptionRequestPacket as View>::V),
    java_v1_7_LoginSuccessPacket(<crate::protocol::java::v1_7::LoginSuccessPacket as View>::V),
    java_v1_7_SetCompressionPacket(<crate::protocol::java::v1_7::SetCompressionPacket as View>::V),
    java_v1_7_KeepAlivePacket(<crate::protocol::java::v1_7::KeepAlivePacket as View>::V),
    java_v1_7_JoinGamePacket(<crate::protocol::java::v1_7::JoinGamePacket as View>::V),
    java_v1_8_JoinGamePacket(<crate::protocol::java::v1_8::JoinGamePacket as View>::V),
    java_v1_9_JoinGamePacket(<crate::protocol::java::v1_9::JoinGamePacket as View>::V),
}

impl View for Packet {
    type V = PacketModel;

    open spec fn view(&self) -> PacketModel {
        match self {
            Packet::bedrock_raknet_ConnectedPingPacket(p) => PacketModel::bedrock_raknet_ConnectedPingPacket(p@),
            Packet::bedrock_raknet_UnconnectedPingPacket(p) => PacketModel::bedrock_raknet_UnconnectedPingPacket(p@),
            Packet::bedrock_raknet_UnconnectedPingOpenConnectionsPacket(p) => PacketModel::bedrock_raknet_UnconnectedPingOpenConnectionsPacket(p@),
            Packet::bedrock_raknet_ConnectedPongPacket(p) => PacketModel::bedrock_raknet_ConnectedPongPacket(p@),
            Packet::bedrock_raknet_OpenConnectionRequest1Packet(p) => PacketModel::bedrock_raknet_OpenConnectionRequest1Packet(p@),
            Packet::bedrock_raknet_OpenConnectionReply1Packet(p) => PacketModel::bedrock_raknet_OpenConnectionReply1Packet(p@),
            Packet::bedrock_raknet_OpenConnectionRequest2Packet(p) => PacketModel::bedrock_raknet_OpenConnectionRequest2Packet(p@),
            Packet::bedrock_raknet_OpenConnectionReply2Packet(p) => PacketModel::bedrock_raknet_OpenConnectionReply2Packet(p@),
            Packet::bedrock_raknet_ConnectionRequestPacket(p) => PacketModel::bedrock_raknet_ConnectionRequestPacket(p@),
            Packet::bedrock_raknet_ConnectionRequestAcceptedPacket(p) => PacketModel::bedrock_raknet_ConnectionRequestAcceptedPacket(p@),
            Packet::bedrock_raknet_NewIncomingConnectionPacket(p) => PacketModel::bedrock_raknet_NewIncomingConnectionPacket(p@),
            Packet::bedrock_raknet_NoFreeIncomingConnectionsPacket(p) => PacketModel::bedrock_raknet_NoFreeIncomingConnectionsPacket(p@),
            Packet::bedrock_raknet_DisconnectNotificationPacket(p) => PacketModel::bedrock_raknet_DisconnectNotificationPacket(p@),
            Packet::bedrock_raknet_ConnectionBannedPacket(p) => PacketModel::bedrock_raknet_ConnectionBannedPacket(p@),
            Packet::bedrock_raknet_IncompatibleProtocolPacket(p) => PacketModel::bedrock_raknet_IncompatibleProtocolPacket(p@),
            Packet::bedrock_raknet_IpRecentlyConnectedPacket(p) => PacketModel::bedrock_raknet_IpRecentlyConnectedPacket(p@),
            Packet::bedrock_raknet_UnconnectedPongPacket(p) => PacketModel::bedrock_raknet_UnconnectedPongPacket(p@),
            Packet::bedrock_raknet_NakPacket(p) => PacketModel::bedrock_raknet_NakPacket(p@),
            Packet::bedrock_raknet_AckPacket(p) => PacketModel::bedrock_raknet_AckPacket(p@),
            Packet::java_v1_7_HandshakePacket(p) => PacketModel::java_v1_7_HandshakePacket(p@),
            Packet::java_v1_7_ResponsePacket(p) => PacketModel::java_v1_7_ResponsePacket(p@),
            Packet::java_v1_7_PongPacket(p) => PacketModel::java_v1_7_PongPacket(p@),
            Packet::java_v1_7_RequestPacket(p) => PacketModel::java_v1_7_RequestPacket(p@),
            Packet::java_v1_7_PingPacket(p) => PacketModel::java_v1_7_PingPacket(p@),
            Packet::java_v1_7_LoginStartPacket(p) => PacketModel::java_v1_7_LoginStartPacket(p@),
            Packet::java_v1_7_EncryptionResponsePacket(p) => PacketModel::java_v1_7_EncryptionResponsePacket(p@),
            Packet::java_v1_7_DisconnectPacket(p) => PacketModel::java_v1_7_DisconnectPacket(p@),
            Packet::java_v1_7_EncryptionRequestPacket(p) => PacketModel::java_v1_7_EncryptionRequestPacket(p@),
            Packet::java_v1_7_LoginSuccessPacket(p) => PacketModel::java_v1_7_LoginSuccessPacket(p@),
            Packet::java_v1_7_SetCompressionPacket(p) => PacketModel::java_v1_7_SetCompressionPacket(p@),
            Packet::java_v1_7_KeepAlivePacket(p) => PacketModel::java_v1_7_KeepAlivePacket(p@),
            Packet::java_v1_7_JoinGamePacket(p) => PacketModel::java_v1_7_JoinGamePacket(p@),
            Packet::java_v1_8_JoinGamePacket(p) => PacketModel::java_v1_8_JoinGamePacket(p@),
            Packet::java_v1_9_JoinGamePacket(p) => PacketModel::java_v1_9_JoinGamePacket(p@),
        }
    }
}

impl Packet {
    /// The unframed field bytes of a packet model.
    pub open spec fn spec_write(m: PacketModel) -> Seq<u8> {
        match m {
            PacketModel::bedrock_raknet_ConnectedPingPacket(x) => <crate::protocol::bedrock::raknet::ConnectedPingPacket as WriteField>::spec_write(x),
            PacketModel::bedrock_raknet_UnconnectedPingPacket(x) => <crate::protocol::bedrock::raknet::UnconnectedPingPacket as WriteField>::spec_write(x),
            PacketModel::bedrock_raknet_UnconnectedPingOpenConnectionsPacket(x) => <crate::protocol::bedrock::raknet::UnconnectedPingOpenConnectionsPacket as WriteField>::spec_write(x),
            PacketModel::bedrock_raknet_ConnectedPongPacket(x) => <crate::protocol::bedrock::raknet::ConnectedPongPacket as WriteField>::spec_write(x),
            PacketModel::bedrock_raknet_OpenConnectionRequest1Packet(x) => <crate::protocol::bedrock::raknet::OpenConnectionRequest1Packet as WriteField>::spec_write(x),
            PacketModel::bedrock_raknet_OpenConnectionReply1Packet(x) => <crate::protocol::bedrock::raknet::OpenConnectionReply1Packet as WriteField>::spec_write(x),
            PacketModel::bedrock_raknet_OpenConnectionRequest2Packet(x) => <crate::protocol::bedrock::raknet::OpenConnectionRequest2Packet as WriteField>::spec_write(x),
            PacketModel::bedrock_raknet_OpenConnectionReply2Packet(x) => <crate::protocol::bedrock::raknet::OpenConnectionReply2Packet as WriteField>::spec_write(x),
            PacketModel::bedrock_raknet_ConnectionRequestPacket(x) => <crate::protocol::bedrock::raknet::ConnectionRequestPacket as WriteField>::spec_write(x),
            PacketModel::bedrock_raknet_ConnectionRequestAcceptedPacket(x) => <crate::protocol::bedrock::raknet::ConnectionRequestAcceptedPacket as WriteField>::spec_write(x),
            PacketModel::bedrock_raknet_NewIncomingConnectionPacket(x) => <crate::protocol::bedrock::raknet::NewIncomingConnectionPacket as WriteField>::spec_write(x),
            PacketModel::bedrock_raknet_NoFreeIncomingConnectionsPacket(x) => <crate::protocol::bedrock::raknet::NoFreeIncomingConnectionsPacket as WriteField>::spec_write(x),
            PacketModel::bedrock_raknet_DisconnectNotificationPacket(x) => <crate::protocol::bedrock::raknet::DisconnectNotificationPacket as WriteField>::spec_write(x),
            PacketModel::bedrock_raknet_ConnectionBannedPacket(x) => <crate::protocol::bedrock::raknet::ConnectionBannedPacket as WriteField>::spec_write(x),
            PacketModel::bedrock_raknet_IncompatibleProtocolPacket(x) => <crate::protocol::bedrock::raknet::IncompatibleProtocolPacket as WriteField>::spec_write(x),
            PacketModel::bedrock_raknet_IpRecentlyConnectedPacket(x) => <crate::protocol::bedrock::raknet::IpRecentlyConnectedPacket as WriteField>::spec_write(x),
            PacketModel::bedrock_raknet_UnconnectedPongPacket(x) => <crate::protocol::bedrock::raknet::UnconnectedPongPacket as WriteField>::spec_write(x),
            PacketModel::bedrock_raknet_NakPacket(x) => <crate::protocol::bedrock::raknet::NakPacket as WriteField>::spec_write(x),
            PacketModel::bedrock_raknet_AckPacket(x) => <crate::protocol::bedrock::raknet::AckPacket as WriteField>::spec_write(x),
            PacketModel::java_v1_7_HandshakePacket(x) => <crate::protocol::java::v1_7::HandshakePacket as WriteField>::spec_write(x),
            PacketModel::java_v1_7_ResponsePacket(x) => <crate::protocol::java::v1_7::ResponsePacket as WriteField>::spec_write(x),
            PacketModel::java_v1_7_PongPacket(x) => <crate::protocol::java::v1_7::PongPacket as WriteField>::spec_write(x),
            PacketModel::java_v1_7_RequestPacket(x) => <crate::protocol::java::v1_7::RequestPacket as WriteField>::spec_write(x),
            PacketModel::java_v1_7_PingPacket(x) => <crate::protocol::java::v1_7::PingPacket as WriteField>::spec_write(x),
            PacketModel::java_v1_7_LoginStartPacket(x) => <crate::protocol::java::v1_7::LoginStartPacket as WriteField>::spec_write(x),
            PacketModel::java_v1_7_EncryptionResponsePacket(x) => <crate::protocol::java::v1_7::EncryptionResponsePacket as WriteField>::spec_write(x),
            PacketModel::java_v1_7_DisconnectPacket(x) => <crate::protocol::java::v1_7::DisconnectPacket as WriteField>::spec_write(x),
            PacketModel::java_v1_7_EncryptionRequestPacket(x) => <crate::protocol::java::v1_7::EncryptionRequestPacket as WriteField>::spec_write(x),
            PacketModel::java_v1_7_LoginSuccessPacket(x) => <crate::protocol::java::v1_7::LoginSuccessPacket as WriteField>::spec_write(x),
            PacketModel::java_v1_7_SetCompressionPacket(x) => <crate::protocol::java::v1_7::SetCompressionPacket as WriteField>::spec_write(x),
            PacketModel::java_v1_7_KeepAlivePacket(x) => <crate::protocol::java::v1_7::KeepAlivePacket as WriteField>::spec_write(x),
            PacketModel::java_v1_7_JoinGamePacket(x) => <crate::protocol::java::v1_7::JoinGamePacket as WriteField>::spec_write(x),
            PacketModel::java_v1_8_JoinGamePacket(x) => <crate::protocol::java::v1_8::JoinGamePacket as WriteField>::spec_write(x),
            PacketModel::java_v1_9_JoinGamePacket(x) => <crate::protocol::java::v1_9::JoinGamePacket as WriteField>::spec_write(x),
        }
    }

    /// Well-formedness of a packet model: its constant fields are canonical
    /// and its variable-length fields fit their length prefixes.
    pub open spec fn wf_model(m: PacketModel) -> bool {
        match m {
            PacketModel::bedrock_raknet_ConnectedPingPacket(x) => <crate::protocol::bedrock::raknet::ConnectedPingPacket as WriteField>::wf_model(x),
            PacketModel::bedrock_raknet_UnconnectedPingPacket(x) => <crate::protocol::bedrock::raknet::UnconnectedPingPacket as WriteField>::wf_model(x),
            PacketModel::bedrock_raknet_UnconnectedPingOpenConnectionsPacket(x) => <crate::protocol::bedrock::raknet::UnconnectedPingOpenConnectionsPacket as WriteField>::wf_model(x),
            PacketModel::bedrock_raknet_ConnectedPongPacket(x) => <crate::protocol::bedrock::raknet::ConnectedPongPacket as WriteField>::wf_model(x),
            PacketModel::bedrock_raknet_OpenConnectionRequest1Packet(x) => <crate::protocol::bedrock::raknet::OpenConnectionRequest1Packet as WriteField>::wf_model(x),
            PacketModel::bedrock_raknet_OpenConnectionReply1Packet(x) => <crate::protocol::bedrock::raknet::OpenConnectionReply1Packet as WriteField>::wf_model(x),
            PacketModel::bedrock_raknet_OpenConnectionRequest2Packet(x) => <crate::protocol::bedrock::raknet::OpenConnectionRequest2Packet as WriteField>::wf_model(x),
            PacketModel::bedrock_raknet_OpenConnectionReply2Packet(x) => <crate::protocol::bedrock::raknet::OpenConnectionReply2Packet as WriteField>::wf_model(x),
            PacketModel::bedrock_raknet_ConnectionRequestPacket(x) => <crate::protocol::bedrock::raknet::ConnectionRequestPacket as WriteField>::wf_model(x),
            PacketModel::bedrock_raknet_ConnectionRequestAcceptedPacket(x) => <crate::protocol::bedrock::raknet::ConnectionRequestAcceptedPacket as WriteField>::wf_model(x),
            PacketModel::bedrock_raknet_NewIncomingConnectionPacket(x) => <crate::protocol::bedrock::raknet::NewIncomingConnectionPacket as WriteField>::wf_model(x),
            PacketModel::bedrock_raknet_NoFreeIncomingConnectionsPacket(x) => <crate::protocol::bedrock::raknet::NoFreeIncomingConnectionsPacket as WriteField>::wf_model(x),
            PacketModel::bedrock_raknet_DisconnectNotificationPacket(x) => <crate::protocol::bedrock::raknet::DisconnectNotificationPacket as WriteField>::wf_model(x),
            PacketModel::bedrock_raknet_ConnectionBannedPacket(x) => <crate::protocol::bedrock::raknet::ConnectionBannedPacket as WriteField>::wf_model(x),
            PacketModel::bedrock_raknet_IncompatibleProtocolPacket(x) => <crate::protocol::bedrock::raknet::IncompatibleProtocolPacket as WriteField>::wf_model(x),
            PacketModel::bedrock_raknet_IpRecentlyConnectedPacket(x) => <crate::protocol::bedrock::raknet::IpRecentlyConnectedPacket as WriteField>::wf_model(x),
            PacketModel::bedrock_raknet_UnconnectedPongPacket(x) => <crate::protocol::bedrock::raknet::UnconnectedPongPacket as WriteField>::wf_model(x),
            PacketModel::bedrock_raknet_NakPacket(x) => <crate::protocol::bedrock::raknet::NakPacket as WriteField>::wf_model(x),
            PacketModel::bedrock_raknet_AckPacket(x) => <crate::protocol::bedrock::raknet::AckPacket as WriteField>::wf_model(x),
            PacketModel::java_v1_7_HandshakePacket(x) => <crate::protocol::java::v1_7::HandshakePacket as WriteField>::wf_model(x),
            PacketModel::java_v1_7_ResponsePacket(x) => <crate::protocol::java::v1_7::ResponsePacket as WriteField>::wf_model(x),
            PacketModel::java_v1_7_PongPacket(x) => <crate::protocol::java::v1_7::PongPacket as WriteField>::wf_model(x),
            PacketModel::java_v1_7_RequestPacket(x) => <crate::protocol::java::v1_7::RequestPacket as WriteField>::wf_model(x),
            PacketModel::java_v1_7_PingPacket(x) => <crate::protocol::java::v1_7::PingPacket as WriteField>::wf_model(x),
            PacketModel::java_v1_7_LoginStartPacket(x) => <crate::protocol::java::v1_7::LoginStartPacket as WriteField>::wf_model(x),
            PacketModel::java_v1_7_EncryptionResponsePacket(x) => <crate::protocol::java::v1_7::EncryptionResponsePacket as WriteField>::wf_model(x),
            PacketModel::java_v1_7_DisconnectPacket(x) => <crate::protocol::java::v1_7::DisconnectPacket as WriteField>::wf_model(x),
            PacketModel::java_v1_7_EncryptionRequestPacket(x) => <crate::protocol::java::v1_7::EncryptionRequestPacket as WriteField>::wf_model(x),
            PacketModel::java_v1_7_LoginSuccessPacket(x) => <crate::protocol::java::v1_7::LoginSuccessPacket as WriteField>::wf_model(x),
            PacketModel::java_v1_7_SetCompressionPacket(x) => <crate::protocol::java::v1_7::SetCompressionPacket as WriteField>::wf_model(x),
            PacketModel::java_v1_7_KeepAlivePacket(x) => <crate::protocol::java::v1_7::KeepAlivePacket as WriteField>::wf_model(x),
            PacketModel::java_v1_7_JoinGamePacket(x) => <crate::protocol::java::v1_7::JoinGamePacket as WriteField>::wf_model(x),
            PacketModel::java_v1_8_JoinGamePacket(x) => <crate::protocol::java::v1_8::JoinGamePacket as WriteField>::wf_model(x),
            PacketModel::java_v1_9_JoinGamePacket(x) => <crate::protocol::java::v1_9::JoinGamePacket as WriteField>::wf_model(x),
        }
    }

    /// The protocol-state transition a packet requests. The only packet that
    /// requests one is the Java handshake.
    pub open spec fn spec_next_state(m: PacketModel) -> Option<State> {
        match m {
            PacketModel::java_v1_7_HandshakePacket(x) =>
                crate::protocol::java::v1_7::HandshakePacket::spec_next_state(x),
            _ => None,
        }
    }

    /// The connection state whose table row carries this packet kind.
    pub open spec fn kind_state(m: PacketModel) -> State {
        match m {
            PacketModel::bedrock_raknet_ConnectedPingPacket(x) => State::BedrockRakNetOffline,
            PacketModel::bedrock_raknet_UnconnectedPingPacket(x) => State::BedrockRakNetOffline,
            PacketModel::bedrock_raknet_UnconnectedPingOpenConnectionsPacket(x) => State::BedrockRakNetOffline,
            PacketModel::bedrock_raknet_ConnectedPongPacket(x) => State::BedrockRakNetOffline,
            PacketModel::bedrock_raknet_OpenConnectionRequest1Packet(x) => State::BedrockRakNetOffline,
            PacketModel::bedrock_raknet_OpenConnectionReply1Packet(x) => State::BedrockRakNetOffline,
            PacketModel::bedrock_raknet_OpenConnectionRequest2Packet(x) => State::BedrockRakNetOffline,
            PacketModel::bedrock_raknet_OpenConnectionReply2Packet(x) => State::BedrockRakNetOffline,
            PacketModel::bedrock_raknet_ConnectionRequestPacket(x) => State::BedrockRakNet,
            PacketModel::bedrock_raknet_ConnectionRequestAcceptedPacket(x) => State::BedrockRakNet,
            PacketModel::bedrock_raknet_NewIncomingConnectionPacket(x) => State::BedrockRakNet,
            PacketModel::bedrock_raknet_NoFreeIncomingConnectionsPacket(x) => State::BedrockRakNet,
            PacketModel::bedrock_raknet_DisconnectNotificationPacket(x) => State::BedrockRakNet,
            PacketModel::bedrock_raknet_ConnectionBannedPacket(x) => State::BedrockRakNet,
            PacketModel::bedrock_raknet_IncompatibleProtocolPacket(x) => State::BedrockRakNet,
            PacketModel::bedrock_raknet_IpRecentlyConnectedPacket(x) => State::BedrockRakNet,
            PacketModel::bedrock_raknet_UnconnectedPongPacket(x) => State::BedrockRakNetOffline,
            PacketModel::bedrock_raknet_NakPacket(x) => State::BedrockRakNetOffline,
            PacketModel::bedrock_raknet_AckPacket(x) => State::BedrockRakNetOffline,
            PacketModel::java_v1_7_HandshakePacket(x) => State::JavaHandshake,
            PacketModel::java_v1_7_ResponsePacket(x) => State::JavaStatus,
            PacketModel::java_v1_7_PongPacket(x) => State::JavaStatus,
            PacketModel::java_v1_7_RequestPacket(x) => State::JavaStatus,
            PacketModel::java_v1_7_PingPacket(x) => State::JavaStatus,
            PacketModel::java_v1_7_LoginStartPacket(x) => State::JavaLogin,
            PacketModel::java_v1_7_EncryptionResponsePacket(x) => State::JavaLogin,
            PacketModel::java_v1_7_DisconnectPacket(x) => State::JavaLogin,
            PacketModel::java_v1_7_EncryptionRequestPacket(x) => State::JavaLogin,
            PacketModel::java_v1_7_LoginSuccessPacket(x) => State::JavaLogin,
            PacketModel::java_v1_7_SetCompressionPacket(x) => State::JavaLogin,
            PacketModel::java_v1_7_KeepAlivePacket(x) => State::JavaPlay,
            PacketModel::java_v1_7_JoinGamePacket(x) => State::JavaPlay,
            PacketModel::java_v1_8_JoinGamePacket(x) => State::JavaPlay,
            PacketModel::java_v1_9_JoinGamePacket(x) => State::JavaPlay,
        }
    }

    pub fn write(&self) -> (out: Vec<u8>)
        ensures
            out@ == Packet::spec_write(self@),
    {
        match self {
            Packet::bedrock_raknet_ConnectedPingPacket(p) => p.write(),
            Packet::bedrock_raknet_UnconnectedPingPacket(p) => p.write(),
            Packet::bedrock_raknet_UnconnectedPingOpenConnectionsPacket(p) => p.write(),
            Packet::bedrock_raknet_ConnectedPongPacket(p) => p.write(),
            Packet::bedrock_raknet_OpenConnectionRequest1Packet(p) => p.write(),
            Packet::bedrock_raknet_OpenConnectionReply1Packet(p) => p.write(),
            Packet::bedrock_raknet_OpenConnectionRequest2Packet(p) => p.write(),
            Packet::bedrock_raknet_OpenConnectionReply2Packet(p) => p.write(),
            Packet::bedrock_raknet_ConnectionRequestPacket(p) => p.write(),
            Packet::bedrock_raknet_ConnectionRequestAcceptedPacket(p) => p.write(),
            Packet::bedrock_raknet_NewIncomingConnectionPacket(p) => p.write(),
            Packet::bedrock_raknet_NoFreeIncomingConnectionsPacket(p) => p.write(),
            Packet::bedrock_raknet_DisconnectNotificationPacket(p) => p.write(),
            Packet::bedrock_raknet_ConnectionBannedPacket(p) => p.write(),
            Packet::bedrock_raknet_IncompatibleProtocolPacket(p) => p.write(),
            Packet::bedrock_raknet_IpRecentlyConnectedPacket(p) => p.write(),
            Packet::bedrock_raknet_UnconnectedPongPacket(p) => p.write(),
            Packet::bedrock_raknet_NakPacket(p) => p.write(),
            Packet::bedrock_raknet_AckPacket(p) => p.write(),
            Packet::java_v1_7_HandshakePacket(p) => p.write(),
            Packet::java_v1_7_ResponsePacket(p) => p.write(),
            Packet::java_v1_7_PongPacket(p) => p.write(),
            Packet::java_v1_7_RequestPacket(p) => p.write(),
            Packet::java_v1_7_PingPacket(p) => p.write(),
            Packet::java_v1_7_LoginStartPacket(p) => p.write(),
            Packet::java_v1_7_EncryptionResponsePacket(p) => p.write(),
            Packet::java_v1_7_DisconnectPacket(p) => p.write(),
            Packet::java_v1_7_EncryptionRequestPacket(p) => p.write(),
            Packet::java_v1_7_LoginSuccessPacket(p) => p.write(),
            Packet::java_v1_7_SetCompressionPacket(p) => p.write(),
            Packet::java_v1_7_KeepAlivePacket(p) => p.write(),
            Packet::java_v1_7_JoinGamePacket(p) => p.write(),
            Packet::java_v1_8_JoinGamePacket(p) => p.write(),
            Packet::java_v1_9_JoinGamePacket(p) => p.write(),
        }
    }

    pub fn name(&self) -> (r: &str) {
        match self {
            Packet::bedrock_raknet_ConnectedPingPacket(p) => p.name(),
            Packet::bedrock_raknet_UnconnectedPingPacket(p) => p.name(),
            Packet::bedrock_raknet_UnconnectedPingOpenConnectionsPacket(p) => p.name(),
            Packet::bedrock_raknet_ConnectedPongPacket(p) => p.name(),
            Packet::bedrock_raknet_OpenConnectionRequest1Packet(p) => p.name(),
            Packet::bedrock_raknet_OpenConnectionReply1Packet(p) => p.name(),
            Packet::bedrock_raknet_OpenConnectionRequest2Packet(p) => p.name(),
            Packet::bedrock_raknet_OpenConnectionReply2Packet(p) => p.name(),
            Packet::bedrock_raknet_ConnectionRequestPacket(p) => p.name(),
            Packet::bedrock_raknet_ConnectionRequestAcceptedPacket(p) => p.name(),
            Packet::bedrock_raknet_NewIncomingConnectionPacket(p) => p.name(),
            Packet::bedrock_raknet_NoFreeIncomingConnectionsPacket(p) => p.name(),
            Packet::bedrock_raknet_DisconnectNotificationPacket(p) => p.name(),
            Packet::bedrock_raknet_ConnectionBannedPacket(p) => p.name(),
            Packet::bedrock_raknet_IncompatibleProtocolPacket(p) => p.name(),
            Packet::bedrock_raknet_IpRecentlyConnectedPacket(p) => p.name(),
            Packet::bedrock_raknet_UnconnectedPongPacket(p) => p.name(),
            Packet::bedrock_raknet_NakPacket(p) => p.name(),
            Packet::bedrock_raknet_AckPacket(p) => p.name(),
            Packet::java_v1_7_HandshakePacket(p) => p.name(),
            Packet::java_v1_7_ResponsePacket(p) => p.name(),
            Packet::java_v1_7_PongPacket(p) => p.name(),
            Packet::java_v1_7_RequestPacket(p) => p.name(),
            Packet::java_v1_7_PingPacket(p) => p.name(),
            Packet::java_v1_7_LoginStartPacket(p) => p.name(),
            Packet::java_v1_7_EncryptionResponsePacket(p) => p.name(),
            Packet::java_v1_7_DisconnectPacket(p) => p.name(),
            Packet::java_v1_7_EncryptionRequestPacket(p) => p.name(),
            Packet::java_v1_7_LoginSuccessPacket(p) => p.name(),
            Packet::java_v1_7_SetCompressionPacket(p) => p.name(),
            Packet::java_v1_7_KeepAlivePacket(p) => p.name(),
            Packet::java_v1_7_JoinGamePacket(p) => p.name(),
            Packet::java_v1_8_JoinGamePacket(p) => p.name(),
            Packet::java_v1_9_JoinGamePacket(p) => p.name(),
        }
    }

    pub fn next_state(&self) -> (r: Option<State>)
        ensures
            r == Packet::spec_next_state(self@),
    {
        match self {
            Packet::java_v1_7_HandshakePacket(p) => p.next_state(),
            _ => None,
        }
    }
}

/// A query direction matches a table entry's direction when they are equal or
/// the entry accepts either direction.
pub open spec fn bound_matches(bound: Bound, entry: Bound) -> bool {
    bound == entry || entry == Bound::Any
}

fn bound_matches_exec(bound: Bound, entry: Bound) -> (r: bool)
    ensures
        r == bound_matches(bound, entry),
{
    bound == entry || entry == Bound::Any
}

/// The registered protocol versions.
#[derive(Clone, Copy, Debug, PartialEq, Eq, Structural)]
#[allow(non_camel_case_types)]
pub enum Protocol {
    ProtocolBedrockRakNet,
    ProtocolJava_1_7,
    ProtocolJava_1_8,
    ProtocolJava_1_9,
    ProtocolJava_1_10,
    ProtocolJava_1_11,
    ProtocolJava_1_12,
    ProtocolJava_1_13,
    ProtocolJava_1_14,
}

pub open spec fn spec_edition(p: Protocol) -> ProtocolEdition {
    match p {
        Protocol::ProtocolBedrockRakNet => ProtocolEdition::BedrockEdition,
        _ => ProtocolEdition::JavaEdition,
    }
}

pub open spec fn spec_version(p: Protocol) -> i32 {
    match p {
        Protocol::ProtocolBedrockRakNet => 9,
        Protocol::ProtocolJava_1_7 => 5,
        Protocol::ProtocolJava_1_8 => 47,
        Protocol::ProtocolJava_1_9 => 110,
        Protocol::ProtocolJava_1_10 => 210,
        Protocol::ProtocolJava_1_11 => 316,
        Protocol::ProtocolJava_1_12 => 340,
        Protocol::ProtocolJava_1_13 => 404,
        Protocol::ProtocolJava_1_14 => 457,
    }
}

pub open spec fn spec_proto_name(p: Protocol) -> Seq<char> {
    match p {
        Protocol::ProtocolBedrockRakNet => "RakNet"@,
        Protocol::ProtocolJava_1_7 => "1.7"@,
        Protocol::ProtocolJava_1_8 => "1.8"@,
        Protocol::ProtocolJava_1_9 => "1.9"@,
        Protocol::ProtocolJava_1_10 => "1.10"@,
        Protocol::ProtocolJava_1_11 => "1.11"@,
        Protocol::ProtocolJava_1_12 => "1.12"@,
        Protocol::ProtocolJava_1_13 => "1.13"@,
        Protocol::ProtocolJava_1_14 => "1.14"@,
    }
}

/// The wire id of the join-game packet, which moved across Java versions.
pub open spec fn spec_join_game_id(p: Protocol) -> i32 {
    match p {
        Protocol::ProtocolJava_1_7 => 0x01,
        Protocol::ProtocolJava_1_8 => 0x01,
        Protocol::ProtocolJava_1_14 => 0x25,
        _ => 0x23,
    }
}

fn join_game_id_exec(p: Protocol) -> (r: i32)
    ensures
        r == spec_join_game_id(p),
{
    match p {
        Protocol::ProtocolJava_1_7 => 0x01,
        Protocol::ProtocolJava_1_8 => 0x01,
        Protocol::ProtocolJava_1_14 => 0x25,
        _ => 0x23,
    }
}

/// Table lookup and field read for the Bedrock RakNet version.
#[verifier::opaque]
pub open spec fn spec_bedrock_read(id: i32, state: State, bound: Bound, b: Seq<u8>) -> Decoded<
    PacketModel,
> {
    if id == 0x00 && state is BedrockRakNetOffline && bound_matches(bound, Bound::Serverbound) {
        match <crate::protocol::bedrock::raknet::ConnectedPingPacket as ReadField>::spec_read(b) {
            Decoded::Value(m, n) => Decoded::Value(PacketModel::bedrock_raknet_ConnectedPingPacket(m), n),
            Decoded::NeedMoreData => Decoded::NeedMoreData,
            Decoded::Malformed => Decoded::Malformed,
        }
    } else if id == 0x01 && state is BedrockRakNetOffline && bound_matches(bound, Bound::Serverbound) {
        match <crate::protocol::bedrock::raknet::UnconnectedPingPacket as ReadField>::spec_read(b) {
            Decoded::Value(m, n) => Decoded::Value(PacketModel::bedrock_raknet_UnconnectedPingPacket(m), n),
            Decoded::NeedMoreData => Decoded::NeedMoreData,
            Decoded::Malformed => Decoded::Malformed,
        }
    } else if id == 0x02 && state is BedrockRakNetOffline && bound_matches(bound, Bound::Serverbound) {
        match <crate::protocol::bedrock::raknet::UnconnectedPingOpenConnectionsPacket as ReadField>::spec_read(b) {
            Decoded::Value(m, n) => Decoded::Value(PacketModel::bedrock_raknet_UnconnectedPingOpenConnectionsPacket(m), n),
            Decoded::NeedMoreData => Decoded::NeedMoreData,
            Decoded::Malformed => Decoded::Malformed,
        }
    } else if id == 0x03 && state is BedrockRakNetOffline && bound_matches(bound, Bound::Clientbound) {
        match <crate::protocol::bedrock::raknet::ConnectedPongPacket as ReadField>::spec_read(b) {
            Decoded::Value(m, n) => Decoded::Value(PacketModel::bedrock_raknet_ConnectedPongPacket(m), n),
            Decoded::NeedMoreData => Decoded::NeedMoreData,
            Decoded::Malformed => Decoded::Malformed,
        }
    } else if id == 0x05 && state is BedrockRakNetOffline && bound_matches(bound, Bound::Serverbound) {
        match <crate::protocol::bedrock::raknet::OpenConnectionRequest1Packet as ReadField>::spec_read(b) {
            Decoded::Value(m, n) => Decoded::Value(PacketModel::bedrock_raknet_OpenConnectionRequest1Packet(m), n),
            Decoded::NeedMoreData => Decoded::NeedMoreData,
            Decoded::Malformed => Decoded::Malformed,
        }
    } else if id == 0x06 && state is BedrockRakNetOffline && bound_matches(bound, Bound::Clientbound) {
        match <crate::protocol::bedrock::raknet::OpenConnectionReply1Packet as ReadField>::spec_read(b) {
            Decoded::Value(m, n) => Decoded::Value(PacketModel::bedrock_raknet_OpenConnectionReply1Packet(m), n),
            Decoded::NeedMoreData => Decoded::NeedMoreData,
            Decoded::Malformed => Decoded::Malformed,
        }
    } else if id == 0x07 && state is BedrockRakNetOffline && bound_matches(bound, Bound::Serverbound) {
        match <crate::protocol::bedrock::raknet::OpenConnectionRequest2Packet as ReadField>::spec_read(b) {
            Decoded::Value(m, n) => Decoded::Value(PacketModel::bedrock_raknet_OpenConnectionRequest2Packet(m), n),
            Decoded::NeedMoreData => Decoded::NeedMoreData,
            Decoded::Malformed => Decoded::Malformed,
        }
    } else if id == 0x08 && state is BedrockRakNetOffline && bound_matches(bound, Bound::Clientbound) {
        match <crate::protocol::bedrock::raknet::OpenConnectionReply2Packet as ReadField>::spec_read(b) {
            Decoded::Value(m, n) => Decoded::Value(PacketModel::bedrock_raknet_OpenConnectionReply2Packet(m), n),
            Decoded::NeedMoreData => Decoded::NeedMoreData,
            Decoded::Malformed => Decoded::Malformed,
        }
    } else if id == 0x09 && state is BedrockRakNet && bound_matches(bound, Bound::Serverbound) {
        match <crate::protocol::bedrock::raknet::ConnectionRequestPacket as ReadField>::spec_read(b) {
            Decoded::Value(m, n) => Decoded::Value(PacketModel::bedrock_raknet_ConnectionRequestPacket(m), n),
            Decoded::NeedMoreData => Decoded::NeedMoreData,
            Decoded::Malformed => Decoded::Malformed,
        }
    } else if id == 0x10 && state is BedrockRakNet && bound_matches(bound, Bound::Clientbound) {
        match <crate::protocol::bedrock::raknet::ConnectionRequestAcceptedPacket as ReadField>::spec_read(b) {
            Decoded::Value(m, n) => Decoded::Value(PacketModel::bedrock_raknet_ConnectionRequestAcceptedPacket(m), n),
            Decoded::NeedMoreData => Decoded::NeedMoreData,
            Decoded::Malformed => Decoded::Malformed,
        }
    } else if id == 0x13 && state is BedrockRakNet && bound_matches(bound, Bound::Serverbound) {
        match <crate::protocol::bedrock::raknet::NewIncomingConnectionPacket as ReadField>::spec_read(b) {
            Decoded::Value(m, n) => Decoded::Value(PacketModel::bedrock_raknet_NewIncomingConnectionPacket(m), n),
            Decoded::NeedMoreData => Decoded::NeedMoreData,
            Decoded::Malformed => Decoded::Malformed,
        }
    } else if id == 0x14 && state is BedrockRakNet && bound_matches(bound, Bound::Neither) {
        match <crate::protocol::bedrock::raknet::NoFreeIncomingConnectionsPacket as ReadField>::spec_read(b) {
            Decoded::Value(m, n) => Decoded::Value(PacketModel::bedrock_raknet_NoFreeIncomingConnectionsPacket(m), n),
            Decoded::NeedMoreData => Decoded::NeedMoreData,
            Decoded::Malformed => Decoded::Malformed,
        }
    } else if id == 0x15 && state is BedrockRakNet && bound_matches(bound, Bound::Neither) {
        match <crate::protocol::bedrock::raknet::DisconnectNotificationPacket as ReadField>::spec_read(b) {
            Decoded::Value(m, n) => Decoded::Value(PacketModel::bedrock_raknet_DisconnectNotificationPacket(m), n),
            Decoded::NeedMoreData => Decoded::NeedMoreData,
            Decoded::Malformed => Decoded::Malformed,
        }
    } else if id == 0x17 && state is BedrockRakNet && bound_matches(bound, Bound::Neither) {
        match <crate::protocol::bedrock::raknet::ConnectionBannedPacket as ReadField>::spec_read(b) {
            Decoded::Value(m, n) => Decoded::Value(PacketModel::bedrock_raknet_ConnectionBannedPacket(m), n),
            Decoded::NeedMoreData => Decoded::NeedMoreData,
            Decoded::Malformed => Decoded::Malformed,
        }
    } else if id == 0x19 && state is BedrockRakNet && bound_matches(bound, Bound::Neither) {
        match <crate::protocol::bedrock::raknet::IncompatibleProtocolPacket as ReadField>::spec_read(b) {
            Decoded::Value(m, n) => Decoded::Value(PacketModel::bedrock_raknet_IncompatibleProtocolPacket(m), n),
            Decoded::NeedMoreData => Decoded::NeedMoreData,
            Decoded::Malformed => Decoded::Malformed,
        }
    } else if id == 0x1a && state is BedrockRakNet && bound_matches(bound, Bound::Neither) {
        match <crate::protocol::bedrock::raknet::IpRecentlyConnectedPacket as ReadField>::spec_read(b) {
            Decoded::Value(m, n) => Decoded::Value(PacketModel::bedrock_raknet_IpRecentlyConnectedPacket(m), n),
            Decoded::NeedMoreData => Decoded::NeedMoreData,
            Decoded::Malformed => Decoded::Malformed,
        }
    } else if id == 0x1c && state is BedrockRakNetOffline && bound_matches(bound, Bound::Clientbound) {
        match <crate::protocol::bedrock::raknet::UnconnectedPongPacket as ReadField>::spec_read(b) {
            Decoded::Value(m, n) => Decoded::Value(PacketModel::bedrock_raknet_UnconnectedPongPacket(m), n),
            Decoded::NeedMoreData => Decoded::NeedMoreData,
            Decoded::Malformed => Decoded::Malformed,
        }
    } else if id == 0xa0 && state is BedrockRakNetOffline && bound_matches(bound, Bound::Any) {
        match <crate::protocol::bedrock::raknet::NakPacket as ReadField>::spec_read(b) {
            Decoded::Value(m, n) => Decoded::Value(PacketModel::bedrock_raknet_NakPacket(m), n),
            Decoded::NeedMoreData => Decoded::NeedMoreData,
            Decoded::Malformed => Decoded::Malformed,
        }
    } else if id == 0xc0 && state is BedrockRakNetOffline && bound_matches(bound, Bound::Any) {
        match <crate::protocol::bedrock::raknet::AckPacket as ReadField>::spec_read(b) {
            Decoded::Value(m, n) => Decoded::Value(PacketModel::bedrock_raknet_AckPacket(m), n),
            Decoded::NeedMoreData => Decoded::NeedMoreData,
            Decoded::Malformed => Decoded::Malformed,
        }
    } else {
        Decoded::Malformed
    }
}

/// Table lookup and field read for a Java version.
#[verifier::opaque]
pub open spec fn spec_java_read(p: Protocol, id: i32, state: State, bound: Bound, b: Seq<u8>) -> Decoded<
    PacketModel,
> {
    if id == 0x00 && state is JavaHandshake && bound_matches(bound, Bound::Serverbound) {
        match <crate::protocol::java::v1_7::HandshakePacket as ReadField>::spec_read(b) {
            Decoded::Value(m, n) => Decoded::Value(PacketModel::java_v1_7_HandshakePacket(m), n),
            Decoded::NeedMoreData => Decoded::NeedMoreData,
            Decoded::Malformed => Decoded::Malformed,
        }
    } else if id == 0x00 && state is JavaStatus && bound_matches(bound, Bound::Clientbound) {
        match <crate::protocol::java::v1_7::ResponsePacket as ReadField>::spec_read(b) {
            Decoded::Value(m, n) => Decoded::Value(PacketModel::java_v1_7_ResponsePacket(m), n),
            Decoded::NeedMoreData => Decoded::NeedMoreData,
            Decoded::Malformed => Decoded::Malformed,
        }
    } else if id == 0x01 && state is JavaStatus && bound_matches(bound, Bound::Clientbound) {
        match <crate::protocol::java::v1_7::PongPacket as ReadField>::spec_read(b) {
            Decoded::Value(m, n) => Decoded::Value(PacketModel::java_v1_7_PongPacket(m), n),
            Decoded::NeedMoreData => Decoded::NeedMoreData,
            Decoded::Malformed => Decoded::Malformed,
        }
    } else if id == 0x00 && state is JavaStatus && bound_matches(bound, Bound::Serverbound) {
        match <crate::protocol::java::v1_7::RequestPacket as ReadField>::spec_read(b) {
            Decoded::Value(m, n) => Decoded::Value(PacketModel::java_v1_7_RequestPacket(m), n),
            Decoded::NeedMoreData => Decoded::NeedMoreData,
            Decoded::Malformed => Decoded::Malformed,
        }
    } else if id == 0x01 && state is JavaStatus && bound_matches(bound, Bound::Serverbound) {
        match <crate::protocol::java::v1_7::PingPacket as ReadField>::spec_read(b) {
            Decoded::Value(m, n) => Decoded::Value(PacketModel::java_v1_7_PingPacket(m), n),
            Decoded::NeedMoreData => Decoded::NeedMoreData,
            Decoded::Malformed => Decoded::Malformed,
        }
    } else if id == 0x00 && state is JavaLogin && bound_matches(bound, Bound::Serverbound) {
        match <crate::protocol::java::v1_7::LoginStartPacket as ReadField>::spec_read(b) {
            Decoded::Value(m, n) => Decoded::Value(PacketModel::java_v1_7_LoginStartPacket(m), n),
            Decoded::NeedMoreData => Decoded::NeedMoreData,
            Decoded::Malformed => Decoded::Malformed,
        }
    } else if id == 0x01 && state is JavaLogin && bound_matches(bound, Bound::Serverbound) {
        match <crate::protocol::java::v1_7::EncryptionResponsePacket as ReadField>::spec_read(b) {
            Decoded::Value(m, n) => Decoded::Value(PacketModel::java_v1_7_EncryptionResponsePacket(m), n),
            Decoded::NeedMoreData => Decoded::NeedMoreData,
            Decoded::Malformed => Decoded::Malformed,
        }
    } else if id == 0x00 && state is JavaLogin && bound_matches(bound, Bound::Clientbound) {
        match <crate::protocol::java::v1_7::DisconnectPacket as ReadField>::spec_read(b) {
            Decoded::Value(m, n) => Decoded::Value(PacketModel::java_v1_7_DisconnectPacket(m), n),
            Decoded::NeedMoreData => Decoded::NeedMoreData,
            Decoded::Malformed => Decoded::Malformed,
        }
    } else if id == 0x01 && state is JavaLogin && bound_matches(bound, Bound::Clientbound) {
        match <crate::protocol::java::v1_7::EncryptionRequestPacket as ReadField>::spec_read(b) {
            Decoded::Value(m, n) => Decoded::Value(PacketModel::java_v1_7_EncryptionRequestPacket(m), n),
            Decoded::NeedMoreData => Decoded::NeedMoreData,
            Decoded::Malformed => Decoded::Malformed,
        }
    } else if id == 0x02 && state is JavaLogin && bound_matches(bound, Bound::Clientbound) {
        match <crate::protocol::java::v1_7::LoginSuccessPacket as ReadField>::spec_read(b) {
            Decoded::Value(m, n) => Decoded::Value(PacketModel::java_v1_7_LoginSuccessPacket(m), n),
            Decoded::NeedMoreData => Decoded::NeedMoreData,
            Decoded::Malformed => Decoded::Malformed,
        }
    } else if id == 0x03 && state is JavaLogin && bound_matches(bound, Bound::Clientbound) {
        match <crate::protocol::java::v1_7::SetCompressionPacket as ReadField>::spec_read(b) {
            Decoded::Value(m, n) => Decoded::Value(PacketModel::java_v1_7_SetCompressionPacket(m), n),
            Decoded::NeedMoreData => Decoded::NeedMoreData,
            Decoded::Malformed => Decoded::Malformed,
        }
    } else if id == 0x00 && state is JavaPlay && bound_matches(bound, Bound::Clientbound) {
        match <crate::protocol::java::v1_7::KeepAlivePacket as ReadField>::spec_read(b) {
            Decoded::Value(m, n) => Decoded::Value(PacketModel::java_v1_7_KeepAlivePacket(m), n),
            Decoded::NeedMoreData => Decoded::NeedMoreData,
            Decoded::Malformed => Decoded::Malformed,
        }
    } else if id == spec_join_game_id(p) && state is JavaPlay && bound_matches(bound, Bound::Clientbound) {
        match p {
            Protocol::ProtocolJava_1_7 => match <crate::protocol::java::v1_7::JoinGamePacket as ReadField>::spec_read(b) {
            Decoded::Value(m, n) => Decoded::Value(PacketModel::java_v1_7_JoinGamePacket(m), n),
            Decoded::NeedMoreData => Decoded::NeedMoreData,
            Decoded::Malformed => Decoded::Malformed,
        },
            Protocol::ProtocolJava_1_8 => match <crate::protocol::java::v1_8::JoinGamePacket as ReadField>::spec_read(b) {
            Decoded::Value(m, n) => Decoded::Value(PacketModel::java_v1_8_JoinGamePacket(m), n),
            Decoded::NeedMoreData => Decoded::NeedMoreData,
            Decoded::Malformed => Decoded::Malformed,
        },
            _ => match <crate::protocol::java::v1_9::JoinGamePacket as ReadField>::spec_read(b) {
            Decoded::Value(m, n) => Decoded::Value(PacketModel::java_v1_9_JoinGamePacket(m), n),
            Decoded::NeedMoreData => Decoded::NeedMoreData,
            Decoded::Malformed => Decoded::Malformed,
        },
        }
    } else {
        Decoded::Malformed
    }
}

pub open spec fn spec_proto_read(p: Protocol, id: i32, state: State, bound: Bound, b: Seq<u8>) -> Decoded<
    PacketModel,
> {
    if p is ProtocolBedrockRakNet {
        spec_bedrock_read(id, state, bound, b)
    } else {
        spec_java_read(p, id, state, bound, b)
    }
}

#[verifier::rlimit(100)]
#[verifier::spinoff_prover]
fn bedrock_read(id: i32, state: State, bound: Bound, bytes: &Vec<u8>) -> (r: Decoded<Packet>)
    ensures
        dec_models(r, spec_bedrock_read(id, state, bound, bytes@)),
{
    proof {
        reveal(spec_bedrock_read);
        assert(bytes@.skip(0) =~= bytes@);
    }
    if id == 0x00 && state == State::BedrockRakNetOffline && bound_matches_exec(bound, Bound::Serverbound) {
        match <crate::protocol::bedrock::raknet::ConnectedPingPacket as ReadField>::read(bytes, 0) {
            Decoded::Value(q, n) => Decoded::Value(Packet::bedrock_raknet_ConnectedPingPacket(q), n),
            Decoded::NeedMoreData => Decoded::NeedMoreData,
            Decoded::Malformed => Decoded::Malformed,
        }
    } else if id == 0x01 && state == State::BedrockRakNetOffline && bound_matches_exec(bound, Bound::Serverbound) {
        match <crate::protocol::bedrock::raknet::UnconnectedPingPacket as ReadField>::read(bytes, 0) {
            Decoded::Value(q, n) => Decoded::Value(Packet::bedrock_raknet_UnconnectedPingPacket(q), n),
            Decoded::NeedMoreData => Decoded::NeedMoreData,
            Decoded::Malformed => Decoded::Malformed,
        }
    } else if id == 0x02 && state == State::BedrockRakNetOffline && bound_matches_exec(bound, Bound::Serverbound) {
        match <crate::protocol::bedrock::raknet::UnconnectedPingOpenConnectionsPacket as ReadField>::read(bytes, 0) {
            Decoded::Value(q, n) => Decoded::Value(Packet::bedrock_raknet_UnconnectedPingOpenConnectionsPacket(q), n),
            Decoded::NeedMoreData => Decoded::NeedMoreData,
            Decoded::Malformed => Decoded::Malformed,
        }
    } else if id == 0x03 && state == State::BedrockRakNetOffline && bound_matches_exec(bound, Bound::Clientbound) {
        match <crate::protocol::bedrock::raknet::ConnectedPongPacket as ReadField>::read(bytes, 0) {
            Decoded::Value(q, n) => Decoded::Value(Packet::bedrock_raknet_ConnectedPongPacket(q), n),
            Decoded::NeedMoreData => Decoded::NeedMoreData,
            Decoded::Malformed => Decoded::Malformed,
        }
    } else if id == 0x05 && state == State::BedrockRakNetOffline && bound_matches_exec(bound, Bound::Serverbound) {
        match <crate::protocol::bedrock::raknet::OpenConnectionRequest1Packet as ReadField>::read(bytes, 0) {
            Decoded::Value(q, n) => Decoded::Value(Packet::bedrock_raknet_OpenConnectionRequest1Packet(q), n),
            Decoded::NeedMoreData => Decoded::NeedMoreData,
            Decoded::Malformed => Decoded::Malformed,
        }
    } else if id == 0x06 && state == State::BedrockRakNetOffline && bound_matches_exec(bound, Bound::Clientbound) {
        match <crate::protocol::bedrock::raknet::OpenConnectionReply1Packet as ReadField>::read(bytes, 0) {
            Decoded::Value(q, n) => Decoded::Value(Packet::bedrock_raknet_OpenConnectionReply1Packet(q), n),
            Decoded::NeedMoreData => Decoded::NeedMoreData,
            Decoded::Malformed => Decoded::Malformed,
        }
    } else if id == 0x07 && state == State::BedrockRakNetOffline && bound_matches_exec(bound, Bound::Serverbound) {
        match <crate::protocol::bedrock::raknet::OpenConnectionRequest2Packet as ReadField>::read(bytes, 0) {
            Decoded::Value(q, n) => Decoded::Value(Packet::bedrock_raknet_OpenConnectionRequest2Packet(q), n),
            Decoded::NeedMoreData => Decoded::NeedMoreData,
            Decoded::Malformed => Decoded::Malformed,
        }
    } else if id == 0x08 && state == State::BedrockRakNetOffline && bound_matches_exec(bound, Bound::Clientbound) {
        match <crate::protocol::bedrock::raknet::OpenConnectionReply2Packet as ReadField>::read(bytes, 0) {
            Decoded::Value(q, n) => Decoded::Value(Packet::bedrock_raknet_OpenConnectionReply2Packet(q), n),
            Decoded::NeedMoreData => Decoded::NeedMoreData,
            Decoded::Malformed => Decoded::Malformed,
        }
    } else if id == 0x09 && state == State::BedrockRakNet && bound_matches_exec(bound, Bound::Serverbound) {
        match <crate::protocol::bedrock::raknet::ConnectionRequestPacket as ReadField>::read(bytes, 0) {
            Decoded::Value(q, n) => Decoded::Value(Packet::bedrock_raknet_ConnectionRequestPacket(q), n),
            Decoded::NeedMoreData => Decoded::NeedMoreData,
            Decoded::Malformed => Decoded::Malformed,
        }
    } else if id == 0x10 && state == State::BedrockRakNet && bound_matches_exec(bound, Bound::Clientbound) {
        match <crate::protocol::bedrock::raknet::ConnectionRequestAcceptedPacket as ReadField>::read(bytes, 0) {
            Decoded::Value(q, n) => Decoded::Value(Packet::bedrock_raknet_ConnectionRequestAcceptedPacket(q), n),
            Decoded::NeedMoreData => Decoded::NeedMoreData,
            Decoded::Malformed => Decoded::Malformed,
        }
    } else if id == 0x13 && state == State::BedrockRakNet && bound_matches_exec(bound, Bound::Serverbound) {
        match <crate::protocol::bedrock::raknet::NewIncomingConnectionPacket as ReadField>::read(bytes, 0) {
            Decoded::Value(q, n) => Decoded::Value(Packet::bedrock_raknet_NewIncomingConnectionPacket(q), n),
            Decoded::NeedMoreData => Decoded::NeedMoreData,
            Decoded::Malformed => Decoded::Malformed,
        }
    } else if id == 0x14 && state == State::BedrockRakNet && bound_matches_exec(bound, Bound::Neither) {
        match <crate::protocol::bedrock::raknet::NoFreeIncomingConnectionsPacket as ReadField>::read(bytes, 0) {
            Decoded::Value(q, n) => Decoded::Value(Packet::bedrock_raknet_NoFreeIncomingConnectionsPacket(q), n),
            Decoded::NeedMoreData => Decoded::NeedMoreData,
            Decoded::Malformed => Decoded::Malformed,
        }
    } else if id == 0x15 && state == State::BedrockRakNet && bound_matches_exec(bound, Bound::Neither) {
        match <crate::protocol::bedrock::raknet::DisconnectNotificationPacket as ReadField>::read(bytes, 0) {
            Decoded::Value(q, n) => Decoded::Value(Packet::bedrock_raknet_DisconnectNotificationPacket(q), n),
            Decoded::NeedMoreData => Decoded::NeedMoreData,
            Decoded::Malformed => Decoded::Malformed,
        }
    } else if id == 0x17 && state == State::BedrockRakNet && bound_matches_exec(bound, Bound::Neither) {
        match <crate::protocol::bedrock::raknet::ConnectionBannedPacket as ReadField>::read(bytes, 0) {
            Decoded::Value(q, n) => Decoded::Value(Packet::bedrock_raknet_ConnectionBannedPacket(q), n),
            Decoded::NeedMoreData => Decoded::NeedMoreData,
            Decoded::Malformed => Decoded::Malformed,
        }
    } else if id == 0x19 && state == State::BedrockRakNet && bound_matches_exec(bound, Bound::Neither) {
        match <crate::protocol::bedrock::raknet::IncompatibleProtocolPacket as ReadField>::read(bytes, 0) {
            Decoded::Value(q, n) => Decoded::Value(Packet::bedrock_raknet_IncompatibleProtocolPacket(q), n),
            Decoded::NeedMoreData => Decoded::NeedMoreData,
            Decoded::Malformed => Decoded::Malformed,
        }
    } else if id == 0x1a && state == State::BedrockRakNet && bound_matches_exec(bound, Bound::Neither) {
        match <crate::protocol::bedrock::raknet::IpRecentlyConnectedPacket as ReadField>::read(bytes, 0) {
            Decoded::Value(q, n) => Decoded::Value(Packet::bedrock_raknet_IpRecentlyConnectedPacket(q), n),
            Decoded::NeedMoreData => Decoded::NeedMoreData,
            Decoded::Malformed => Decoded::Malformed,
        }
    } else if id == 0x1c && state == State::BedrockRakNetOffline && bound_matches_exec(bound, Bound::Clientbound) {
        match <crate::protocol::bedrock::raknet::UnconnectedPongPacket as ReadField>::read(bytes, 0) {
            Decoded::Value(q, n) => Decoded::Value(Packet::bedrock_raknet_UnconnectedPongPacket(q), n),
            Decoded::NeedMoreData => Decoded::NeedMoreData,
            Decoded::Malformed => Decoded::Malformed,
        }
    } else if id == 0xa0 && state == State::BedrockRakNetOffline && bound_matches_exec(bound, Bound::Any) {
        match <crate::protocol::bedrock::raknet::NakPacket as ReadField>::read(bytes, 0) {
            Decoded::Value(q, n) => Decoded::Value(Packet::bedrock_raknet_NakPacket(q), n),
            Decoded::NeedMoreData => Decoded::NeedMoreData,
            Decoded::Malformed => Decoded::Malformed,
        }
    } else if id == 0xc0 && state == State::BedrockRakNetOffline && bound_matches_exec(bound, Bound::Any) {
        match <crate::protocol::bedrock::raknet::AckPacket as ReadField>::read(bytes, 0) {
            Decoded::Value(q, n) => Decoded::Value(Packet::bedrock_raknet_AckPacket(q), n),
            Decoded::NeedMoreData => Decoded::NeedMoreData,
            Decoded::Malformed => Decoded::Malformed,
        }
    } else {
        Decoded::Malformed
    }
}

#[verifier::rlimit(100)]
#[verifier::spinoff_prover]
fn java_read(p: Protocol, id: i32, state: State, bound: Bound, bytes: &Vec<u8>) -> (r: Decoded<
    Packet,
>)
    ensures
        dec_models(r, spec_java_read(p, id, state, bound, bytes@)),
{
    proof {
        reveal(spec_java_read);
        assert(bytes@.skip(0) =~= bytes@);
    }
    if id == 0x00 && state == State::JavaHandshake && bound_matches_exec(bound, Bound::Serverbound) {
        match <crate::protocol::java::v1_7::HandshakePacket as ReadField>::read(bytes, 0) {
            Decoded::Value(q, n) => Decoded::Value(Packet::java_v1_7_HandshakePacket(q), n),
            Decoded::NeedMoreData => Decoded::NeedMoreData,
            Decoded::Malformed => Decoded::Malformed,
        }
    } else if id == 0x00 && state == State::JavaStatus && bound_matches_exec(bound, Bound::Clientbound) {
        match <crate::protocol::java::v1_7::ResponsePacket as ReadField>::read(bytes, 0) {
            Decoded::Value(q, n) => Decoded::Value(Packet::java_v1_7_ResponsePacket(q), n),
            Decoded::NeedMoreData => Decoded::NeedMoreData,
            Decoded::Malformed => Decoded::Malformed,
        }
    } else if id == 0x01 && state == State::JavaStatus && bound_matches_exec(bound, Bound::Clientbound) {
        match <crate::protocol::java::v1_7::PongPacket as ReadField>::read(bytes, 0) {
            Decoded::Value(q, n) => Decoded::Value(Packet::java_v1_7_PongPacket(q), n),
            Decoded::NeedMoreData => Decoded::NeedMoreData,
            Decoded::Malformed => Decoded::Malformed,
        }
    } else if id == 0x00 && state == State::JavaStatus && bound_matches_exec(bound, Bound::Serverbound) {
        match <crate::protocol::java::v1_7::RequestPacket as ReadField>::read(bytes, 0) {
            Decoded::Value(q, n) => Decoded::Value(Packet::java_v1_7_RequestPacket(q), n),
            Decoded::NeedMoreData => Decoded::NeedMoreData,
            Decoded::Malformed => Decoded::Malformed,
        }
    } else if id == 0x01 && state == State::JavaStatus && bound_matches_exec(bound, Bound::Serverbound) {
        match <crate::protocol::java::v1_7::PingPacket as ReadField>::read(bytes, 0) {
            Decoded::Value(q, n) => Decoded::Value(Packet::java_v1_7_PingPacket(q), n),
            Decoded::NeedMoreData => Decoded::NeedMoreData,
            Decoded::Malformed => Decoded::Malformed,
        }
    } else if id == 0x00 && state == State::JavaLogin && bound_matches_exec(bound, Bound::Serverbound) {
        match <crate::protocol::java::v1_7::LoginStartPacket as ReadField>::read(bytes, 0) {
            Decoded::Value(q, n) => Decoded::Value(Packet::java_v1_7_LoginStartPacket(q), n),
            Decoded::NeedMoreData => Decoded::NeedMoreData,
            Decoded::Malformed => Decoded::Malformed,
        }
    } else if id == 0x01 && state == State::JavaLogin && bound_matches_exec(bound, Bound::Serverbound) {
        match <crate::protocol::java::v1_7::EncryptionResponsePacket as ReadField>::read(bytes, 0) {
            Decoded::Value(q, n) => Decoded::Value(Packet::java_v1_7_EncryptionResponsePacket(q), n),
            Decoded::NeedMoreData => Decoded::NeedMoreData,
            Decoded::Malformed => Decoded::Malformed,
        }
    } else if id == 0x00 && state == State::JavaLogin && bound_matches_exec(bound, Bound::Clientbound) {
        match <crate::protocol::java::v1_7::DisconnectPacket as ReadField>::read(bytes, 0) {
            Decoded::Value(q, n) => Decoded::Value(Packet::java_v1_7_DisconnectPacket(q), n),
            Decoded::NeedMoreData => Decoded::NeedMoreData,
            Decoded::Malformed => Decoded::Malformed,
        }
    } else if id == 0x01 && state == State::JavaLogin && bound_matches_exec(bound, Bound::Clientbound) {
        match <crate::protocol::java::v1_7::EncryptionRequestPacket as ReadField>::read(bytes, 0) {
            Decoded::Value(q, n) => Decoded::Value(Packet::java_v1_7_EncryptionRequestPacket(q), n),
            Decoded::NeedMoreData => Decoded::NeedMoreData,
            Decoded::Malformed => Decoded::Malformed,
        }
    } else if id == 0x02 && state == State::JavaLogin && bound_matches_exec(bound, Bound::Clientbound) {
        match <crate::protocol::java::v1_7::LoginSuccessPacket as ReadField>::read(bytes, 0) {
            Decoded::Value(q, n) => Decoded::Value(Packet::java_v1_7_LoginSuccessPacket(q), n),
            Decoded::NeedMoreData => Decoded::NeedMoreData,
            Decoded::Malformed => Decoded::Malformed,
        }
    } else if id == 0x03 && state == State::JavaLogin && bound_matches_exec(bound, Bound::Clientbound) {
        match <crate::protocol::java::v1_7::SetCompressionPacket as ReadField>::read(bytes, 0) {
            Decoded::Value(q, n) => Decoded::Value(Packet::java_v1_7_SetCompressionPacket(q), n),
            Decoded::NeedMoreData => Decoded::NeedMoreData,
            Decoded::Malformed => Decoded::Malformed,
        }
    } else if id == 0x00 && state == State::JavaPlay && bound_matches_exec(bound, Bound::Clientbound) {
        match <crate::protocol::java::v1_7::KeepAlivePacket as ReadField>::read(bytes, 0) {
            Decoded::Value(q, n) => Decoded::Value(Packet::java_v1_7_KeepAlivePacket(q), n),
            Decoded::NeedMoreData => Decoded::NeedMoreData,
            Decoded::Malformed => Decoded::Malformed,
        }
    } else if id == join_game_id_exec(p) && state == State::JavaPlay && bound_matches_exec(
        bound,
        Bound::Clientbound,
    ) {
        match p {
            Protocol::ProtocolJava_1_7 => match <crate::protocol::java::v1_7::JoinGamePacket as ReadField>::read(bytes, 0) {
            Decoded::Value(q, n) => Decoded::Value(Packet::java_v1_7_JoinGamePacket(q), n),
            Decoded::NeedMoreData => Decoded::NeedMoreData,
            Decoded::Malformed => Decoded::Malformed,
        },
            Protocol::ProtocolJava_1_8 => match <crate::protocol::java::v1_8::JoinGamePacket as ReadField>::read(bytes, 0) {
            Decoded::Value(q, n) => Decoded::Value(Packet::java_v1_8_JoinGamePacket(q), n),
            Decoded::NeedMoreData => Decoded::NeedMoreData,
            Decoded::Malformed => Decoded::Malformed,
        },
            _ => match <crate::protocol::java::v1_9::JoinGamePacket as ReadField>::read(bytes, 0) {
            Decoded::Value(q, n) => Decoded::Value(Packet::java_v1_9_JoinGamePacket(q), n),
            Decoded::NeedMoreData => Decoded::NeedMoreData,
            Decoded::Malformed => Decoded::Malformed,
        },
        }
    } else {
        Decoded::Malformed
    }
}

/// Java framing: VarInt total length, then VarInt wire id, then the payload.
pub open spec fn spec_java_frame(id: i32, payload: Seq<u8>) -> Seq<u8> {
    let inner = varint_enc(id) + payload;
    varint_enc_u((inner.len() % 0x100000000) as nat) + inner
}

fn java_frame(id: i32, payload: Vec<u8>) -> (out: Vec<u8>)
    ensures
        out@ == spec_java_frame(id, payload@),
{
    let idf = VarInt(id);
    let mut inner = idf.write();
    let mut pl = payload;
    inner.append(&mut pl);
    let l32 = ((inner.len() as u64) % 0x100000000u64) as u32;
    let mut out = varint_write_u(l32);
    out.append(&mut inner);
    out
}

/// Bedrock framing: the single-byte wire id, then the payload.
pub open spec fn spec_bedrock_frame(id: u8, payload: Seq<u8>) -> Seq<u8> {
    seq![id] + payload
}

fn bedrock_frame(id: u8, payload: Vec<u8>) -> (out: Vec<u8>)
    ensures
        out@ == spec_bedrock_frame(id, payload@),
{
    let mut out: Vec<u8> = Vec::new();
    out.push(id);
    let mut pl = payload;
    out.append(&mut pl);
    proof {
        assert(out@ =~= seq![id] + payload@);
    }
    out
}

/// Serialization with framing: the entry for the packet's kind must exist in
/// this version's table and its direction must match.
pub open spec fn spec_proto_write(p: Protocol, m: PacketModel, bound: Bound) -> Option<Seq<u8>> {
    match m {
        PacketModel::bedrock_raknet_ConnectedPingPacket(x) => if p is ProtocolBedrockRakNet && bound_matches(bound, Bound::Serverbound) {
            Some(spec_bedrock_frame(0x00, <crate::protocol::bedrock::raknet::ConnectedPingPacket as WriteField>::spec_write(x)))
        } else {
            Option::None
        },
        PacketModel::bedrock_raknet_UnconnectedPingPacket(x) => if p is ProtocolBedrockRakNet && bound_matches(bound, Bound::Serverbound) {
            Some(spec_bedrock_frame(0x01, <crate::protocol::bedrock::raknet::UnconnectedPingPacket as WriteField>::spec_write(x)))
        } else {
            Option::None
        },
        PacketModel::bedrock_raknet_UnconnectedPingOpenConnectionsPacket(x) => if p is ProtocolBedrockRakNet && bound_matches(bound, Bound::Serverbound) {
            Some(spec_bedrock_frame(0x02, <crate::protocol::bedrock::raknet::UnconnectedPingOpenConnectionsPacket as WriteField>::spec_write(x)))
        } else {
            Option::None
        },
        PacketModel::bedrock_raknet_ConnectedPongPacket(x) => if p is ProtocolBedrockRakNet && bound_matches(bound, Bound::Clientbound) {
            Some(spec_bedrock_frame(0x03, <crate::protocol::bedrock::raknet::ConnectedPongPacket as WriteField>::spec_write(x)))
        } else {
            Option::None
        },
        PacketModel::bedrock_raknet_OpenConnectionRequest1Packet(x) => if p is ProtocolBedrockRakNet && bound_matches(bound, Bound::Serverbound) {
            Some(spec_bedrock_frame(0x05, <crate::protocol::bedrock::raknet::OpenConnectionRequest1Packet as WriteField>::spec_write(x)))
        } else {
            Option::None
        },
        PacketModel::bedrock_raknet_OpenConnectionReply1Packet(x) => if p is ProtocolBedrockRakNet && bound_matches(bound, Bound::Clientbound) {
            Some(spec_bedrock_frame(0x06, <crate::protocol::bedrock::raknet::OpenConnectionReply1Packet as WriteField>::spec_write(x)))
        } else {
            Option::None
        },
        PacketModel::bedrock_raknet_OpenConnectionRequest2Packet(x) => if p is ProtocolBedrockRakNet && bound_matches(bound, Bound::Serverbound) {
            Some(spec_bedrock_frame(0x07, <crate::protocol::bedrock::raknet::OpenConnectionRequest2Packet as WriteField>::spec_write(x)))
        } else {
            Option::None
        },
        PacketModel::bedrock_raknet_OpenConnectionReply2Packet(x) => if p is ProtocolBedrockRakNet && bound_matches(bound, Bound::Clientbound) {
            Some(spec_bedrock_frame(0x08, <crate::protocol::bedrock::raknet::OpenConnectionReply2Packet as WriteField>::spec_write(x)))
        } else {
            Option::None
        },
        PacketModel::bedrock_raknet_ConnectionRequestPacket(x) => if p is ProtocolBedrockRakNet && bound_matches(bound, Bound::Serverbound) {
            Some(spec_bedrock_frame(0x09, <crate::protocol::bedrock::raknet::ConnectionRequestPacket as WriteField>::spec_write(x)))
        } else {
            Option::None
        },
        PacketModel::bedrock_raknet_ConnectionRequestAcceptedPacket(x) => if p is ProtocolBedrockRakNet && bound_matches(bound, Bound::Clientbound) {
            Some(spec_bedrock_frame(0x10, <crate::protocol::bedrock::raknet::ConnectionRequestAcceptedPacket as WriteField>::spec_write(x)))
        } else {
            Option::None
        },
        PacketModel::bedrock_raknet_NewIncomingConnectionPacket(x) => if p is ProtocolBedrockRakNet && bound_matches(bound, Bound::Serverbound) {
            Some(spec_bedrock_frame(0x13, <crate::protocol::bedrock::raknet::NewIncomingConnectionPacket as WriteField>::spec_write(x)))
        } else {
            Option::None
        },
        PacketModel::bedrock_raknet_NoFreeIncomingConnectionsPacket(x) => if p is ProtocolBedrockRakNet && bound_matches(bound, Bound::Neither) {
            Some(spec_bedrock_frame(0x14, <crate::protocol::bedrock::raknet::NoFreeIncomingConnectionsPacket as WriteField>::spec_write(x)))
        } else {
            Option::None
        },
        PacketModel::bedrock_raknet_DisconnectNotificationPacket(x) => if p is ProtocolBedrockRakNet && bound_matches(bound, Bound::Neither) {
            Some(spec_bedrock_frame(0x15, <crate::protocol::bedrock::raknet::DisconnectNotificationPacket as WriteField>::spec_write(x)))
        } else {
            Option::None
        },
        PacketModel::bedrock_raknet_ConnectionBannedPacket(x) => if p is ProtocolBedrockRakNet && bound_matches(bound, Bound::Neither) {
            Some(spec_bedrock_frame(0x17, <crate::protocol::bedrock::raknet::ConnectionBannedPacket as WriteField>::spec_write(x)))
        } else {
            Option::None
        },
        PacketModel::bedrock_raknet_IncompatibleProtocolPacket(x) => if p is ProtocolBedrockRakNet && bound_matches(bound, Bound::Neither) {
            Some(spec_bedrock_frame(0x19, <crate::protocol::bedrock::raknet::IncompatibleProtocolPacket as WriteField>::spec_write(x)))
        } else {
            Option::None
        },
        PacketModel::bedrock_raknet_IpRecentlyConnectedPacket(x) => if p is ProtocolBedrockRakNet && bound_matches(bound, Bound::Neither) {
            Some(spec_bedrock_frame(0x1a, <crate::protocol::bedrock::raknet::IpRecentlyConnectedPacket as WriteField>::spec_write(x)))
        } else {
            Option::None
        },
        PacketModel::bedrock_raknet_UnconnectedPongPacket(x) => if p is ProtocolBedrockRakNet && bound_matches(bound, Bound::Clientbound) {
            Some(spec_bedrock_frame(0x1c, <crate::protocol::bedrock::raknet::UnconnectedPongPacket as WriteField>::spec_write(x)))
        } else {
            Option::None
        },
        PacketModel::bedrock_raknet_NakPacket(x) => if p is ProtocolBedrockRakNet && bound_matches(bound, Bound::Any) {
            Some(spec_bedrock_frame(0xa0, <crate::protocol::bedrock::raknet::NakPacket as WriteField>::spec_write(x)))
        } else {
            Option::None
        },
        PacketModel::bedrock_raknet_AckPacket(x) => if p is ProtocolBedrockRakNet && bound_matches(bound, Bound::Any) {
            Some(spec_bedrock_frame(0xc0, <crate::protocol::bedrock::raknet::AckPacket as WriteField>::spec_write(x)))
        } else {
            Option::None
        },
        PacketModel::java_v1_7_HandshakePacket(x) => if !(p is ProtocolBedrockRakNet) && bound_matches(bound, Bound::Serverbound) {
            Some(spec_java_frame(0x00, <crate::protocol::java::v1_7::HandshakePacket as WriteField>::spec_write(x)))
        } else {
            Option::None
        },
        PacketModel::java_v1_7_ResponsePacket(x) => if !(p is ProtocolBedrockRakNet) && bound_matches(bound, Bound::Clientbound) {
            Some(spec_java_frame(0x00, <crate::protocol::java::v1_7::ResponsePacket as WriteField>::spec_write(x)))
        } else {
            Option::None
        },
        PacketModel::java_v1_7_PongPacket(x) => if !(p is ProtocolBedrockRakNet) && bound_matches(bound, Bound::Clientbound) {
            Some(spec_java_frame(0x01, <crate::protocol::java::v1_7::PongPacket as WriteField>::spec_write(x)))
        } else {
            Option::None
        },
        PacketModel::java_v1_7_RequestPacket(x) => if !(p is ProtocolBedrockRakNet) && bound_matches(bound, Bound::Serverbound) {
            Some(spec_java_frame(0x00, <crate::protocol::java::v1_7::RequestPacket as WriteField>::spec_write(x)))
        } else {
            Option::None
        },
        PacketModel::java_v1_7_PingPacket(x) => if !(p is ProtocolBedrockRakNet) && bound_matches(bound, Bound::Serverbound) {
            Some(spec_java_frame(0x01, <crate::protocol::java::v1_7::PingPacket as WriteField>::spec_write(x)))
        } else {
            Option::None
        },
        PacketModel::java_v1_7_LoginStartPacket(x) => if !(p is ProtocolBedrockRakNet) && bound_matches(bound, Bound::Serverbound) {
            Some(spec_java_frame(0x00, <crate::protocol::java::v1_7::LoginStartPacket as WriteField>::spec_write(x)))
        } else {
            Option::None
        },
        PacketModel::java_v1_7_EncryptionResponsePacket(x) => if !(p is ProtocolBedrockRakNet) && bound_matches(bound, Bound::Serverbound) {
            Some(spec_java_frame(0x01, <crate::protocol::java::v1_7::EncryptionResponsePacket as WriteField>::spec_write(x)))
        } else {
            Option::None
        },
        PacketModel::java_v1_7_DisconnectPacket(x) => if !(p is ProtocolBedrockRakNet) && bound_matches(bound, Bound::Clientbound) {
            Some(spec_java_frame(0x00, <crate::protocol::java::v1_7::DisconnectPacket as WriteField>::spec_write(x)))
        } else {
            Option::None
        },
        PacketModel::java_v1_7_EncryptionRequestPacket(x) => if !(p is ProtocolBedrockRakNet) && bound_matches(bound, Bound::Clientbound) {
            Some(spec_java_frame(0x01, <crate::protocol::java::v1_7::EncryptionRequestPacket as WriteField>::spec_write(x)))
        } else {
            Option::None
        },
        PacketModel::java_v1_7_LoginSuccessPacket(x) => if !(p is ProtocolBedrockRakNet) && bound_matches(bound, Bound::Clientbound) {
            Some(spec_java_frame(0x02, <crate::protocol::java::v1_7::LoginSuccessPacket as WriteField>::spec_write(x)))
        } else {
            Option::None
        },
        PacketModel::java_v1_7_SetCompressionPacket(x) => if !(p is ProtocolBedrockRakNet) && bound_matches(bound, Bound::Clientbound) {
            Some(spec_java_frame(0x03, <crate::protocol::java::v1_7::SetCompressionPacket as WriteField>::spec_write(x)))
        } else {
            Option::None
        },
        PacketModel::java_v1_7_KeepAlivePacket(x) => if !(p is ProtocolBedrockRakNet) && bound_matches(bound, Bound::Clientbound) {
            Some(spec_java_frame(0x00, <crate::protocol::java::v1_7::KeepAlivePacket as WriteField>::spec_write(x)))
        } else {
            Option::None
        },
        PacketModel::java_v1_7_JoinGamePacket(x) => if p is ProtocolJava_1_7 && bound_matches(bound, Bound::Clientbound) {
            Some(spec_java_frame(0x01, <crate::protocol::java::v1_7::JoinGamePacket as WriteField>::spec_write(x)))
        } else {
            Option::None
        },
        PacketModel::java_v1_8_JoinGamePacket(x) => if p is ProtocolJava_1_8 && bound_matches(bound, Bound::Clientbound) {
            Some(spec_java_frame(0x01, <crate::protocol::java::v1_8::JoinGamePacket as WriteField>::spec_write(x)))
        } else {
            Option::None
        },
        PacketModel::java_v1_9_JoinGamePacket(x) => if spec_uses_shared_join_game(p) && bound_matches(bound, Bound::Clientbound) {
            Some(spec_java_frame(spec_join_game_id(p), <crate::protocol::java::v1_9::JoinGamePacket as WriteField>::spec_write(x)))
        } else {
            Option::None
        },
    }
}

/// The Java versions whose table carries the shared (1.9) join-game layout.
pub open spec fn spec_uses_shared_join_game(p: Protocol) -> bool {
    match p {
        Protocol::ProtocolJava_1_9 => true,
        Protocol::ProtocolJava_1_10 => true,
        Protocol::ProtocolJava_1_11 => true,
        Protocol::ProtocolJava_1_12 => true,
        Protocol::ProtocolJava_1_13 => true,
        Protocol::ProtocolJava_1_14 => true,
        _ => false,
    }
}

fn uses_shared_join_game_exec(p: Protocol) -> (r: bool)
    ensures
        r == spec_uses_shared_join_game(p),
{
    match p {
        Protocol::ProtocolJava_1_9 => true,
        Protocol::ProtocolJava_1_10 => true,
        Protocol::ProtocolJava_1_11 => true,
        Protocol::ProtocolJava_1_12 => true,
        Protocol::ProtocolJava_1_13 => true,
        Protocol::ProtocolJava_1_14 => true,
        _ => false,
    }
}

/// A protocol version: a name, an edition, a numeric id, and a packet table
/// consulted by id, connection state and direction.
pub trait ProtocolType: Sized {
    spec fn spec_proto_name(&self) -> Seq<char>;

    spec fn spec_edition(&self) -> ProtocolEdition;

    spec fn spec_version(&self) -> i32;

    spec fn spec_read_model(&self, id: i32, state: State, bound: Bound, b: Seq<u8>) -> Decoded<
        PacketModel,
    >;

    spec fn spec_write_model(&self, m: PacketModel, bound: Bound) -> Option<Seq<u8>>;

    fn name(&self) -> (r: &str)
        ensures
            r@ == self.spec_proto_name(),
    ;

    fn protocol_type(&self) -> (r: ProtocolEdition)
        ensures
            r == self.spec_edition(),
    ;

    fn protocol_version(&self) -> (r: i32)
        ensures
            r == self.spec_version(),
    ;

    fn read(&self, id: i32, state: State, bound: Bound, bytes: Vec<u8>) -> (r: Decoded<Packet>)
        ensures
            dec_models(r, self.spec_read_model(id, state, bound, bytes@)),
    ;

    fn write(&self, packet: Packet, bound: Bound) -> (r: Option<Vec<u8>>)
        ensures
            match (r, self.spec_write_model(packet@, bound)) {
                (Some(v), Some(s)) => v@ == s,
                (None, None) => true,
                _ => false,
            },
    ;
}

impl ProtocolType for Protocol {
    open spec fn spec_proto_name(&self) -> Seq<char> {
        spec_proto_name(*self)
    }

    open spec fn spec_edition(&self) -> ProtocolEdition {
        spec_edition(*self)
    }

    open spec fn spec_version(&self) -> i32 {
        spec_version(*self)
    }

    open spec fn spec_read_model(&self, id: i32, state: State, bound: Bound, b: Seq<u8>) -> Decoded<
        PacketModel,
    > {
        spec_proto_read(*self, id, state, bound, b)
    }

    open spec fn spec_write_model(&self, m: PacketModel, bound: Bound) -> Option<Seq<u8>> {
        spec_proto_write(*self, m, bound)
    }

    fn name(&self) -> (r: &str) {
        match self {
            Protocol::ProtocolBedrockRakNet => "RakNet",
            Protocol::ProtocolJava_1_7 => "1.7",
            Protocol::ProtocolJava_1_8 => "1.8",
            Protocol::ProtocolJava_1_9 => "1.9",
            Protocol::ProtocolJava_1_10 => "1.10",
            Protocol::ProtocolJava_1_11 => "1.11",
            Protocol::ProtocolJava_1_12 => "1.12",
            Protocol::ProtocolJava_1_13 => "1.13",
            Protocol::ProtocolJava_1_14 => "1.14",
        }
    }

    fn protocol_type(&self) -> (r: ProtocolEdition) {
        match self {
            Protocol::ProtocolBedrockRakNet => ProtocolEdition::BedrockEdition,
            _ => ProtocolEdition::JavaEdition,
        }
    }

    fn protocol_version(&self) -> (r: i32) {
        match self {
            Protocol::ProtocolBedrockRakNet => 9,
            Protocol::ProtocolJava_1_7 => 5,
            Protocol::ProtocolJava_1_8 => 47,
            Protocol::ProtocolJava_1_9 => 110,
            Protocol::ProtocolJava_1_10 => 210,
            Protocol::ProtocolJava_1_11 => 316,
            Protocol::ProtocolJava_1_12 => 340,
            Protocol::ProtocolJava_1_13 => 404,
            Protocol::ProtocolJava_1_14 => 457,
        }
    }

    fn read(&self, id: i32, state: State, bound: Bound, bytes: Vec<u8>) -> (r: Decoded<Packet>) {
        if *self == Protocol::ProtocolBedrockRakNet {
            bedrock_read(id, state, bound, &bytes)
        } else {
            java_read(*self, id, state, bound, &bytes)
        }
    }

    fn write(&self, packet: Packet, bound: Bound) -> (r: Option<Vec<u8>>) {
        let p = *self;
        let is_bedrock = p == Protocol::ProtocolBedrockRakNet;
        match packet {
            Packet::bedrock_raknet_ConnectedPingPacket(q) => if is_bedrock && bound_matches_exec(bound, Bound::Serverbound) {
                Some(bedrock_frame(0x00, q.write()))
            } else {
                Option::None
            },
            Packet::bedrock_raknet_UnconnectedPingPacket(q) => if is_bedrock && bound_matches_exec(bound, Bound::Serverbound) {
                Some(bedrock_frame(0x01, q.write()))
            } else {
                Option::None
            },
            Packet::bedrock_raknet_UnconnectedPingOpenConnectionsPacket(q) => if is_bedrock && bound_matches_exec(bound, Bound::Serverbound) {
                Some(bedrock_frame(0x02, q.write()))
            } else {
                Option::None
            },
            Packet::bedrock_raknet_ConnectedPongPacket(q) => if is_bedrock && bound_matches_exec(bound, Bound::Clientbound) {
                Some(bedrock_frame(0x03, q.write()))
            } else {
                Option::None
            },
            Packet::bedrock_raknet_OpenConnectionRequest1Packet(q) => if is_bedrock && bound_matches_exec(bound, Bound::Serverbound) {
                Some(bedrock_frame(0x05, q.write()))
            } else {
                Option::None
            },
            Packet::bedrock_raknet_OpenConnectionReply1Packet(q) => if is_bedrock && bound_matches_exec(bound, Bound::Clientbound) {
                Some(bedrock_frame(0x06, q.write()))
            } else {
                Option::None
            },
            Packet::bedrock_raknet_OpenConnectionRequest2Packet(q) => if is_bedrock && bound_matches_exec(bound, Bound::Serverbound) {
                Some(bedrock_frame(0x07, q.write()))
            } else {
                Option::None
            },
            Packet::bedrock_raknet_OpenConnectionReply2Packet(q) => if is_bedrock && bound_matches_exec(bound, Bound::Clientbound) {
                Some(bedrock_frame(0x08, q.write()))
            } else {
                Option::None
            },
            Packet::bedrock_raknet_ConnectionRequestPacket(q) => if is_bedrock && bound_matches_exec(bound, Bound::Serverbound) {
                Some(bedrock_frame(0x09, q.write()))
            } else {
                Option::None
            },
            Packet::bedrock_raknet_ConnectionRequestAcceptedPacket(q) => if is_bedrock && bound_matches_exec(bound, Bound::Clientbound) {
                Some(bedrock_frame(0x10, q.write()))
            } else {
                Option::None
            },
            Packet::bedrock_raknet_NewIncomingConnectionPacket(q) => if is_bedrock && bound_matches_exec(bound, Bound::Serverbound) {
                Some(bedrock_frame(0x13, q.write()))
            } else {
                Option::None
            },
            Packet::bedrock_raknet_NoFreeIncomingConnectionsPacket(q) => if is_bedrock && bound_matches_exec(bound, Bound::Neither) {
                Some(bedrock_frame(0x14, q.write()))
            } else {
                Option::None
            },
            Packet::bedrock_raknet_DisconnectNotificationPacket(q) => if is_bedrock && bound_matches_exec(bound, Bound::Neither) {
                Some(bedrock_frame(0x15, q.write()))
            } else {
                Option::None
            },
            Packet::bedrock_raknet_ConnectionBannedPacket(q) => if is_bedrock && bound_matches_exec(bound, Bound::Neither) {
                Some(bedrock_frame(0x17, q.write()))
            } else {
                Option::None
            },
            Packet::bedrock_raknet_IncompatibleProtocolPacket(q) => if is_bedrock && bound_matches_exec(bound, Bound::Neither) {
                Some(bedrock_frame(0x19, q.write()))
            } else {
                Option::None
            },
            Packet::bedrock_raknet_IpRecentlyConnectedPacket(q) => if is_bedrock && bound_matches_exec(bound, Bound::Neither) {
                Some(bedrock_frame(0x1a, q.write()))
            } else {
                Option::None
            },
            Packet::bedrock_raknet_UnconnectedPongPacket(q) => if is_bedrock && bound_matches_exec(bound, Bound::Clientbound) {
                Some(bedrock_frame(0x1c, q.write()))
            } else {
                Option::None
            },
            Packet::bedrock_raknet_NakPacket(q) => if is_bedrock && bound_matches_exec(bound, Bound::Any) {
                Some(bedrock_frame(0xa0, q.write()))
            } else {
                Option::None
            },
            Packet::bedrock_raknet_AckPacket(q) => if is_bedrock && bound_matches_exec(bound, Bound::Any) {
                Some(bedrock_frame(0xc0, q.write()))
            } else {
                Option::None
            },
            Packet::java_v1_7_HandshakePacket(q) => if !is_bedrock && bound_matches_exec(bound, Bound::Serverbound) {
                Some(java_frame(0x00, q.write()))
            } else {
                Option::None
            },
            Packet::java_v1_7_ResponsePacket(q) => if !is_bedrock && bound_matches_exec(bound, Bound::Clientbound) {
                Some(java_frame(0x00, q.write()))
            } else {
                Option::None
            },
            Packet::java_v1_7_PongPacket(q) => if !is_bedrock && bound_matches_exec(bound, Bound::Clientbound) {
                Some(java_frame(0x01, q.write()))
            } else {
                Option::None
            },
            Packet::java_v1_7_RequestPacket(q) => if !is_bedrock && bound_matches_exec(bound, Bound::Serverbound) {
                Some(java_frame(0x00, q.write()))
            } else {
                Option::None
            },
            Packet::java_v1_7_PingPacket(q) => if !is_bedrock && bound_matches_exec(bound, Bound::Serverbound) {
                Some(java_frame(0x01, q.write()))
            } else {
                Option::None
            },
            Packet::java_v1_7_LoginStartPacket(q) => if !is_bedrock && bound_matches_exec(bound, Bound::Serverbound) {
                Some(java_frame(0x00, q.write()))
            } else {
                Option::None
            },
            Packet::java_v1_7_EncryptionResponsePacket(q) => if !is_bedrock && bound_matches_exec(bound, Bound::Serverbound) {
                Some(java_frame(0x01, q.write()))
            } else {
                Option::None
            },
            Packet::java_v1_7_DisconnectPacket(q) => if !is_bedrock && bound_matches_exec(bound, Bound::Clientbound) {
                Some(java_frame(0x00, q.write()))
            } else {
                Option::None
            },
            Packet::java_v1_7_EncryptionRequestPacket(q) => if !is_bedrock && bound_matches_exec(bound, Bound::Clientbound) {
                Some(java_frame(0x01, q.write()))
            } else {
                Option::None
            },
            Packet::java_v1_7_LoginSuccessPacket(q) => if !is_bedrock && bound_matches_exec(bound, Bound::Clientbound) {
                Some(java_frame(0x02, q.write()))
            } else {
                Option::None
            },
            Packet::java_v1_7_SetCompressionPacket(q) => if !is_bedrock && bound_matches_exec(bound, Bound::Clientbound) {
                Some(java_frame(0x03, q.write()))
            } else {
                Option::None
            },
            Packet::java_v1_7_KeepAlivePacket(q) => if !is_bedrock && bound_matches_exec(bound, Bound::Clientbound) {
                Some(java_frame(0x00, q.write()))
            } else {
                Option::None
            },
            Packet::java_v1_7_JoinGamePacket(q) => if p == Protocol::ProtocolJava_1_7 && bound_matches_exec(bound, Bound::Clientbound) {
                Some(java_frame(0x01, q.write()))
            } else {
                Option::None
            },
            Packet::java_v1_8_JoinGamePacket(q) => if p == Protocol::ProtocolJava_1_8 && bound_matches_exec(bound, Bound::Clientbound) {
                Some(java_frame(0x01, q.write()))
            } else {
                Option::None
            },
            Packet::java_v1_9_JoinGamePacket(q) => if uses_shared_join_game_exec(p) && bound_matches_exec(bound, Bound::Clientbound) {
                Some(java_frame(join_game_id_exec(p), q.write()))
            } else {
                Option::None
            },
        }
    }
}

/// Selects the protocol version registered under a numeric version id.
pub fn get_protocol(version: i32) -> (r: Option<Protocol>)
    ensures
        r == spec_get_protocol(version),
{
    if version == 9 {
        Some(Protocol::ProtocolBedrockRakNet)
    } else if version == 5 {
        Some(Protocol::ProtocolJava_1_7)
    } else if version == 47 {
        Some(Protocol::ProtocolJava_1_8)
    } else if version == 110 {
        Some(Protocol::ProtocolJava_1_9)
    } else if version == 210 {
        Some(Protocol::ProtocolJava_1_10)
    } else if version == 316 {
        Some(Protocol::ProtocolJava_1_11)
    } else if version == 340 {
        Some(Protocol::ProtocolJava_1_12)
    } else if version == 404 {
        Some(Protocol::ProtocolJava_1_13)
    } else if version == 457 {
        Some(Protocol::ProtocolJava_1_14)
    } else {
        None
    }
}

pub open spec fn spec_get_protocol(version: i32) -> Option<Protocol> {
    if version == 9 {
        Some(Protocol::ProtocolBedrockRakNet)
    } else if version == 5 {
        Some(Protocol::ProtocolJava_1_7)
    } else if version == 47 {
        Some(Protocol::ProtocolJava_1_8)
    } else if version == 110 {
        Some(Protocol::ProtocolJava_1_9)
    } else if version == 210 {
        Some(Protocol::ProtocolJava_1_10)
    } else if version == 316 {
        Some(Protocol::ProtocolJava_1_11)
    } else if version == 340 {
        Some(Protocol::ProtocolJava_1_12)
    } else if version == 404 {
        Some(Protocol::ProtocolJava_1_13)
    } else if version == 457 {
        Some(Protocol::ProtocolJava_1_14)
    } else {
        None
    }
}


// ---------------------------------------------------------------------------
// Round trips through the registry: a packet serialized with its version's
// framing, then unframed and read back under the same version, state and
// direction, yields the original packet model.
// ---------------------------------------------------------------------------

/// The wire id under which a packet kind stands in its version's table.
pub open spec fn spec_kind_wire_id(p: Protocol, m: PacketModel) -> i32 {
    match m {
        PacketModel::bedrock_raknet_ConnectedPingPacket(x) => 0x00,
        PacketModel::bedrock_raknet_UnconnectedPingPacket(x) => 0x01,
        PacketModel::bedrock_raknet_UnconnectedPingOpenConnectionsPacket(x) => 0x02,
        PacketModel::bedrock_raknet_ConnectedPongPacket(x) => 0x03,
        PacketModel::bedrock_raknet_OpenConnectionRequest1Packet(x) => 0x05,
        PacketModel::bedrock_raknet_OpenConnectionReply1Packet(x) => 0x06,
        PacketModel::bedrock_raknet_OpenConnectionRequest2Packet(x) => 0x07,
        PacketModel::bedrock_raknet_OpenConnectionReply2Packet(x) => 0x08,
        PacketModel::bedrock_raknet_ConnectionRequestPacket(x) => 0x09,
        PacketModel::bedrock_raknet_ConnectionRequestAcceptedPacket(x) => 0x10,
        PacketModel::bedrock_raknet_NewIncomingConnectionPacket(x) => 0x13,
        PacketModel::bedrock_raknet_NoFreeIncomingConnectionsPacket(x) => 0x14,
        PacketModel::bedrock_raknet_DisconnectNotificationPacket(x) => 0x15,
        PacketModel::bedrock_raknet_ConnectionBannedPacket(x) => 0x17,
        PacketModel::bedrock_raknet_IncompatibleProtocolPacket(x) => 0x19,
        PacketModel::bedrock_raknet_IpRecentlyConnectedPacket(x) => 0x1a,
        PacketModel::bedrock_raknet_UnconnectedPongPacket(x) => 0x1c,
        PacketModel::bedrock_raknet_NakPacket(x) => 0xa0,
        PacketModel::bedrock_raknet_AckPacket(x) => 0xc0,
        PacketModel::java_v1_7_HandshakePacket(x) => 0x00,
        PacketModel::java_v1_7_ResponsePacket(x) => 0x00,
        PacketModel::java_v1_7_PongPacket(x) => 0x01,
        PacketModel::java_v1_7_RequestPacket(x) => 0x00,
        PacketModel::java_v1_7_PingPacket(x) => 0x01,
        PacketModel::java_v1_7_LoginStartPacket(x) => 0x00,
        PacketModel::java_v1_7_EncryptionResponsePacket(x) => 0x01,
        PacketModel::java_v1_7_DisconnectPacket(x) => 0x00,
        PacketModel::java_v1_7_EncryptionRequestPacket(x) => 0x01,
        PacketModel::java_v1_7_LoginSuccessPacket(x) => 0x02,
        PacketModel::java_v1_7_SetCompressionPacket(x) => 0x03,
        PacketModel::java_v1_7_KeepAlivePacket(x) => 0x00,
        PacketModel::java_v1_7_JoinGamePacket(x) => 0x01,
        PacketModel::java_v1_8_JoinGamePacket(x) => 0x01,
        PacketModel::java_v1_9_JoinGamePacket(x) => spec_join_game_id(p),
    }
}

/// Strips Java framing: the VarInt total length, then the VarInt wire id,
/// then the id's payload slice.
pub open spec fn spec_java_unframe(f: Seq<u8>) -> Option<(i32, Seq<u8>)> {
    match varint_dec(f) {
        Decoded::Value(l, k1) => if l < 0 {
            Option::None
        } else {
            match varint_dec(f.skip(k1 as int)) {
                Decoded::Value(id, k2) => if k2 <= l && k1 + l <= f.len() {
                    Option::Some((id, f.subrange(k1 + k2, k1 + l)))
                } else {
                    Option::None
                },
                Decoded::NeedMoreData => Option::None,
                Decoded::Malformed => Option::None,
            }
        },
        Decoded::NeedMoreData => Option::None,
        Decoded::Malformed => Option::None,
    }
}

/// Unframing recovers the id and payload that the Java framer wrapped, for
/// the one-byte wire ids the tables use.
pub proof fn lemma_java_frame_unframe(id: i32, payload: Seq<u8>)
    requires
        0 <= id < 128,
        payload.len() <= 0x400000,
    ensures
        spec_java_unframe(spec_java_frame(id, payload)) == Option::Some((id, payload)),
{
    lemma_pow128_values();
    let inner = varint_enc(id) + payload;
    assert(varint_enc(id) == varint_enc_u(i32_to_u32(id) as nat));
    assert(i32_to_u32(id) == id);
    assert(varint_enc_u(id as nat) == seq![(id as nat) as u8]);
    assert(varint_enc(id).len() == 1);
    let l = inner.len();
    assert(1 <= l <= 0x400001);
    assert((l % 0x100000000) == l);
    let f = spec_java_frame(id, payload);
    let lenc = varint_enc_u(l as nat);
    lemma_varint_enc_u_len(l as nat);
    assert(f =~= lenc + inner);
    assert(f.skip(0) =~= lenc + inner);
    lemma_varint_dec_enc(f, 0, 0, l as nat, inner);
    assert((l as nat) * 1 == l as nat) by (nonlinear_arith);
    assert(varint_dec(f) == Decoded::<i32>::Value(u32_to_i32((l as nat) as u32), lenc.len() as usize));
    assert(u32_to_i32((l as nat) as u32) == l);
    let k1 = lenc.len();
    assert(f.skip(k1 as int) =~= inner);
    crate::types::VarInt::lemma_round_trip(id, payload);
    assert(varint_dec(inner) == Decoded::<i32>::Value(id, 1));
    assert(k1 + l == f.len());
    assert(f.subrange(k1 as int + 1, (k1 + l) as int) =~= payload);
}

/// Java encode/decode round trip: for any Java version, any direction, and
/// any well-formed packet model the version's table can write in that
/// direction, stripping the frame from the written bytes yields the kind's
/// wire id with the field payload, and reading that payload back at the
/// kind's table state yields the original model, consuming the payload
/// exactly.
#[verifier::rlimit(100)]
#[verifier::spinoff_prover]
pub proof fn lemma_java_round_trip(p: Protocol, m: PacketModel, bound: Bound)
    requires
        spec_edition(p) == ProtocolEdition::JavaEdition,
        Packet::wf_model(m),
        spec_proto_write(p, m, bound) is Some,
    ensures
        spec_java_unframe(spec_proto_write(p, m, bound)->Some_0) == Option::Some(
            (spec_kind_wire_id(p, m), Packet::spec_write(m)),
        ),
        spec_proto_read(
            p,
            spec_kind_wire_id(p, m),
            Packet::kind_state(m),
            bound,
            Packet::spec_write(m),
        ) == Decoded::<PacketModel>::Value(m, Packet::spec_write(m).len() as usize),
{
    reveal(spec_java_read);
    match m {
        PacketModel::java_v1_7_HandshakePacket(x) => {
            let w = <crate::protocol::java::v1_7::HandshakePacket as WriteField>::spec_write(x);
            <crate::protocol::java::v1_7::HandshakePacket as WireField>::lemma_round_trip(x, Seq::empty());
            assert(w + Seq::<u8>::empty() =~= w);
            lemma_java_frame_unframe(0x00, w);
        },
        PacketModel::java_v1_7_ResponsePacket(x) => {
            let w = <crate::protocol::java::v1_7::ResponsePacket as WriteField>::spec_write(x);
            <crate::protocol::java::v1_7::ResponsePacket as WireField>::lemma_round_trip(x, Seq::empty());
            assert(w + Seq::<u8>::empty() =~= w);
            lemma_java_frame_unframe(0x00, w);
        },
        PacketModel::java_v1_7_PongPacket(x) => {
            let w = <crate::protocol::java::v1_7::PongPacket as WriteField>::spec_write(x);
            <crate::protocol::java::v1_7::PongPacket as WireField>::lemma_round_trip(x, Seq::empty());
            assert(w + Seq::<u8>::empty() =~= w);
            lemma_java_frame_unframe(0x01, w);
        },
        PacketModel::java_v1_7_RequestPacket(x) => {
            let w = <crate::protocol::java::v1_7::RequestPacket as WriteField>::spec_write(x);
            <crate::protocol::java::v1_7::RequestPacket as WireField>::lemma_round_trip(x, Seq::empty());
            assert(w + Seq::<u8>::empty() =~= w);
            lemma_java_frame_unframe(0x00, w);
        },
        PacketModel::java_v1_7_PingPacket(x) => {
            let w = <crate::protocol::java::v1_7::PingPacket as WriteField>::spec_write(x);
            <crate::protocol::java::v1_7::PingPacket as WireField>::lemma_round_trip(x, Seq::empty());
            assert(w + Seq::<u8>::empty() =~= w);
            lemma_java_frame_unframe(0x01, w);
        },
        PacketModel::java_v1_7_LoginStartPacket(x) => {
            let w = <crate::protocol::java::v1_7::LoginStartPacket as WriteField>::spec_write(x);
            <crate::protocol::java::v1_7::LoginStartPacket as WireField>::lemma_round_trip(x, Seq::empty());
            assert(w + Seq::<u8>::empty() =~= w);
            lemma_java_frame_unframe(0x00, w);
        },
        PacketModel::java_v1_7_EncryptionResponsePacket(x) => {
            let w = <crate::protocol::java::v1_7::EncryptionResponsePacket as WriteField>::spec_write(x);
            <crate::protocol::java::v1_7::EncryptionResponsePacket as WireField>::lemma_round_trip(x, Seq::empty());
            assert(w + Seq::<u8>::empty() =~= w);
            lemma_java_frame_unframe(0x01, w);
        },
        PacketModel::java_v1_7_DisconnectPacket(x) => {
            let w = <crate::protocol::java::v1_7::DisconnectPacket as WriteField>::spec_write(x);
            <crate::protocol::java::v1_7::DisconnectPacket as WireField>::lemma_round_trip(x, Seq::empty());
            assert(w + Seq::<u8>::empty() =~= w);
            lemma_java_frame_unframe(0x00, w);
        },
        PacketModel::java_v1_7_EncryptionRequestPacket(x) => {
            let w = <crate::protocol::java::v1_7::EncryptionRequestPacket as WriteField>::spec_write(x);
            <crate::protocol::java::v1_7::EncryptionRequestPacket as WireField>::lemma_round_trip(x, Seq::empty());
            assert(w + Seq::<u8>::empty() =~= w);
            lemma_java_frame_unframe(0x01, w);
        },
        PacketModel::java_v1_7_LoginSuccessPacket(x) => {
            let w = <crate::protocol::java::v1_7::LoginSuccessPacket as WriteField>::spec_write(x);
            <crate::protocol::java::v1_7::LoginSuccessPacket as WireField>::lemma_round_trip(x, Seq::empty());
            assert(w + Seq::<u8>::empty() =~= w);
            lemma_java_frame_unframe(0x02, w);
        },
        PacketModel::java_v1_7_SetCompressionPacket(x) => {
            let w = <crate::protocol::java::v1_7::SetCompressionPacket as WriteField>::spec_write(x);
            <crate::protocol::java::v1_7::SetCompressionPacket as WireField>::lemma_round_trip(x, Seq::empty());
            assert(w + Seq::<u8>::empty() =~= w);
            lemma_java_frame_unframe(0x03, w);
        },
        PacketModel::java_v1_7_KeepAlivePacket(x) => {
            let w = <crate::protocol::java::v1_7::KeepAlivePacket as WriteField>::spec_write(x);
            <crate::protocol::java::v1_7::KeepAlivePacket as WireField>::lemma_round_trip(x, Seq::empty());
            assert(w + Seq::<u8>::empty() =~= w);
            lemma_java_frame_unframe(0x00, w);
        },
        PacketModel::java_v1_7_JoinGamePacket(x) => {
            let w = <crate::protocol::java::v1_7::JoinGamePacket as WriteField>::spec_write(x);
            <crate::protocol::java::v1_7::JoinGamePacket as WireField>::lemma_round_trip(x, Seq::empty());
            assert(w + Seq::<u8>::empty() =~= w);
            lemma_java_frame_unframe(0x01, w);
        },
        PacketModel::java_v1_8_JoinGamePacket(x) => {
            let w = <crate::protocol::java::v1_8::JoinGamePacket as WriteField>::spec_write(x);
            <crate::protocol::java::v1_8::JoinGamePacket as WireField>::lemma_round_trip(x, Seq::empty());
            assert(w + Seq::<u8>::empty() =~= w);
            lemma_java_frame_unframe(0x01, w);
        },
        PacketModel::java_v1_9_JoinGamePacket(x) => {
            let w = <crate::protocol::java::v1_9::JoinGamePacket as WriteField>::spec_write(x);
            <crate::protocol::java::v1_9::JoinGamePacket as WireField>::lemma_round_trip(x, Seq::empty());
            assert(w + Seq::<u8>::empty() =~= w);
            lemma_java_frame_unframe(spec_join_game_id(p), w);
        },
        _ => {
            assert(false);
        },
    }
}

/// Bedrock encode/decode round trip: for any direction and any well-formed
/// packet model the RakNet table can write in that direction, the written
/// datagram starts with the kind's one-byte wire id, and reading the rest
/// back at the kind's table state yields the original model, consuming all
/// of it.
#[verifier::rlimit(100)]
#[verifier::spinoff_prover]
pub proof fn lemma_bedrock_round_trip(m: PacketModel, bound: Bound)
    requires
        Packet::wf_model(m),
        spec_proto_write(Protocol::ProtocolBedrockRakNet, m, bound) is Some,
    ensures
        ({
            let f = spec_proto_write(Protocol::ProtocolBedrockRakNet, m, bound)->Some_0;
            &&& f.len() >= 1
            &&& f[0] == spec_kind_wire_id(Protocol::ProtocolBedrockRakNet, m) as u8
            &&& f.skip(1) == Packet::spec_write(m)
            &&& spec_proto_read(
                Protocol::ProtocolBedrockRakNet,
                spec_kind_wire_id(Protocol::ProtocolBedrockRakNet, m),
                Packet::kind_state(m),
                bound,
                Packet::spec_write(m),
            ) == Decoded::<PacketModel>::Value(m, Packet::spec_write(m).len() as usize)
        }),
{
    reveal(spec_bedrock_read);
    match m {
        PacketModel::bedrock_raknet_ConnectedPingPacket(x) => {
            let w = <crate::protocol::bedrock::raknet::ConnectedPingPacket as WriteField>::spec_write(x);
            <crate::protocol::bedrock::raknet::ConnectedPingPacket as WireField>::lemma_round_trip(x, Seq::empty());
            assert(w + Seq::<u8>::empty() =~= w);
            let f = spec_bedrock_frame(0x00, w);
            assert(f.skip(1) =~= w);
        },
        PacketModel::bedrock_raknet_UnconnectedPingPacket(x) => {
            let w = <crate::protocol::bedrock::raknet::UnconnectedPingPacket as WriteField>::spec_write(x);
            <crate::protocol::bedrock::raknet::UnconnectedPingPacket as WireField>::lemma_round_trip(x, Seq::empty());
            assert(w + Seq::<u8>::empty() =~= w);
            let f = spec_bedrock_frame(0x01, w);
            assert(f.skip(1) =~= w);
        },
        PacketModel::bedrock_raknet_UnconnectedPingOpenConnectionsPacket(x) => {
            let w = <crate::protocol::bedrock::raknet::UnconnectedPingOpenConnectionsPacket as WriteField>::spec_write(x);
            <crate::protocol::bedrock::raknet::UnconnectedPingOpenConnectionsPacket as WireField>::lemma_round_trip(x, Seq::empty());
            assert(w + Seq::<u8>::empty() =~= w);
            let f = spec_bedrock_frame(0x02, w);
            assert(f.skip(1) =~= w);
        },
        PacketModel::bedrock_raknet_ConnectedPongPacket(x) => {
            let w = <crate::protocol::bedrock::raknet::ConnectedPongPacket as WriteField>::spec_write(x);
            <crate::protocol::bedrock::raknet::ConnectedPongPacket as WireField>::lemma_round_trip(x, Seq::empty());
            assert(w + Seq::<u8>::empty() =~= w);
            let f = spec_bedrock_frame(0x03, w);
            assert(f.skip(1) =~= w);
        },
        PacketModel::bedrock_raknet_OpenConnectionRequest1Packet(x) => {
            let w = <crate::protocol::bedrock::raknet::OpenConnectionRequest1Packet as WriteField>::spec_write(x);
            <crate::protocol::bedrock::raknet::OpenConnectionRequest1Packet as WireField>::lemma_round_trip(x, Seq::empty());
            assert(w + Seq::<u8>::empty() =~= w);
            let f = spec_bedrock_frame(0x05, w);
            assert(f.skip(1) =~= w);
        },
        PacketModel::bedrock_raknet_OpenConnectionReply1Packet(x) => {
            let w = <crate::protocol::bedrock::raknet::OpenConnectionReply1Packet as WriteField>::spec_write(x);
            <crate::protocol::bedrock::raknet::OpenConnectionReply1Packet as WireField>::lemma_round_trip(x, Seq::empty());
            assert(w + Seq::<u8>::empty() =~= w);
            let f = spec_bedrock_frame(0x06, w);
            assert(f.skip(1) =~= w);
        },
        PacketModel::bedrock_raknet_OpenConnectionRequest2Packet(x) => {
            let w = <crate::protocol::bedrock::raknet::OpenConnectionRequest2Packet as WriteField>::spec_write(x);
            <crate::protocol::bedrock::raknet::OpenConnectionRequest2Packet as WireField>::lemma_round_trip(x, Seq::empty());
            assert(w + Seq::<u8>::empty() =~= w);
            let f = spec_bedrock_frame(0x07, w);
            assert(f.skip(1) =~= w);
        },
        PacketModel::bedrock_raknet_OpenConnectionReply2Packet(x) => {
            let w = <crate::protocol::bedrock::raknet::OpenConnectionReply2Packet as WriteField>::spec_write(x);
            <crate::protocol::bedrock::raknet::OpenConnectionReply2Packet as WireField>::lemma_round_trip(x, Seq::empty());
            assert(w + Seq::<u8>::empty() =~= w);
            let f = spec_bedrock_frame(0x08, w);
            assert(f.skip(1) =~= w);
        },
        PacketModel::bedrock_raknet_ConnectionRequestPacket(x) => {
            let w = <crate::protocol::bedrock::raknet::ConnectionRequestPacket as WriteField>::spec_write(x);
            <crate::protocol::bedrock::raknet::ConnectionRequestPacket as WireField>::lemma_round_trip(x, Seq::empty());
            assert(w + Seq::<u8>::empty() =~= w);
            let f = spec_bedrock_frame(0x09, w);
            assert(f.skip(1) =~= w);
        },
        PacketModel::bedrock_raknet_ConnectionRequestAcceptedPacket(x) => {
            let w = <crate::protocol::bedrock::raknet::ConnectionRequestAcceptedPacket as WriteField>::spec_write(x);
            <crate::protocol::bedrock::raknet::ConnectionRequestAcceptedPacket as WireField>::lemma_round_trip(x, Seq::empty());
            assert(w + Seq::<u8>::empty() =~= w);
            let f = spec_bedrock_frame(0x10, w);
            assert(f.skip(1) =~= w);
        },
        PacketModel::bedrock_raknet_NewIncomingConnectionPacket(x) => {
            let w = <crate::protocol::bedrock::raknet::NewIncomingConnectionPacket as WriteField>::spec_write(x);
            <crate::protocol::bedrock::raknet::NewIncomingConnectionPacket as WireField>::lemma_round_trip(x, Seq::empty());
            assert(w + Seq::<u8>::empty() =~= w);
            let f = spec_bedrock_frame(0x13, w);
            assert(f.skip(1) =~= w);
        },
        PacketModel::bedrock_raknet_NoFreeIncomingConnectionsPacket(x) => {
            let w = <crate::protocol::bedrock::raknet::NoFreeIncomingConnectionsPacket as WriteField>::spec_write(x);
            <crate::protocol::bedrock::raknet::NoFreeIncomingConnectionsPacket as WireField>::lemma_round_trip(x, Seq::empty());
            assert(w + Seq::<u8>::empty() =~= w);
            let f = spec_bedrock_frame(0x14, w);
            assert(f.skip(1) =~= w);
        },
        PacketModel::bedrock_raknet_DisconnectNotificationPacket(x) => {
            let w = <crate::protocol::bedrock::raknet::DisconnectNotificationPacket as WriteField>::spec_write(x);
            <crate::protocol::bedrock::raknet::DisconnectNotificationPacket as WireField>::lemma_round_trip(x, Seq::empty());
            assert(w + Seq::<u8>::empty() =~= w);
            let f = spec_bedrock_frame(0x15, w);
            assert(f.skip(1) =~= w);
        },
        PacketModel::bedrock_raknet_ConnectionBannedPacket(x) => {
            let w = <crate::protocol::bedrock::raknet::ConnectionBannedPacket as WriteField>::spec_write(x);
            <crate::protocol::bedrock::raknet::ConnectionBannedPacket as WireField>::lemma_round_trip(x, Seq::empty());
            assert(w + Seq::<u8>::empty() =~= w);
            let f = spec_bedrock_frame(0x17, w);
            assert(f.skip(1) =~= w);
        },
        PacketModel::bedrock_raknet_IncompatibleProtocolPacket(x) => {
            let w = <crate::protocol::bedrock::raknet::IncompatibleProtocolPacket as WriteField>::spec_write(x);
            <crate::protocol::bedrock::raknet::IncompatibleProtocolPacket as WireField>::lemma_round_trip(x, Seq::empty());
            assert(w + Seq::<u8>::empty() =~= w);
            let f = spec_bedrock_frame(0x19, w);
            assert(f.skip(1) =~= w);
        },
        PacketModel::bedrock_raknet_IpRecentlyConnectedPacket(x) => {
            let w = <crate::protocol::bedrock::raknet::IpRecentlyConnectedPacket as WriteField>::spec_write(x);
            <crate::protocol::bedrock::raknet::IpRecentlyConnectedPacket as WireField>::lemma_round_trip(x, Seq::empty());
            assert(w + Seq::<u8>::empty() =~= w);
            let f = spec_bedrock_frame(0x1a, w);
            assert(f.skip(1) =~= w);
        },
        PacketModel::bedrock_raknet_UnconnectedPongPacket(x) => {
            let w = <crate::protocol::bedrock::raknet::UnconnectedPongPacket as WriteField>::spec_write(x);
            <crate::protocol::bedrock::raknet::UnconnectedPongPacket as WireField>::lemma_round_trip(x, Seq::empty());
            assert(w + Seq::<u8>::empty() =~= w);
            let f = spec_bedrock_frame(0x1c, w);
            assert(f.skip(1) =~= w);
        },
        PacketModel::bedrock_raknet_NakPacket(x) => {
            let w = <crate::protocol::bedrock::raknet::NakPacket as WriteField>::spec_write(x);
            <crate::protocol::bedrock::raknet::NakPacket as WireField>::lemma_round_trip(x, Seq::empty());
            assert(w + Seq::<u8>::empty() =~= w);
            let f = spec_bedrock_frame(0xa0, w);
            assert(f.skip(1) =~= w);
        },
        PacketModel::bedrock_raknet_AckPacket(x) => {
            let w = <crate::protocol::bedrock::raknet::AckPacket as WriteField>::spec_write(x);
            <crate::protocol::bedrock::raknet::AckPacket as WireField>::lemma_round_trip(x, Seq::empty());
            assert(w + Seq::<u8>::empty() =~= w);
            let f = spec_bedrock_frame(0xc0, w);
            assert(f.skip(1) =~= w);
        },
        _ => {
            assert(false);
        },
    }
}


/// Whatever the table returns, a successful read never consumes more bytes
/// than the payload held.
pub proof fn lemma_proto_read_len(p: Protocol, id: i32, state: State, bound: Bound, b: Seq<u8>)
    ensures
        spec_proto_read(p, id, state, bound, b) matches Decoded::Value(pm, n) ==> n <= b.len(),
{
    reveal(spec_bedrock_read);
    reveal(spec_java_read);
    <crate::protocol::bedrock::raknet::ConnectedPingPacket as ReadField>::lemma_read_len(b);
    <crate::protocol::bedrock::raknet::UnconnectedPingPacket as ReadField>::lemma_read_len(b);
    <crate::protocol::bedrock::raknet::UnconnectedPingOpenConnectionsPacket as ReadField>::lemma_read_len(b);
    <crate::protocol::bedrock::raknet::ConnectedPongPacket as ReadField>::lemma_read_len(b);
    <crate::protocol::bedrock::raknet::OpenConnectionRequest1Packet as ReadField>::lemma_read_len(b);
    <crate::protocol::bedrock::raknet::OpenConnectionReply1Packet as ReadField>::lemma_read_len(b);
    <crate::protocol::bedrock::raknet::OpenConnectionRequest2Packet as ReadField>::lemma_read_len(b);
    <crate::protocol::bedrock::raknet::OpenConnectionReply2Packet as ReadField>::lemma_read_len(b);
    <crate::protocol::bedrock::raknet::ConnectionRequestPacket as ReadField>::lemma_read_len(b);
    <crate::protocol::bedrock::raknet::ConnectionRequestAcceptedPacket as ReadField>::lemma_read_len(b);
    <crate::protocol::bedrock::raknet::NewIncomingConnectionPacket as ReadField>::lemma_read_len(b);
    <crate::protocol::bedrock::raknet::NoFreeIncomingConnectionsPacket as ReadField>::lemma_read_len(b);
    <crate::protocol::bedrock::raknet::DisconnectNotificationPacket as ReadField>::lemma_read_len(b);
    <crate::protocol::bedrock::raknet::ConnectionBannedPacket as ReadField>::lemma_read_len(b);
    <crate::protocol::bedrock::raknet::IncompatibleProtocolPacket as ReadField>::lemma_read_len(b);
    <crate::protocol::bedrock::raknet::IpRecentlyConnectedPacket as ReadField>::lemma_read_len(b);
    <crate::protocol::bedrock::raknet::UnconnectedPongPacket as ReadField>::lemma_read_len(b);
    <crate::protocol::bedrock::raknet::NakPacket as ReadField>::lemma_read_len(b);
    <crate::protocol::bedrock::raknet::AckPacket as ReadField>::lemma_read_len(b);
    <crate::protocol::java::v1_7::HandshakePacket as ReadField>::lemma_read_len(b);
    <crate::protocol::java::v1_7::ResponsePacket as ReadField>::lemma_read_len(b);
    <crate::protocol::java::v1_7::PongPacket as ReadField>::lemma_read_len(b);
    <crate::protocol::java::v1_7::RequestPacket as ReadField>::lemma_read_len(b);
    <crate::protocol::java::v1_7::PingPacket as ReadField>::lemma_read_len(b);
    <crate::protocol::java::v1_7::LoginStartPacket as ReadField>::lemma_read_len(b);
    <crate::protocol::java::v1_7::EncryptionResponsePacket as ReadField>::lemma_read_len(b);
    <crate::protocol::java::v1_7::DisconnectPacket as ReadField>::lemma_read_len(b);
    <crate::protocol::java::v1_7::EncryptionRequestPacket as ReadField>::lemma_read_len(b);
    <crate::protocol::java::v1_7::LoginSuccessPacket as ReadField>::lemma_read_len(b);
    <crate::protocol::java::v1_7::SetCompressionPacket as ReadField>::lemma_read_len(b);
    <crate::protocol::java::v1_7::KeepAlivePacket as ReadField>::lemma_read_len(b);
    <crate::protocol::java::v1_7::JoinGamePacket as ReadField>::lemma_read_len(b);
    <crate::protocol::java::v1_8::JoinGamePacket as ReadField>::lemma_read_len(b);
    <crate::protocol::java::v1_9::JoinGamePacket as ReadField>::lemma_read_len(b);
}


/// What a Java write looks like from outside: the frame wraps the kind's
/// wire id (always a single-digit VarInt here) around the packet's field
/// bytes, whose well-formed length stays within the frame bound.
#[verifier::rlimit(100)]
#[verifier::spinoff_prover]
pub proof fn lemma_java_write_shape(p: Protocol, m: PacketModel, bound: Bound)
    requires
        spec_edition(p) == ProtocolEdition::JavaEdition,
        Packet::wf_model(m),
        spec_proto_write(p, m, bound) is Some,
    ensures
        0 <= spec_kind_wire_id(p, m) <= 0x25,
        Packet::spec_write(m).len() <= 0x400000,
        spec_proto_write(p, m, bound)->Some_0 == spec_java_frame(
            spec_kind_wire_id(p, m),
            Packet::spec_write(m),
        ),
{
    match m {
        PacketModel::java_v1_7_HandshakePacket(x) => {
            <crate::protocol::java::v1_7::HandshakePacket as WireField>::lemma_round_trip(x, Seq::empty());
        },
        PacketModel::java_v1_7_ResponsePacket(x) => {
            <crate::protocol::java::v1_7::ResponsePacket as WireField>::lemma_round_trip(x, Seq::empty());
        },
        PacketModel::java_v1_7_PongPacket(x) => {
            <crate::protocol::java::v1_7::PongPacket as WireField>::lemma_round_trip(x, Seq::empty());
        },
        PacketModel::java_v1_7_RequestPacket(x) => {
            <crate::protocol::java::v1_7::RequestPacket as WireField>::lemma_round_trip(x, Seq::empty());
        },
        PacketModel::java_v1_7_PingPacket(x) => {
            <crate::protocol::java::v1_7::PingPacket as WireField>::lemma_round_trip(x, Seq::empty());
        },
        PacketModel::java_v1_7_LoginStartPacket(x) => {
            <crate::protocol::java::v1_7::LoginStartPacket as WireField>::lemma_round_trip(x, Seq::empty());
        },
        PacketModel::java_v1_7_EncryptionResponsePacket(x) => {
            <crate::protocol::java::v1_7::EncryptionResponsePacket as WireField>::lemma_round_trip(x, Seq::empty());
        },
        PacketModel::java_v1_7_DisconnectPacket(x) => {
            <crate::protocol::java::v1_7::DisconnectPacket as WireField>::lemma_round_trip(x, Seq::empty());
        },
        PacketModel::java_v1_7_EncryptionRequestPacket(x) => {
            <crate::protocol::java::v1_7::EncryptionRequestPacket as WireField>::lemma_round_trip(x, Seq::empty());
        },
        PacketModel::java_v1_7_LoginSuccessPacket(x) => {
            <crate::protocol::java::v1_7::LoginSuccessPacket as WireField>::lemma_round_trip(x, Seq::empty());
        },
        PacketModel::java_v1_7_SetCompressionPacket(x) => {
            <crate::protocol::java::v1_7::SetCompressionPacket as WireField>::lemma_round_trip(x, Seq::empty());
        },
        PacketModel::java_v1_7_KeepAlivePacket(x) => {
            <crate::protocol::java::v1_7::KeepAlivePacket as WireField>::lemma_round_trip(x, Seq::empty());
        },
        PacketModel::java_v1_7_JoinGamePacket(x) => {
            <crate::protocol::java::v1_7::JoinGamePacket as WireField>::lemma_round_trip(x, Seq::empty());
        },
        PacketModel::java_v1_8_JoinGamePacket(x) => {
            <crate::protocol::java::v1_8::JoinGamePacket as WireField>::lemma_round_trip(
                x,
                Seq::empty(),
            );
        },
        PacketModel::java_v1_9_JoinGamePacket(x) => {
            <crate::protocol::java::v1_9::JoinGamePacket as WireField>::lemma_round_trip(
                x,
                Seq::empty(),
            );
        },
        _ => {
            assert(false);
        },
    }
}

} // verus!
