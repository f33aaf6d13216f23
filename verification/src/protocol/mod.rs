use vstd::prelude::*;

pub mod bedrock;
pub mod java;
pub mod registry;

verus! {

/// The two wire-protocol families that the front-end terminates.
#[derive(Debug, Eq, PartialEq, Structural, Clone, Copy)]
pub enum ProtocolEdition {
    JavaEdition,
    BedrockEdition,
}

/// Packets in different states have different id counters.
/// When a state changes, the id counter resets.
#[derive(Debug, Eq, PartialEq, Structural, Clone, Copy)]
pub enum State {
    /// first connecting to the server
    JavaHandshake,
    /// for the client's server list
    JavaStatus,
    /// authentication
    JavaLogin,
    /// in game
    JavaPlay,
    /// raknet packets that are offline
    BedrockRakNetOffline,
    /// raknet packets that are datagrams
    BedrockRakNet,
    /// Minecraft protocol
    BedrockMinecraft,
}

/// The direction a packet travels in.
#[derive(Debug, Eq, PartialEq, Structural, Clone, Copy)]
pub enum Bound {
    /// Going to the Client
    Clientbound,
    /// Going to the Server
    Serverbound,
    /// Direction doesn't matter
    Any,
    /// Direction unknown: such an entry matches neither read direction
    Neither,
}

} // verus!
