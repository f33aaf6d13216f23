// RakNet packets for the Bedrock family (RakNet protocol version 9).
use vstd::prelude::*;
use crate::packet::{Decoded, PacketType, ReadField, WireField, WriteField};
use crate::protocol::State;
use crate::types::{Address, FortySixZeros, IntRangeList, RakNetMagic, ShortLengthPrefixedString};

verus! {

#[derive(Clone, Debug)]
pub struct ConnectedPingPacket {
    pub ping_time: u64,
}

impl ConnectedPingPacket {
    pub fn new(ping_time: u64) -> (r: Self)
        ensures
            r@ == ping_time@,
    {
        ConnectedPingPacket { ping_time }
    }
}

impl View for ConnectedPingPacket {
    type V = u64;

    open spec fn view(&self) -> Self::V {
        self.ping_time@
    }
}

impl ReadField for ConnectedPingPacket {
    open spec fn spec_read(b: Seq<u8>) -> Decoded<Self::V> {
        match <u64 as ReadField>::spec_read(b) {
            Decoded::Value(ping_time, n) => Decoded::Value(ping_time, n),
            Decoded::NeedMoreData => Decoded::NeedMoreData,
            Decoded::Malformed => Decoded::Malformed,
        }
    }

    proof fn lemma_read_len(b: Seq<u8>) {
        <u64 as ReadField>::lemma_read_len(b);
    }

    fn read(bytes: &Vec<u8>, index: usize) -> (r: Decoded<Self>) {
        match <u64 as ReadField>::read(bytes, index) {
            Decoded::Value(ping_time, n) => Decoded::Value(
                ConnectedPingPacket { ping_time },
                n,
            ),
            Decoded::NeedMoreData => Decoded::NeedMoreData,
            Decoded::Malformed => Decoded::Malformed,
        }
    }
}

impl WriteField for ConnectedPingPacket {
    open spec fn spec_write(m: Self::V) -> Seq<u8> {
        <u64 as WriteField>::spec_write(m)
    }

    open spec fn wf_model(m: Self::V) -> bool {
        <u64 as WriteField>::wf_model(m)
    }

    fn write(&self) -> (out: Vec<u8>) {
        let mut out = self.ping_time.write();
        proof {
            assert(out@ =~= Self::spec_write(self@));
        }
        out
    }
}

impl WireField for ConnectedPingPacket {
    proof fn lemma_round_trip(m: Self::V, rest: Seq<u8>) {
        <u64 as WireField>::lemma_round_trip(m, rest);
    }
}

impl PacketType for ConnectedPingPacket {
    open spec fn spec_name() -> Seq<char> {
        "ConnectedPingPacket"@
    }

    open spec fn spec_next_state(m: Self::V) -> Option<State> {
        None
    }

    fn name(&self) -> (r: &str) {
        "ConnectedPingPacket"
    }

    fn next_state(&self) -> (r: Option<State>) {
        None
    }
}

#[derive(Clone, Debug)]
pub struct UnconnectedPingPacket {
    pub ping_time: u64,
    pub magic: RakNetMagic,
    pub guid: u64,
}

impl UnconnectedPingPacket {
    pub fn new(ping_time: u64, magic: RakNetMagic, guid: u64) -> (r: Self)
        ensures
            r@ == (ping_time@, magic@, guid@),
    {
        UnconnectedPingPacket { ping_time, magic, guid }
    }
}

impl View for UnconnectedPingPacket {
    type V = (u64, Seq<u8>, u64);

    open spec fn view(&self) -> Self::V {
        (self.ping_time@, self.magic@, self.guid@)
    }
}

impl ReadField for UnconnectedPingPacket {
    open spec fn spec_read(b: Seq<u8>) -> Decoded<Self::V> {
        match <(u64, (RakNetMagic, u64)) as ReadField>::spec_read(b) {
            Decoded::Value((ping_time, (magic, guid)), n) => Decoded::Value((ping_time, magic, guid), n),
            Decoded::NeedMoreData => Decoded::NeedMoreData,
            Decoded::Malformed => Decoded::Malformed,
        }
    }

    proof fn lemma_read_len(b: Seq<u8>) {
        <(u64, (RakNetMagic, u64)) as ReadField>::lemma_read_len(b);
    }

    fn read(bytes: &Vec<u8>, index: usize) -> (r: Decoded<Self>) {
        match <(u64, (RakNetMagic, u64)) as ReadField>::read(bytes, index) {
            Decoded::Value((ping_time, (magic, guid)), n) => Decoded::Value(
                UnconnectedPingPacket { ping_time, magic, guid },
                n,
            ),
            Decoded::NeedMoreData => Decoded::NeedMoreData,
            Decoded::Malformed => Decoded::Malformed,
        }
    }
}

impl WriteField for UnconnectedPingPacket {
    open spec fn spec_write(m: Self::V) -> Seq<u8> {
        <(u64, (RakNetMagic, u64)) as WriteField>::spec_write((m.0, (m.1, m.2)))
    }

    open spec fn wf_model(m: Self::V) -> bool {
        <(u64, (RakNetMagic, u64)) as WriteField>::wf_model((m.0, (m.1, m.2)))
    }

    fn write(&self) -> (out: Vec<u8>) {
        let mut out = self.ping_time.write();
        let mut t = self.magic.write();
        out.append(&mut t);
        let mut t = self.guid.write();
        out.append(&mut t);
        proof {
            assert(out@ =~= Self::spec_write(self@));
        }
        out
    }
}

impl WireField for UnconnectedPingPacket {
    proof fn lemma_round_trip(m: Self::V, rest: Seq<u8>) {
        <(u64, (RakNetMagic, u64)) as WireField>::lemma_round_trip((m.0, (m.1, m.2)), rest);
    }
}

impl PacketType for UnconnectedPingPacket {
    open spec fn spec_name() -> Seq<char> {
        "UnconnectedPingPacket"@
    }

    open spec fn spec_next_state(m: Self::V) -> Option<State> {
        None
    }

    fn name(&self) -> (r: &str) {
        "UnconnectedPingPacket"
    }

    fn next_state(&self) -> (r: Option<State>) {
        None
    }
}

#[derive(Clone, Debug)]
pub struct UnconnectedPingOpenConnectionsPacket {
    pub ping_time: u64,
    pub magic: RakNetMagic,
    pub guid: u64,
}

impl UnconnectedPingOpenConnectionsPacket {
    pub fn new(ping_time: u64, magic: RakNetMagic, guid: u64) -> (r: Self)
        ensures
            r@ == (ping_time@, magic@, guid@),
    {
        UnconnectedPingOpenConnectionsPacket { ping_time, magic, guid }
    }
}

impl View for UnconnectedPingOpenConnectionsPacket {
    type V = (u64, Seq<u8>, u64);

    open spec fn view(&self) -> Self::V {
        (self.ping_time@, self.magic@, self.guid@)
    }
}

impl ReadField for UnconnectedPingOpenConnectionsPacket {
    open spec fn spec_read(b: Seq<u8>) -> Decoded<Self::V> {
        match <(u64, (RakNetMagic, u64)) as ReadField>::spec_read(b) {
            Decoded::Value((ping_time, (magic, guid)), n) => Decoded::Value((ping_time, magic, guid), n),
            Decoded::NeedMoreData => Decoded::NeedMoreData,
            Decoded::Malformed => Decoded::Malformed,
        }
    }

    proof fn lemma_read_len(b: Seq<u8>) {
        <(u64, (RakNetMagic, u64)) as ReadField>::lemma_read_len(b);
    }

    fn read(bytes: &Vec<u8>, index: usize) -> (r: Decoded<Self>) {
        match <(u64, (RakNetMagic, u64)) as ReadField>::read(bytes, index) {
            Decoded::Value((ping_time, (magic, guid)), n) => Decoded::Value(
                UnconnectedPingOpenConnectionsPacket { ping_time, magic, guid },
                n,
            ),
            Decoded::NeedMoreData => Decoded::NeedMoreData,
            Decoded::Malformed => Decoded::Malformed,
        }
    }
}

impl WriteField for UnconnectedPingOpenConnectionsPacket {
    open spec fn spec_write(m: Self::V) -> Seq<u8> {
        <(u64, (RakNetMagic, u64)) as WriteField>::spec_write((m.0, (m.1, m.2)))
    }

    open spec fn wf_model(m: Self::V) -> bool {
        <(u64, (RakNetMagic, u64)) as WriteField>::wf_model((m.0, (m.1, m.2)))
    }

    fn write(&self) -> (out: Vec<u8>) {
        let mut out = self.ping_time.write();
        let mut t = self.magic.write();
        out.append(&mut t);
        let mut t = self.guid.write();
        out.append(&mut t);
        proof {
            assert(out@ =~= Self::spec_write(self@));
        }
        out
    }
}

impl WireField for UnconnectedPingOpenConnectionsPacket {
    proof fn lemma_round_trip(m: Self::V, rest: Seq<u8>) {
        <(u64, (RakNetMagic, u64)) as WireField>::lemma_round_trip((m.0, (m.1, m.2)), rest);
    }
}

impl PacketType for UnconnectedPingOpenConnectionsPacket {
    open spec fn spec_name() -> Seq<char> {
        "UnconnectedPingOpenConnectionsPacket"@
    }

    open spec fn spec_next_state(m: Self::V) -> Option<State> {
        None
    }

    fn name(&self) -> (r: &str) {
        "UnconnectedPingOpenConnectionsPacket"
    }

    fn next_state(&self) -> (r: Option<State>) {
        None
    }
}

#[derive(Clone, Debug)]
pub struct ConnectedPongPacket {
    pub ping_time: u64,
    pub pong_time: u64,
}

impl ConnectedPongPacket {
    pub fn new(ping_time: u64, pong_time: u64) -> (r: Self)
        ensures
            r@ == (ping_time@, pong_time@),
    {
        ConnectedPongPacket { ping_time, pong_time }
    }
}

impl View for ConnectedPongPacket {
    type V = (u64, u64);

    open spec fn view(&self) -> Self::V {
        (self.ping_time@, self.pong_time@)
    }
}

impl ReadField for ConnectedPongPacket {
    open spec fn spec_read(b: Seq<u8>) -> Decoded<Self::V> {
        match <(u64, u64) as ReadField>::spec_read(b) {
            Decoded::Value((ping_time, pong_time), n) => Decoded::Value((ping_time, pong_time), n),
            Decoded::NeedMoreData => Decoded::NeedMoreData,
            Decoded::Malformed => Decoded::Malformed,
        }
    }

    proof fn lemma_read_len(b: Seq<u8>) {
        <(u64, u64) as ReadField>::lemma_read_len(b);
    }

    fn read(bytes: &Vec<u8>, index: usize) -> (r: Decoded<Self>) {
        match <(u64, u64) as ReadField>::read(bytes, index) {
            Decoded::Value((ping_time, pong_time), n) => Decoded::Value(
                ConnectedPongPacket { ping_time, pong_time },
                n,
            ),
            Decoded::NeedMoreData => Decoded::NeedMoreData,
            Decoded::Malformed => Decoded::Malformed,
        }
    }
}

impl WriteField for ConnectedPongPacket {
    open spec fn spec_write(m: Self::V) -> Seq<u8> {
        <(u64, u64) as WriteField>::spec_write((m.0, m.1))
    }

    open spec fn wf_model(m: Self::V) -> bool {
        <(u64, u64) as WriteField>::wf_model((m.0, m.1))
    }

    fn write(&self) -> (out: Vec<u8>) {
        let mut out = self.ping_time.write();
        let mut t = self.pong_time.write();
        out.append(&mut t);
        proof {
            assert(out@ =~= Self::spec_write(self@));
        }
        out
    }
}

impl WireField for ConnectedPongPacket {
    proof fn lemma_round_trip(m: Self::V, rest: Seq<u8>) {
        <(u64, u64) as WireField>::lemma_round_trip((m.0, m.1), rest);
    }
}

impl PacketType for ConnectedPongPacket {
    open spec fn spec_name() -> Seq<char> {
        "ConnectedPongPacket"@
    }

    open spec fn spec_next_state(m: Self::V) -> Option<State> {
        None
    }

    fn name(&self) -> (r: &str) {
        "ConnectedPongPacket"
    }

    fn next_state(&self) -> (r: Option<State>) {
        None
    }
}

#[derive(Clone, Debug)]
pub struct OpenConnectionRequest1Packet {
    pub magic: RakNetMagic,
    pub protocol_version: u8,
    pub mtu_data: FortySixZeros,
}

impl OpenConnectionRequest1Packet {
    pub fn new(magic: RakNetMagic, protocol_version: u8, mtu_data: FortySixZeros) -> (r: Self)
        ensures
            r@ == (magic@, protocol_version@, mtu_data@),
    {
        OpenConnectionRequest1Packet { magic, protocol_version, mtu_data }
    }
}

impl View for OpenConnectionRequest1Packet {
    type V = (Seq<u8>, u8, Seq<u8>);

    open spec fn view(&self) -> Self::V {
        (self.magic@, self.protocol_version@, self.mtu_data@)
    }
}

impl ReadField for OpenConnectionRequest1Packet {
    open spec fn spec_read(b: Seq<u8>) -> Decoded<Self::V> {
        match <(RakNetMagic, (u8, FortySixZeros)) as ReadField>::spec_read(b) {
            Decoded::Value((magic, (protocol_version, mtu_data)), n) => Decoded::Value((magic, protocol_version, mtu_data), n),
            Decoded::NeedMoreData => Decoded::NeedMoreData,
            Decoded::Malformed => Decoded::Malformed,
        }
    }

    proof fn lemma_read_len(b: Seq<u8>) {
        <(RakNetMagic, (u8, FortySixZeros)) as ReadField>::lemma_read_len(b);
    }

    fn read(bytes: &Vec<u8>, index: usize) -> (r: Decoded<Self>) {
        match <(RakNetMagic, (u8, FortySixZeros)) as ReadField>::read(bytes, index) {
            Decoded::Value((magic, (protocol_version, mtu_data)), n) => Decoded::Value(
                OpenConnectionRequest1Packet { magic, protocol_version, mtu_data },
                n,
            ),
            Decoded::NeedMoreData => Decoded::NeedMoreData,
            Decoded::Malformed => Decoded::Malformed,
        }
    }
}

impl WriteField for OpenConnectionRequest1Packet {
    open spec fn spec_write(m: Self::V) -> Seq<u8> {
        <(RakNetMagic, (u8, FortySixZeros)) as WriteField>::spec_write((m.0, (m.1, m.2)))
    }

    open spec fn wf_model(m: Self::V) -> bool {
        <(RakNetMagic, (u8, FortySixZeros)) as WriteField>::wf_model((m.0, (m.1, m.2)))
    }

    fn write(&self) -> (out: Vec<u8>) {
        let mut out = self.magic.write();
        let mut t = self.protocol_version.write();
        out.append(&mut t);
        let mut t = self.mtu_data.write();
        out.append(&mut t);
        proof {
            assert(out@ =~= Self::spec_write(self@));
        }
        out
    }
}

impl WireField for OpenConnectionRequest1Packet {
    proof fn lemma_round_trip(m: Self::V, rest: Seq<u8>) {
        <(RakNetMagic, (u8, FortySixZeros)) as WireField>::lemma_round_trip((m.0, (m.1, m.2)), rest);
    }
}

impl PacketType for OpenConnectionRequest1Packet {
    open spec fn spec_name() -> Seq<char> {
        "OpenConnectionRequest1Packet"@
    }

    open spec fn spec_next_state(m: Self::V) -> Option<State> {
        None
    }

    fn name(&self) -> (r: &str) {
        "OpenConnectionRequest1Packet"
    }

    fn next_state(&self) -> (r: Option<State>) {
        None
    }
}

#[derive(Clone, Debug)]
pub struct OpenConnectionReply1Packet {
    pub magic: RakNetMagic,
    pub server_id: u64,
    pub security: u8,
    pub mtu_size: u16,
}

impl OpenConnectionReply1Packet {
    pub fn new(magic: RakNetMagic, server_id: u64, security: u8, mtu_size: u16) -> (r: Self)
        ensures
            r@ == (magic@, server_id@, security@, mtu_size@),
    {
        OpenConnectionReply1Packet { magic, server_id, security, mtu_size }
    }
}

impl View for OpenConnectionReply1Packet {
    type V = (Seq<u8>, u64, u8, u16);

    open spec fn view(&self) -> Self::V {
        (self.magic@, self.server_id@, self.security@, self.mtu_size@)
    }
}

impl ReadField for OpenConnectionReply1Packet {
    open spec fn spec_read(b: Seq<u8>) -> Decoded<Self::V> {
        match <(RakNetMagic, (u64, (u8, u16))) as ReadField>::spec_read(b) {
            Decoded::Value((magic, (server_id, (security, mtu_size))), n) => Decoded::Value((magic, server_id, security, mtu_size), n),
            Decoded::NeedMoreData => Decoded::NeedMoreData,
            Decoded::Malformed => Decoded::Malformed,
        }
    }

    proof fn lemma_read_len(b: Seq<u8>) {
        <(RakNetMagic, (u64, (u8, u16))) as ReadField>::lemma_read_len(b);
    }

    fn read(bytes: &Vec<u8>, index: usize) -> (r: Decoded<Self>) {
        match <(RakNetMagic, (u64, (u8, u16))) as ReadField>::read(bytes, index) {
            Decoded::Value((magic, (server_id, (security, mtu_size))), n) => Decoded::Value(
                OpenConnectionReply1Packet { magic, server_id, security, mtu_size },
                n,
            ),
            Decoded::NeedMoreData => Decoded::NeedMoreData,
            Decoded::Malformed => Decoded::Malformed,
        }
    }
}

impl WriteField for OpenConnectionReply1Packet {
    open spec fn spec_write(m: Self::V) -> Seq<u8> {
        <(RakNetMagic, (u64, (u8, u16))) as WriteField>::spec_write((m.0, (m.1, (m.2, m.3))))
    }

    open spec fn wf_model(m: Self::V) -> bool {
        <(RakNetMagic, (u64, (u8, u16))) as WriteField>::wf_model((m.0, (m.1, (m.2, m.3))))
    }

    fn write(&self) -> (out: Vec<u8>) {
        let mut out = self.magic.write();
        let mut t = self.server_id.write();
        out.append(&mut t);
        let mut t = self.security.write();
        out.append(&mut t);
        let mut t = self.mtu_size.write();
        out.append(&mut t);
        proof {
            assert(out@ =~= Self::spec_write(self@));
        }
        out
    }
}

impl WireField for OpenConnectionReply1Packet {
    proof fn lemma_round_trip(m: Self::V, rest: Seq<u8>) {
        <(RakNetMagic, (u64, (u8, u16))) as WireField>::lemma_round_trip((m.0, (m.1, (m.2, m.3))), rest);
    }
}

impl PacketType for OpenConnectionReply1Packet {
    open spec fn spec_name() -> Seq<char> {
        "OpenConnectionReply1Packet"@
    }

    open spec fn spec_next_state(m: Self::V) -> Option<State> {
        None
    }

    fn name(&self) -> (r: &str) {
        "OpenConnectionReply1Packet"
    }

    fn next_state(&self) -> (r: Option<State>) {
        None
    }
}

#[derive(Clone, Debug)]
pub struct OpenConnectionRequest2Packet {
    pub magic: RakNetMagic,
    pub server_address: Address,
    pub mtu_size: u16,
    pub client_id: u64,
}

impl OpenConnectionRequest2Packet {
    pub fn new(magic: RakNetMagic, server_address: Address, mtu_size: u16, client_id: u64) -> (r: Self)
        ensures
            r@ == (magic@, server_address@, mtu_size@, client_id@),
    {
        OpenConnectionRequest2Packet { magic, server_address, mtu_size, client_id }
    }
}

impl View for OpenConnectionRequest2Packet {
    type V = (Seq<u8>, Address, u16, u64);

    open spec fn view(&self) -> Self::V {
        (self.magic@, self.server_address@, self.mtu_size@, self.client_id@)
    }
}

impl ReadField for OpenConnectionRequest2Packet {
    open spec fn spec_read(b: Seq<u8>) -> Decoded<Self::V> {
        match <(RakNetMagic, (Address, (u16, u64))) as ReadField>::spec_read(b) {
            Decoded::Value((magic, (server_address, (mtu_size, client_id))), n) => Decoded::Value((magic, server_address, mtu_size, client_id), n),
            Decoded::NeedMoreData => Decoded::NeedMoreData,
            Decoded::Malformed => Decoded::Malformed,
        }
    }

    proof fn lemma_read_len(b: Seq<u8>) {
        <(RakNetMagic, (Address, (u16, u64))) as ReadField>::lemma_read_len(b);
    }

    fn read(bytes: &Vec<u8>, index: usize) -> (r: Decoded<Self>) {
        match <(RakNetMagic, (Address, (u16, u64))) as ReadField>::read(bytes, index) {
            Decoded::Value((magic, (server_address, (mtu_size, client_id))), n) => Decoded::Value(
                OpenConnectionRequest2Packet { magic, server_address, mtu_size, client_id },
                n,
            ),
            Decoded::NeedMoreData => Decoded::NeedMoreData,
            Decoded::Malformed => Decoded::Malformed,
        }
    }
}

impl WriteField for OpenConnectionRequest2Packet {
    open spec fn spec_write(m: Self::V) -> Seq<u8> {
        <(RakNetMagic, (Address, (u16, u64))) as WriteField>::spec_write((m.0, (m.1, (m.2, m.3))))
    }

    open spec fn wf_model(m: Self::V) -> bool {
        <(RakNetMagic, (Address, (u16, u64))) as WriteField>::wf_model((m.0, (m.1, (m.2, m.3))))
    }

    fn write(&self) -> (out: Vec<u8>) {
        let mut out = self.magic.write();
        let mut t = self.server_address.write();
        out.append(&mut t);
        let mut t = self.mtu_size.write();
        out.append(&mut t);
        let mut t = self.client_id.write();
        out.append(&mut t);
        proof {
            assert(out@ =~= Self::spec_write(self@));
        }
        out
    }
}

impl WireField for OpenConnectionRequest2Packet {
    proof fn lemma_round_trip(m: Self::V, rest: Seq<u8>) {
        <(RakNetMagic, (Address, (u16, u64))) as WireField>::lemma_round_trip((m.0, (m.1, (m.2, m.3))), rest);
    }
}

impl PacketType for OpenConnectionRequest2Packet {
    open spec fn spec_name() -> Seq<char> {
        "OpenConnectionRequest2Packet"@
    }

    open spec fn spec_next_state(m: Self::V) -> Option<State> {
        None
    }

    fn name(&self) -> (r: &str) {
        "OpenConnectionRequest2Packet"
    }

    fn next_state(&self) -> (r: Option<State>) {
        None
    }
}

#[derive(Clone, Debug)]
pub struct OpenConnectionReply2Packet {
    pub magic: RakNetMagic,
    pub server_id: u64,
    pub client_address: Address,
    pub mtu_size: u16,
    pub security: u8,
}

impl OpenConnectionReply2Packet {
    pub fn new(magic: RakNetMagic, server_id: u64, client_address: Address, mtu_size: u16, security: u8) -> (r: Self)
        ensures
            r@ == (magic@, server_id@, client_address@, mtu_size@, security@),
    {
        OpenConnectionReply2Packet { magic, server_id, client_address, mtu_size, security }
    }
}

impl View for OpenConnectionReply2Packet {
    type V = (Seq<u8>, u64, Address, u16, u8);

    open spec fn view(&self) -> Self::V {
        (self.magic@, self.server_id@, self.client_address@, self.mtu_size@, self.security@)
    }
}

impl ReadField for OpenConnectionReply2Packet {
    open spec fn spec_read(b: Seq<u8>) -> Decoded<Self::V> {
        match <(RakNetMagic, (u64, (Address, (u16, u8)))) as ReadField>::spec_read(b) {
            Decoded::Value((magic, (server_id, (client_address, (mtu_size, security)))), n) => Decoded::Value((magic, server_id, client_address, mtu_size, security), n),
            Decoded::NeedMoreData => Decoded::NeedMoreData,
            Decoded::Malformed => Decoded::Malformed,
        }
    }

    proof fn lemma_read_len(b: Seq<u8>) {
        <(RakNetMagic, (u64, (Address, (u16, u8)))) as ReadField>::lemma_read_len(b);
    }

    fn read(bytes: &Vec<u8>, index: usize) -> (r: Decoded<Self>) {
        match <(RakNetMagic, (u64, (Address, (u16, u8)))) as ReadField>::read(bytes, index) {
            Decoded::Value((magic, (server_id, (client_address, (mtu_size, security)))), n) => Decoded::Value(
                OpenConnectionReply2Packet { magic, server_id, client_address, mtu_size, security },
                n,
            ),
            Decoded::NeedMoreData => Decoded::NeedMoreData,
            Decoded::Malformed => Decoded::Malformed,
        }
    }
}

impl WriteField for OpenConnectionReply2Packet {
    open spec fn spec_write(m: Self::V) -> Seq<u8> {
        <(RakNetMagic, (u64, (Address, (u16, u8)))) as WriteField>::spec_write((m.0, (m.1, (m.2, (m.3, m.4)))))
    }

    open spec fn wf_model(m: Self::V) -> bool {
        <(RakNetMagic, (u64, (Address, (u16, u8)))) as WriteField>::wf_model((m.0, (m.1, (m.2, (m.3, m.4)))))
    }

    fn write(&self) -> (out: Vec<u8>) {
        let mut out = self.magic.write();
        let mut t = self.server_id.write();
        out.append(&mut t);
        let mut t = self.client_address.write();
        out.append(&mut t);
        let mut t = self.mtu_size.write();
        out.append(&mut t);
        let mut t = self.security.write();
        out.append(&mut t);
        proof {
            assert(out@ =~= Self::spec_write(self@));
        }
        out
    }
}

impl WireField for OpenConnectionReply2Packet {
    proof fn lemma_round_trip(m: Self::V, rest: Seq<u8>) {
        <(RakNetMagic, (u64, (Address, (u16, u8)))) as WireField>::lemma_round_trip((m.0, (m.1, (m.2, (m.3, m.4)))), rest);
    }
}

impl PacketType for OpenConnectionReply2Packet {
    open spec fn spec_name() -> Seq<char> {
        "OpenConnectionReply2Packet"@
    }

    open spec fn spec_next_state(m: Self::V) -> Option<State> {
        None
    }

    fn name(&self) -> (r: &str) {
        "OpenConnectionReply2Packet"
    }

    fn next_state(&self) -> (r: Option<State>) {
        None
    }
}

#[derive(Clone, Debug)]
pub struct ConnectionRequestPacket {
    pub client_guid: u64,
    pub timestamp: u64,
    pub security: u8,
}

impl ConnectionRequestPacket {
    pub fn new(client_guid: u64, timestamp: u64, security: u8) -> (r: Self)
        ensures
            r@ == (client_guid@, timestamp@, security@),
    {
        ConnectionRequestPacket { client_guid, timestamp, security }
    }
}

impl View for ConnectionRequestPacket {
    type V = (u64, u64, u8);

    open spec fn view(&self) -> Self::V {
        (self.client_guid@, self.timestamp@, self.security@)
    }
}

impl ReadField for ConnectionRequestPacket {
    open spec fn spec_read(b: Seq<u8>) -> Decoded<Self::V> {
        match <(u64, (u64, u8)) as ReadField>::spec_read(b) {
            Decoded::Value((client_guid, (timestamp, security)), n) => Decoded::Value((client_guid, timestamp, security), n),
            Decoded::NeedMoreData => Decoded::NeedMoreData,
            Decoded::Malformed => Decoded::Malformed,
        }
    }

    proof fn lemma_read_len(b: Seq<u8>) {
        <(u64, (u64, u8)) as ReadField>::lemma_read_len(b);
    }

    fn read(bytes: &Vec<u8>, index: usize) -> (r: Decoded<Self>) {
        match <(u64, (u64, u8)) as ReadField>::read(bytes, index) {
            Decoded::Value((client_guid, (timestamp, security)), n) => Decoded::Value(
                ConnectionRequestPacket { client_guid, timestamp, security },
                n,
            ),
            Decoded::NeedMoreData => Decoded::NeedMoreData,
            Decoded::Malformed => Decoded::Malformed,
        }
    }
}

impl WriteField for ConnectionRequestPacket {
    open spec fn spec_write(m: Self::V) -> Seq<u8> {
        <(u64, (u64, u8)) as WriteField>::spec_write((m.0, (m.1, m.2)))
    }

    open spec fn wf_model(m: Self::V) -> bool {
        <(u64, (u64, u8)) as WriteField>::wf_model((m.0, (m.1, m.2)))
    }

    fn write(&self) -> (out: Vec<u8>) {
        let mut out = self.client_guid.write();
        let mut t = self.timestamp.write();
        out.append(&mut t);
        let mut t = self.security.write();
        out.append(&mut t);
        proof {
            assert(out@ =~= Self::spec_write(self@));
        }
        out
    }
}

impl WireField for ConnectionRequestPacket {
    proof fn lemma_round_trip(m: Self::V, rest: Seq<u8>) {
        <(u64, (u64, u8)) as WireField>::lemma_round_trip((m.0, (m.1, m.2)), rest);
    }
}

impl PacketType for ConnectionRequestPacket {
    open spec fn spec_name() -> Seq<char> {
        "ConnectionRequestPacket"@
    }

    open spec fn spec_next_state(m: Self::V) -> Option<State> {
        None
    }

    fn name(&self) -> (r: &str) {
        "ConnectionRequestPacket"
    }

    fn next_state(&self) -> (r: Option<State>) {
        None
    }
}

#[derive(Clone, Debug)]
pub struct ConnectionRequestAcceptedPacket {
    pub system_address: Address,
    pub system_index: u16,
    pub system_addresses: Vec<Address>,
    pub incoming_timestamp: u64,
    pub system_timestamp: u64,
}

impl ConnectionRequestAcceptedPacket {
    pub fn new(system_address: Address, system_index: u16, system_addresses: Vec<Address>, incoming_timestamp: u64, system_timestamp: u64) -> (r: Self)
        ensures
            r@ == (system_address@, system_index@, system_addresses@, incoming_timestamp@, system_timestamp@),
    {
        ConnectionRequestAcceptedPacket { system_address, system_index, system_addresses, incoming_timestamp, system_timestamp }
    }
}

impl View for ConnectionRequestAcceptedPacket {
    type V = (Address, u16, Seq<Address>, u64, u64);

    open spec fn view(&self) -> Self::V {
        (self.system_address@, self.system_index@, self.system_addresses@, self.incoming_timestamp@, self.system_timestamp@)
    }
}

impl ReadField for ConnectionRequestAcceptedPacket {
    open spec fn spec_read(b: Seq<u8>) -> Decoded<Self::V> {
        match <(Address, (u16, (Vec<Address>, (u64, u64)))) as ReadField>::spec_read(b) {
            Decoded::Value((system_address, (system_index, (system_addresses, (incoming_timestamp, system_timestamp)))), n) => Decoded::Value((system_address, system_index, system_addresses, incoming_timestamp, system_timestamp), n),
            Decoded::NeedMoreData => Decoded::NeedMoreData,
            Decoded::Malformed => Decoded::Malformed,
        }
    }

    proof fn lemma_read_len(b: Seq<u8>) {
        <(Address, (u16, (Vec<Address>, (u64, u64)))) as ReadField>::lemma_read_len(b);
    }

    fn read(bytes: &Vec<u8>, index: usize) -> (r: Decoded<Self>) {
        match <(Address, (u16, (Vec<Address>, (u64, u64)))) as ReadField>::read(bytes, index) {
            Decoded::Value((system_address, (system_index, (system_addresses, (incoming_timestamp, system_timestamp)))), n) => Decoded::Value(
                ConnectionRequestAcceptedPacket { system_address, system_index, system_addresses, incoming_timestamp, system_timestamp },
                n,
            ),
            Decoded::NeedMoreData => Decoded::NeedMoreData,
            Decoded::Malformed => Decoded::Malformed,
        }
    }
}

impl WriteField for ConnectionRequestAcceptedPacket {
    open spec fn spec_write(m: Self::V) -> Seq<u8> {
        <(Address, (u16, (Vec<Address>, (u64, u64)))) as WriteField>::spec_write((m.0, (m.1, (m.2, (m.3, m.4)))))
    }

    open spec fn wf_model(m: Self::V) -> bool {
        <(Address, (u16, (Vec<Address>, (u64, u64)))) as WriteField>::wf_model((m.0, (m.1, (m.2, (m.3, m.4)))))
    }

    fn write(&self) -> (out: Vec<u8>) {
        let mut out = self.system_address.write();
        let mut t = self.system_index.write();
        out.append(&mut t);
        let mut t = self.system_addresses.write();
        out.append(&mut t);
        let mut t = self.incoming_timestamp.write();
        out.append(&mut t);
        let mut t = self.system_timestamp.write();
        out.append(&mut t);
        proof {
            assert(out@ =~= Self::spec_write(self@));
        }
        out
    }
}

impl WireField for ConnectionRequestAcceptedPacket {
    proof fn lemma_round_trip(m: Self::V, rest: Seq<u8>) {
        <(Address, (u16, (Vec<Address>, (u64, u64)))) as WireField>::lemma_round_trip((m.0, (m.1, (m.2, (m.3, m.4)))), rest);
    }
}

impl PacketType for ConnectionRequestAcceptedPacket {
    open spec fn spec_name() -> Seq<char> {
        "ConnectionRequestAcceptedPacket"@
    }

    open spec fn spec_next_state(m: Self::V) -> Option<State> {
        None
    }

    fn name(&self) -> (r: &str) {
        "ConnectionRequestAcceptedPacket"
    }

    fn next_state(&self) -> (r: Option<State>) {
        None
    }
}

#[derive(Clone, Debug)]
pub struct NewIncomingConnectionPacket {
    pub client_address: Address,
    pub system_addresses: Vec<Address>,
    pub client_timestamp: u64,
    pub server_timestamp: u64,
}

impl NewIncomingConnectionPacket {
    pub fn new(client_address: Address, system_addresses: Vec<Address>, client_timestamp: u64, server_timestamp: u64) -> (r: Self)
        ensures
            r@ == (client_address@, system_addresses@, client_timestamp@, server_timestamp@),
    {
        NewIncomingConnectionPacket { client_address, system_addresses, client_timestamp, server_timestamp }
    }
}

impl View for NewIncomingConnectionPacket {
    type V = (Address, Seq<Address>, u64, u64);

    open spec fn view(&self) -> Self::V {
        (self.client_address@, self.system_addresses@, self.client_timestamp@, self.server_timestamp@)
    }
}

impl ReadField for NewIncomingConnectionPacket {
    open spec fn spec_read(b: Seq<u8>) -> Decoded<Self::V> {
        match <(Address, (Vec<Address>, (u64, u64))) as ReadField>::spec_read(b) {
            Decoded::Value((client_address, (system_addresses, (client_timestamp, server_timestamp))), n) => Decoded::Value((client_address, system_addresses, client_timestamp, server_timestamp), n),
            Decoded::NeedMoreData => Decoded::NeedMoreData,
            Decoded::Malformed => Decoded::Malformed,
        }
    }

    proof fn lemma_read_len(b: Seq<u8>) {
        <(Address, (Vec<Address>, (u64, u64))) as ReadField>::lemma_read_len(b);
    }

    fn read(bytes: &Vec<u8>, index: usize) -> (r: Decoded<Self>) {
        match <(Address, (Vec<Address>, (u64, u64))) as ReadField>::read(bytes, index) {
            Decoded::Value((client_address, (system_addresses, (client_timestamp, server_timestamp))), n) => Decoded::Value(
                NewIncomingConnectionPacket { client_address, system_addresses, client_timestamp, server_timestamp },
                n,
            ),
            Decoded::NeedMoreData => Decoded::NeedMoreData,
            Decoded::Malformed => Decoded::Malformed,
        }
    }
}

impl WriteField for NewIncomingConnectionPacket {
    open spec fn spec_write(m: Self::V) -> Seq<u8> {
        <(Address, (Vec<Address>, (u64, u64))) as WriteField>::spec_write((m.0, (m.1, (m.2, m.3))))
    }

    open spec fn wf_model(m: Self::V) -> bool {
        <(Address, (Vec<Address>, (u64, u64))) as WriteField>::wf_model((m.0, (m.1, (m.2, m.3))))
    }

    fn write(&self) -> (out: Vec<u8>) {
        let mut out = self.client_address.write();
        let mut t = self.system_addresses.write();
        out.append(&mut t);
        let mut t = self.client_timestamp.write();
        out.append(&mut t);
        let mut t = self.server_timestamp.write();
        out.append(&mut t);
        proof {
            assert(out@ =~= Self::spec_write(self@));
        }
        out
    }
}

impl WireField for NewIncomingConnectionPacket {
    proof fn lemma_round_trip(m: Self::V, rest: Seq<u8>) {
        <(Address, (Vec<Address>, (u64, u64))) as WireField>::lemma_round_trip((m.0, (m.1, (m.2, m.3))), rest);
    }
}

impl PacketType for NewIncomingConnectionPacket {
    open spec fn spec_name() -> Seq<char> {
        "NewIncomingConnectionPacket"@
    }

    open spec fn spec_next_state(m: Self::V) -> Option<State> {
        None
    }

    fn name(&self) -> (r: &str) {
        "NewIncomingConnectionPacket"
    }

    fn next_state(&self) -> (r: Option<State>) {
        None
    }
}

#[derive(Clone, Debug)]
pub struct NoFreeIncomingConnectionsPacket {
    pub magic: RakNetMagic,
    pub server_id: u64,
}

impl NoFreeIncomingConnectionsPacket {
    pub fn new(magic: RakNetMagic, server_id: u64) -> (r: Self)
        ensures
            r@ == (magic@, server_id@),
    {
        NoFreeIncomingConnectionsPacket { magic, server_id }
    }
}

impl View for NoFreeIncomingConnectionsPacket {
    type V = (Seq<u8>, u64);

    open spec fn view(&self) -> Self::V {
        (self.magic@, self.server_id@)
    }
}

impl ReadField for NoFreeIncomingConnectionsPacket {
    open spec fn spec_read(b: Seq<u8>) -> Decoded<Self::V> {
        match <(RakNetMagic, u64) as ReadField>::spec_read(b) {
            Decoded::Value((magic, server_id), n) => Decoded::Value((magic, server_id), n),
            Decoded::NeedMoreData => Decoded::NeedMoreData,
            Decoded::Malformed => Decoded::Malformed,
        }
    }

    proof fn lemma_read_len(b: Seq<u8>) {
        <(RakNetMagic, u64) as ReadField>::lemma_read_len(b);
    }

    fn read(bytes: &Vec<u8>, index: usize) -> (r: Decoded<Self>) {
        match <(RakNetMagic, u64) as ReadField>::read(bytes, index) {
            Decoded::Value((magic, server_id), n) => Decoded::Value(
                NoFreeIncomingConnectionsPacket { magic, server_id },
                n,
            ),
            Decoded::NeedMoreData => Decoded::NeedMoreData,
            Decoded::Malformed => Decoded::Malformed,
        }
    }
}

impl WriteField for NoFreeIncomingConnectionsPacket {
    open spec fn spec_write(m: Self::V) -> Seq<u8> {
        <(RakNetMagic, u64) as WriteField>::spec_write((m.0, m.1))
    }

    open spec fn wf_model(m: Self::V) -> bool {
        <(RakNetMagic, u64) as WriteField>::wf_model((m.0, m.1))
    }

    fn write(&self) -> (out: Vec<u8>) {
        let mut out = self.magic.write();
        let mut t = self.server_id.write();
        out.append(&mut t);
        proof {
            assert(out@ =~= Self::spec_write(self@));
        }
        out
    }
}

impl WireField for NoFreeIncomingConnectionsPacket {
    proof fn lemma_round_trip(m: Self::V, rest: Seq<u8>) {
        <(RakNetMagic, u64) as WireField>::lemma_round_trip((m.0, m.1), rest);
    }
}

impl PacketType for NoFreeIncomingConnectionsPacket {
    open spec fn spec_name() -> Seq<char> {
        "NoFreeIncomingConnectionsPacket"@
    }

    open spec fn spec_next_state(m: Self::V) -> Option<State> {
        None
    }

    fn name(&self) -> (r: &str) {
        "NoFreeIncomingConnectionsPacket"
    }

    fn next_state(&self) -> (r: Option<State>) {
        None
    }
}

#[derive(Clone, Debug)]
pub struct DisconnectNotificationPacket {
}

impl DisconnectNotificationPacket {
    pub fn new() -> (r: Self)
        ensures
            r@ == (),
    {
        DisconnectNotificationPacket {  }
    }
}

impl View for DisconnectNotificationPacket {
    type V = ();

    open spec fn view(&self) -> Self::V {
        ()
    }
}

impl ReadField for DisconnectNotificationPacket {
    open spec fn spec_read(b: Seq<u8>) -> Decoded<Self::V> {
        match <() as ReadField>::spec_read(b) {
            Decoded::Value(_, n) => Decoded::Value((), n),
            Decoded::NeedMoreData => Decoded::NeedMoreData,
            Decoded::Malformed => Decoded::Malformed,
        }
    }

    proof fn lemma_read_len(b: Seq<u8>) {
        <() as ReadField>::lemma_read_len(b);
    }

    fn read(bytes: &Vec<u8>, index: usize) -> (r: Decoded<Self>) {
        match <() as ReadField>::read(bytes, index) {
            Decoded::Value(_, n) => Decoded::Value(DisconnectNotificationPacket {  }, n),
            Decoded::NeedMoreData => Decoded::NeedMoreData,
            Decoded::Malformed => Decoded::Malformed,
        }
    }
}

impl WriteField for DisconnectNotificationPacket {
    open spec fn spec_write(m: Self::V) -> Seq<u8> {
        <() as WriteField>::spec_write(())
    }

    open spec fn wf_model(m: Self::V) -> bool {
        <() as WriteField>::wf_model(())
    }

    fn write(&self) -> (out: Vec<u8>) {
        let out: Vec<u8> = Vec::new();
        proof {
            assert(out@ =~= Self::spec_write(self@));
        }
        out
    }
}

impl WireField for DisconnectNotificationPacket {
    proof fn lemma_round_trip(m: Self::V, rest: Seq<u8>) {
        <() as WireField>::lemma_round_trip((), rest);
    }
}

impl PacketType for DisconnectNotificationPacket {
    open spec fn spec_name() -> Seq<char> {
        "DisconnectNotificationPacket"@
    }

    open spec fn spec_next_state(m: Self::V) -> Option<State> {
        None
    }

    fn name(&self) -> (r: &str) {
        "DisconnectNotificationPacket"
    }

    fn next_state(&self) -> (r: Option<State>) {
        None
    }
}

#[derive(Clone, Debug)]
pub struct ConnectionBannedPacket {
    pub magic: RakNetMagic,
    pub server_id: u64,
}

impl ConnectionBannedPacket {
    pub fn new(magic: RakNetMagic, server_id: u64) -> (r: Self)
        ensures
            r@ == (magic@, server_id@),
    {
        ConnectionBannedPacket { magic, server_id }
    }
}

impl View for ConnectionBannedPacket {
    type V = (Seq<u8>, u64);

    open spec fn view(&self) -> Self::V {
        (self.magic@, self.server_id@)
    }
}

impl ReadField for ConnectionBannedPacket {
    open spec fn spec_read(b: Seq<u8>) -> Decoded<Self::V> {
        match <(RakNetMagic, u64) as ReadField>::spec_read(b) {
            Decoded::Value((magic, server_id), n) => Decoded::Value((magic, server_id), n),
            Decoded::NeedMoreData => Decoded::NeedMoreData,
            Decoded::Malformed => Decoded::Malformed,
        }
    }

    proof fn lemma_read_len(b: Seq<u8>) {
        <(RakNetMagic, u64) as ReadField>::lemma_read_len(b);
    }

    fn read(bytes: &Vec<u8>, index: usize) -> (r: Decoded<Self>) {
        match <(RakNetMagic, u64) as ReadField>::read(bytes, index) {
            Decoded::Value((magic, server_id), n) => Decoded::Value(
                ConnectionBannedPacket { magic, server_id },
                n,
            ),
            Decoded::NeedMoreData => Decoded::NeedMoreData,
            Decoded::Malformed => Decoded::Malformed,
        }
    }
}

impl WriteField for ConnectionBannedPacket {
    open spec fn spec_write(m: Self::V) -> Seq<u8> {
        <(RakNetMagic, u64) as WriteField>::spec_write((m.0, m.1))
    }

    open spec fn wf_model(m: Self::V) -> bool {
        <(RakNetMagic, u64) as WriteField>::wf_model((m.0, m.1))
    }

    fn write(&self) -> (out: Vec<u8>) {
        let mut out = self.magic.write();
        let mut t = self.server_id.write();
        out.append(&mut t);
        proof {
            assert(out@ =~= Self::spec_write(self@));
        }
        out
    }
}

impl WireField for ConnectionBannedPacket {
    proof fn lemma_round_trip(m: Self::V, rest: Seq<u8>) {
        <(RakNetMagic, u64) as WireField>::lemma_round_trip((m.0, m.1), rest);
    }
}

impl PacketType for ConnectionBannedPacket {
    open spec fn spec_name() -> Seq<char> {
        "ConnectionBannedPacket"@
    }

    open spec fn spec_next_state(m: Self::V) -> Option<State> {
        None
    }

    fn name(&self) -> (r: &str) {
        "ConnectionBannedPacket"
    }

    fn next_state(&self) -> (r: Option<State>) {
        None
    }
}

#[derive(Clone, Debug)]
pub struct IncompatibleProtocolPacket {
    pub raknet_version: u8,
    pub magic: RakNetMagic,
    pub server_id: u64,
}

impl IncompatibleProtocolPacket {
    pub fn new(raknet_version: u8, magic: RakNetMagic, server_id: u64) -> (r: Self)
        ensures
            r@ == (raknet_version@, magic@, server_id@),
    {
        IncompatibleProtocolPacket { raknet_version, magic, server_id }
    }
}

impl View for IncompatibleProtocolPacket {
    type V = (u8, Seq<u8>, u64);

    open spec fn view(&self) -> Self::V {
        (self.raknet_version@, self.magic@, self.server_id@)
    }
}

impl ReadField for IncompatibleProtocolPacket {
    open spec fn spec_read(b: Seq<u8>) -> Decoded<Self::V> {
        match <(u8, (RakNetMagic, u64)) as ReadField>::spec_read(b) {
            Decoded::Value((raknet_version, (magic, server_id)), n) => Decoded::Value((raknet_version, magic, server_id), n),
            Decoded::NeedMoreData => Decoded::NeedMoreData,
            Decoded::Malformed => Decoded::Malformed,
        }
    }

    proof fn lemma_read_len(b: Seq<u8>) {
        <(u8, (RakNetMagic, u64)) as ReadField>::lemma_read_len(b);
    }

    fn read(bytes: &Vec<u8>, index: usize) -> (r: Decoded<Self>) {
        match <(u8, (RakNetMagic, u64)) as ReadField>::read(bytes, index) {
            Decoded::Value((raknet_version, (magic, server_id)), n) => Decoded::Value(
                IncompatibleProtocolPacket { raknet_version, magic, server_id },
                n,
            ),
            Decoded::NeedMoreData => Decoded::NeedMoreData,
            Decoded::Malformed => Decoded::Malformed,
        }
    }
}

impl WriteField for IncompatibleProtocolPacket {
    open spec fn spec_write(m: Self::V) -> Seq<u8> {
        <(u8, (RakNetMagic, u64)) as WriteField>::spec_write((m.0, (m.1, m.2)))
    }

    open spec fn wf_model(m: Self::V) -> bool {
        <(u8, (RakNetMagic, u64)) as WriteField>::wf_model((m.0, (m.1, m.2)))
    }

    fn write(&self) -> (out: Vec<u8>) {
        let mut out = self.raknet_version.write();
        let mut t = self.magic.write();
        out.append(&mut t);
        let mut t = self.server_id.write();
        out.append(&mut t);
        proof {
            assert(out@ =~= Self::spec_write(self@));
        }
        out
    }
}

impl WireField for IncompatibleProtocolPacket {
    proof fn lemma_round_trip(m: Self::V, rest: Seq<u8>) {
        <(u8, (RakNetMagic, u64)) as WireField>::lemma_round_trip((m.0, (m.1, m.2)), rest);
    }
}

impl PacketType for IncompatibleProtocolPacket {
    open spec fn spec_name() -> Seq<char> {
        "IncompatibleProtocolPacket"@
    }

    open spec fn spec_next_state(m: Self::V) -> Option<State> {
        None
    }

    fn name(&self) -> (r: &str) {
        "IncompatibleProtocolPacket"
    }

    fn next_state(&self) -> (r: Option<State>) {
        None
    }
}

#[derive(Clone, Debug)]
pub struct IpRecentlyConnectedPacket {
}

impl IpRecentlyConnectedPacket {
    pub fn new() -> (r: Self)
        ensures
            r@ == (),
    {
        IpRecentlyConnectedPacket {  }
    }
}

impl View for IpRecentlyConnectedPacket {
    type V = ();

    open spec fn view(&self) -> Self::V {
        ()
    }
}

impl ReadField for IpRecentlyConnectedPacket {
    open spec fn spec_read(b: Seq<u8>) -> Decoded<Self::V> {
        match <() as ReadField>::spec_read(b) {
            Decoded::Value(_, n) => Decoded::Value((), n),
            Decoded::NeedMoreData => Decoded::NeedMoreData,
            Decoded::Malformed => Decoded::Malformed,
        }
    }

    proof fn lemma_read_len(b: Seq<u8>) {
        <() as ReadField>::lemma_read_len(b);
    }

    fn read(bytes: &Vec<u8>, index: usize) -> (r: Decoded<Self>) {
        match <() as ReadField>::read(bytes, index) {
            Decoded::Value(_, n) => Decoded::Value(IpRecentlyConnectedPacket {  }, n),
            Decoded::NeedMoreData => Decoded::NeedMoreData,
            Decoded::Malformed => Decoded::Malformed,
        }
    }
}

impl WriteField for IpRecentlyConnectedPacket {
    open spec fn spec_write(m: Self::V) -> Seq<u8> {
        <() as WriteField>::spec_write(())
    }

    open spec fn wf_model(m: Self::V) -> bool {
        <() as WriteField>::wf_model(())
    }

    fn write(&self) -> (out: Vec<u8>) {
        let out: Vec<u8> = Vec::new();
        proof {
            assert(out@ =~= Self::spec_write(self@));
        }
        out
    }
}

impl WireField for IpRecentlyConnectedPacket {
    proof fn lemma_round_trip(m: Self::V, rest: Seq<u8>) {
        <() as WireField>::lemma_round_trip((), rest);
    }
}

impl PacketType for IpRecentlyConnectedPacket {
    open spec fn spec_name() -> Seq<char> {
        "IpRecentlyConnectedPacket"@
    }

    open spec fn spec_next_state(m: Self::V) -> Option<State> {
        None
    }

    fn name(&self) -> (r: &str) {
        "IpRecentlyConnectedPacket"
    }

    fn next_state(&self) -> (r: Option<State>) {
        None
    }
}

#[derive(Clone, Debug)]
pub struct UnconnectedPongPacket {
    pub ping_time: u64,
    pub guid: u64,
    pub magic: RakNetMagic,
    pub motd: ShortLengthPrefixedString,
}

impl UnconnectedPongPacket {
    pub fn new(ping_time: u64, guid: u64, magic: RakNetMagic, motd: ShortLengthPrefixedString) -> (r: Self)
        ensures
            r@ == (ping_time@, guid@, magic@, motd@),
    {
        UnconnectedPongPacket { ping_time, guid, magic, motd }
    }
}

impl View for UnconnectedPongPacket {
    type V = (u64, u64, Seq<u8>, Seq<char>);

    open spec fn view(&self) -> Self::V {
        (self.ping_time@, self.guid@, self.magic@, self.motd@)
    }
}

impl ReadField for UnconnectedPongPacket {
    open spec fn spec_read(b: Seq<u8>) -> Decoded<Self::V> {
        match <(u64, (u64, (RakNetMagic, ShortLengthPrefixedString))) as ReadField>::spec_read(b) {
            Decoded::Value((ping_time, (guid, (magic, motd))), n) => Decoded::Value((ping_time, guid, magic, motd), n),
            Decoded::NeedMoreData => Decoded::NeedMoreData,
            Decoded::Malformed => Decoded::Malformed,
        }
    }

    proof fn lemma_read_len(b: Seq<u8>) {
        <(u64, (u64, (RakNetMagic, ShortLengthPrefixedString))) as ReadField>::lemma_read_len(b);
    }

    fn read(bytes: &Vec<u8>, index: usize) -> (r: Decoded<Self>) {
        match <(u64, (u64, (RakNetMagic, ShortLengthPrefixedString))) as ReadField>::read(bytes, index) {
            Decoded::Value((ping_time, (guid, (magic, motd))), n) => Decoded::Value(
                UnconnectedPongPacket { ping_time, guid, magic, motd },
                n,
            ),
            Decoded::NeedMoreData => Decoded::NeedMoreData,
            Decoded::Malformed => Decoded::Malformed,
        }
    }
}

impl WriteField for UnconnectedPongPacket {
    open spec fn spec_write(m: Self::V) -> Seq<u8> {
        <(u64, (u64, (RakNetMagic, ShortLengthPrefixedString))) as WriteField>::spec_write((m.0, (m.1, (m.2, m.3))))
    }

    open spec fn wf_model(m: Self::V) -> bool {
        <(u64, (u64, (RakNetMagic, ShortLengthPrefixedString))) as WriteField>::wf_model((m.0, (m.1, (m.2, m.3))))
    }

    fn write(&self) -> (out: Vec<u8>) {
        let mut out = self.ping_time.write();
        let mut t = self.guid.write();
        out.append(&mut t);
        let mut t = self.magic.write();
        out.append(&mut t);
        let mut t = self.motd.write();
        out.append(&mut t);
        proof {
            assert(out@ =~= Self::spec_write(self@));
        }
        out
    }
}

impl WireField for UnconnectedPongPacket {
    proof fn lemma_round_trip(m: Self::V, rest: Seq<u8>) {
        <(u64, (u64, (RakNetMagic, ShortLengthPrefixedString))) as WireField>::lemma_round_trip((m.0, (m.1, (m.2, m.3))), rest);
    }
}

impl PacketType for UnconnectedPongPacket {
    open spec fn spec_name() -> Seq<char> {
        "UnconnectedPongPacket"@
    }

    open spec fn spec_next_state(m: Self::V) -> Option<State> {
        None
    }

    fn name(&self) -> (r: &str) {
        "UnconnectedPongPacket"
    }

    fn next_state(&self) -> (r: Option<State>) {
        None
    }
}

#[derive(Clone, Debug)]
pub struct NakPacket {
    pub ids: IntRangeList,
}

impl NakPacket {
    pub fn new(ids: IntRangeList) -> (r: Self)
        ensures
            r@ == ids@,
    {
        NakPacket { ids }
    }
}

impl View for NakPacket {
    type V = Seq<(u32, u32)>;

    open spec fn view(&self) -> Self::V {
        self.ids@
    }
}

impl ReadField for NakPacket {
    open spec fn spec_read(b: Seq<u8>) -> Decoded<Self::V> {
        match <IntRangeList as ReadField>::spec_read(b) {
            Decoded::Value(ids, n) => Decoded::Value(ids, n),
            Decoded::NeedMoreData => Decoded::NeedMoreData,
            Decoded::Malformed => Decoded::Malformed,
        }
    }

    proof fn lemma_read_len(b: Seq<u8>) {
        <IntRangeList as ReadField>::lemma_read_len(b);
    }

    fn read(bytes: &Vec<u8>, index: usize) -> (r: Decoded<Self>) {
        match <IntRangeList as ReadField>::read(bytes, index) {
            Decoded::Value(ids, n) => Decoded::Value(
                NakPacket { ids },
                n,
            ),
            Decoded::NeedMoreData => Decoded::NeedMoreData,
            Decoded::Malformed => Decoded::Malformed,
        }
    }
}

impl WriteField for NakPacket {
    open spec fn spec_write(m: Self::V) -> Seq<u8> {
        <IntRangeList as WriteField>::spec_write(m)
    }

    open spec fn wf_model(m: Self::V) -> bool {
        <IntRangeList as WriteField>::wf_model(m)
    }

    fn write(&self) -> (out: Vec<u8>) {
        let mut out = self.ids.write();
        proof {
            assert(out@ =~= Self::spec_write(self@));
        }
        out
    }
}

impl WireField for NakPacket {
    proof fn lemma_round_trip(m: Self::V, rest: Seq<u8>) {
        <IntRangeList as WireField>::lemma_round_trip(m, rest);
    }
}

impl PacketType for NakPacket {
    open spec fn spec_name() -> Seq<char> {
        "NakPacket"@
    }

    open spec fn spec_next_state(m: Self::V) -> Option<State> {
        None
    }

    fn name(&self) -> (r: &str) {
        "NakPacket"
    }

    fn next_state(&self) -> (r: Option<State>) {
        None
    }
}

#[derive(Clone, Debug)]
pub struct AckPacket {
    pub ids: IntRangeList,
}

impl AckPacket {
    pub fn new(ids: IntRangeList) -> (r: Self)
        ensures
            r@ == ids@,
    {
        AckPacket { ids }
    }
}

impl View for AckPacket {
    type V = Seq<(u32, u32)>;

    open spec fn view(&self) -> Self::V {
        self.ids@
    }
}

impl ReadField for AckPacket {
    open spec fn spec_read(b: Seq<u8>) -> Decoded<Self::V> {
        match <IntRangeList as ReadField>::spec_read(b) {
            Decoded::Value(ids, n) => Decoded::Value(ids, n),
            Decoded::NeedMoreData => Decoded::NeedMoreData,
            Decoded::Malformed => Decoded::Malformed,
        }
    }

    proof fn lemma_read_len(b: Seq<u8>) {
        <IntRangeList as ReadField>::lemma_read_len(b);
    }

    fn read(bytes: &Vec<u8>, index: usize) -> (r: Decoded<Self>) {
        match <IntRangeList as ReadField>::read(bytes, index) {
            Decoded::Value(ids, n) => Decoded::Value(
                AckPacket { ids },
                n,
            ),
            Decoded::NeedMoreData => Decoded::NeedMoreData,
            Decoded::Malformed => Decoded::Malformed,
        }
    }
}

impl WriteField for AckPacket {
    open spec fn spec_write(m: Self::V) -> Seq<u8> {
        <IntRangeList as WriteField>::spec_write(m)
    }

    open spec fn wf_model(m: Self::V) -> bool {
        <IntRangeList as WriteField>::wf_model(m)
    }

    fn write(&self) -> (out: Vec<u8>) {
        let mut out = self.ids.write();
        proof {
            assert(out@ =~= Self::spec_write(self@));
        }
        out
    }
}

impl WireField for AckPacket {
    proof fn lemma_round_trip(m: Self::V, rest: Seq<u8>) {
        <IntRangeList as WireField>::lemma_round_trip(m, rest);
    }
}

impl PacketType for AckPacket {
    open spec fn spec_name() -> Seq<char> {
        "AckPacket"@
    }

    open spec fn spec_next_state(m: Self::V) -> Option<State> {
        None
    }

    fn name(&self) -> (r: &str) {
        "AckPacket"
    }

    fn next_state(&self) -> (r: Option<State>) {
        None
    }
}

} // verus!
