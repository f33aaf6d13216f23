// Packets for Minecraft Java Edition 1.7.10 (protocol version 5).
use vstd::prelude::*;
use crate::packet::{Decoded, PacketType, ReadField, WireField, WriteField};
use crate::protocol::State;
use crate::types::{VarInt, VarIntLengthPrefixedByteArray, VarIntLengthPrefixedString};

verus! {

#[derive(Clone, Debug)]
pub struct HandshakePacket {
    pub protocol_version: VarInt,
    pub server_address: VarIntLengthPrefixedString,
    pub server_port: u16,
    pub next_state: VarInt,
}

impl HandshakePacket {
    pub fn new(protocol_version: VarInt, server_address: VarIntLengthPrefixedString, server_port: u16, next_state: VarInt) -> (r: Self)
        ensures
            r@ == (protocol_version@, server_address@, server_port@, next_state@),
    {
        HandshakePacket { protocol_version, server_address, server_port, next_state }
    }
}

impl View for HandshakePacket {
    type V = (i32, Seq<char>, u16, i32);

    open spec fn view(&self) -> Self::V {
        (self.protocol_version@, self.server_address@, self.server_port@, self.next_state@)
    }
}

impl ReadField for HandshakePacket {
    open spec fn spec_read(b: Seq<u8>) -> Decoded<Self::V> {
        match <(VarInt, (VarIntLengthPrefixedString, (u16, VarInt))) as ReadField>::spec_read(b) {
            Decoded::Value((protocol_version, (server_address, (server_port, next_state))), n) => Decoded::Value((protocol_version, server_address, server_port, next_state), n),
            Decoded::NeedMoreData => Decoded::NeedMoreData,
            Decoded::Malformed => Decoded::Malformed,
        }
    }

    proof fn lemma_read_len(b: Seq<u8>) {
        <(VarInt, (VarIntLengthPrefixedString, (u16, VarInt))) as ReadField>::lemma_read_len(b);
    }

    fn read(bytes: &Vec<u8>, index: usize) -> (r: Decoded<Self>) {
        match <(VarInt, (VarIntLengthPrefixedString, (u16, VarInt))) as ReadField>::read(bytes, index) {
            Decoded::Value((protocol_version, (server_address, (server_port, next_state))), n) => Decoded::Value(
                HandshakePacket { protocol_version, server_address, server_port, next_state },
                n,
            ),
            Decoded::NeedMoreData => Decoded::NeedMoreData,
            Decoded::Malformed => Decoded::Malformed,
        }
    }
}

impl WriteField for HandshakePacket {
    open spec fn spec_write(m: Self::V) -> Seq<u8> {
        <(VarInt, (VarIntLengthPrefixedString, (u16, VarInt))) as WriteField>::spec_write((m.0, (m.1, (m.2, m.3))))
    }

    open spec fn wf_model(m: Self::V) -> bool {
        <(VarInt, (VarIntLengthPrefixedString, (u16, VarInt))) as WriteField>::wf_model((m.0, (m.1, (m.2, m.3))))
    }

    fn write(&self) -> (out: Vec<u8>) {
        let mut out = self.protocol_version.write();
        let mut t = self.server_address.write();
        out.append(&mut t);
        let mut t = self.server_port.write();
        out.append(&mut t);
        let mut t = self.next_state.write();
        out.append(&mut t);
        proof {
            assert(out@ =~= Self::spec_write(self@));
        }
        out
    }
}

impl WireField for HandshakePacket {
    proof fn lemma_round_trip(m: Self::V, rest: Seq<u8>) {
        <(VarInt, (VarIntLengthPrefixedString, (u16, VarInt))) as WireField>::lemma_round_trip((m.0, (m.1, (m.2, m.3))), rest);
    }
}

impl PacketType for HandshakePacket {
    open spec fn spec_name() -> Seq<char> {
        "HandshakePacket"@
    }

    open spec fn spec_next_state(m: Self::V) -> Option<State> {
        if m.3 == 1 {
            Some(State::JavaStatus)
        } else if m.3 == 2 {
            Some(State::JavaLogin)
        } else {
            None
        }
    }

    fn name(&self) -> (r: &str) {
        "HandshakePacket"
    }

    fn next_state(&self) -> (r: Option<State>) {
        if self.next_state.0 == 1 {
            Some(State::JavaStatus)
        } else if self.next_state.0 == 2 {
            Some(State::JavaLogin)
        } else {
            None
        }
    }
}

#[derive(Clone, Debug)]
pub struct ResponsePacket {
    pub response: VarIntLengthPrefixedString,
}

impl ResponsePacket {
    pub fn new(response: VarIntLengthPrefixedString) -> (r: Self)
        ensures
            r@ == response@,
    {
        ResponsePacket { response }
    }
}

impl View for ResponsePacket {
    type V = Seq<char>;

    open spec fn view(&self) -> Self::V {
        self.response@
    }
}

impl ReadField for ResponsePacket {
    open spec fn spec_read(b: Seq<u8>) -> Decoded<Self::V> {
        match <VarIntLengthPrefixedString as ReadField>::spec_read(b) {
            Decoded::Value(response, n) => Decoded::Value(response, n),
            Decoded::NeedMoreData => Decoded::NeedMoreData,
            Decoded::Malformed => Decoded::Malformed,
        }
    }

    proof fn lemma_read_len(b: Seq<u8>) {
        <VarIntLengthPrefixedString as ReadField>::lemma_read_len(b);
    }

    fn read(bytes: &Vec<u8>, index: usize) -> (r: Decoded<Self>) {
        match <VarIntLengthPrefixedString as ReadField>::read(bytes, index) {
            Decoded::Value(response, n) => Decoded::Value(
                ResponsePacket { response },
                n,
            ),
            Decoded::NeedMoreData => Decoded::NeedMoreData,
            Decoded::Malformed => Decoded::Malformed,
        }
    }
}

impl WriteField for ResponsePacket {
    open spec fn spec_write(m: Self::V) -> Seq<u8> {
        <VarIntLengthPrefixedString as WriteField>::spec_write(m)
    }

    open spec fn wf_model(m: Self::V) -> bool {
        <VarIntLengthPrefixedString as WriteField>::wf_model(m)
    }

    fn write(&self) -> (out: Vec<u8>) {
        let mut out = self.response.write();
        proof {
            assert(out@ =~= Self::spec_write(self@));
        }
        out
    }
}

impl WireField for ResponsePacket {
    proof fn lemma_round_trip(m: Self::V, rest: Seq<u8>) {
        <VarIntLengthPrefixedString as WireField>::lemma_round_trip(m, rest);
    }
}

impl PacketType for ResponsePacket {
    open spec fn spec_name() -> Seq<char> {
        "ResponsePacket"@
    }

    open spec fn spec_next_state(m: Self::V) -> Option<State> {
        None
    }

    fn name(&self) -> (r: &str) {
        "ResponsePacket"
    }

    fn next_state(&self) -> (r: Option<State>) {
        None
    }
}

#[derive(Clone, Debug)]
pub struct PongPacket {
    pub payload: u64,
}

impl PongPacket {
    pub fn new(payload: u64) -> (r: Self)
        ensures
            r@ == payload@,
    {
        PongPacket { payload }
    }
}

impl View for PongPacket {
    type V = u64;

    open spec fn view(&self) -> Self::V {
        self.payload@
    }
}

impl ReadField for PongPacket {
    open spec fn spec_read(b: Seq<u8>) -> Decoded<Self::V> {
        match <u64 as ReadField>::spec_read(b) {
            Decoded::Value(payload, n) => Decoded::Value(payload, n),
            Decoded::NeedMoreData => Decoded::NeedMoreData,
            Decoded::Malformed => Decoded::Malformed,
        }
    }

    proof fn lemma_read_len(b: Seq<u8>) {
        <u64 as ReadField>::lemma_read_len(b);
    }

    fn read(bytes: &Vec<u8>, index: usize) -> (r: Decoded<Self>) {
        match <u64 as ReadField>::read(bytes, index) {
            Decoded::Value(payload, n) => Decoded::Value(
                PongPacket { payload },
                n,
            ),
            Decoded::NeedMoreData => Decoded::NeedMoreData,
            Decoded::Malformed => Decoded::Malformed,
        }
    }
}

impl WriteField for PongPacket {
    open spec fn spec_write(m: Self::V) -> Seq<u8> {
        <u64 as WriteField>::spec_write(m)
    }

    open spec fn wf_model(m: Self::V) -> bool {
        <u64 as WriteField>::wf_model(m)
    }

    fn write(&self) -> (out: Vec<u8>) {
        let mut out = self.payload.write();
        proof {
            assert(out@ =~= Self::spec_write(self@));
        }
        out
    }
}

impl WireField for PongPacket {
    proof fn lemma_round_trip(m: Self::V, rest: Seq<u8>) {
        <u64 as WireField>::lemma_round_trip(m, rest);
    }
}

impl PacketType for PongPacket {
    open spec fn spec_name() -> Seq<char> {
        "PongPacket"@
    }

    open spec fn spec_next_state(m: Self::V) -> Option<State> {
        None
    }

    fn name(&self) -> (r: &str) {
        "PongPacket"
    }

    fn next_state(&self) -> (r: Option<State>) {
        None
    }
}

#[derive(Clone, Debug)]
pub struct RequestPacket {
}

impl RequestPacket {
    pub fn new() -> (r: Self)
        ensures
            r@ == (),
    {
        RequestPacket {  }
    }
}

impl View for RequestPacket {
    type V = ();

    open spec fn view(&self) -> Self::V {
        ()
    }
}

impl ReadField for RequestPacket {
    open spec fn spec_read(b: Seq<u8>) -> Decoded<Self::V> {
        match <() as ReadField>::spec_read(b) {
            Decoded::Value(_, n) => Decoded::Value((), n),
            Decoded::NeedMoreData => Decoded::NeedMoreData,
            Decoded::Malformed => Decoded::Malformed,
        }
    }

    proof fn lemma_read_len(b: Seq<u8>) {
        <() as ReadField>::lemma_read_len(b);
    }

    fn read(bytes: &Vec<u8>, index: usize) -> (r: Decoded<Self>) {
        match <() as ReadField>::read(bytes, index) {
            Decoded::Value(_, n) => Decoded::Value(RequestPacket {  }, n),
            Decoded::NeedMoreData => Decoded::NeedMoreData,
            Decoded::Malformed => Decoded::Malformed,
        }
    }
}

impl WriteField for RequestPacket {
    open spec fn spec_write(m: Self::V) -> Seq<u8> {
        <() as WriteField>::spec_write(())
    }

    open spec fn wf_model(m: Self::V) -> bool {
        <() as WriteField>::wf_model(())
    }

    fn write(&self) -> (out: Vec<u8>) {
        let out: Vec<u8> = Vec::new();
        proof {
            assert(out@ =~= Self::spec_write(self@));
        }
        out
    }
}

impl WireField for RequestPacket {
    proof fn lemma_round_trip(m: Self::V, rest: Seq<u8>) {
        <() as WireField>::lemma_round_trip((), rest);
    }
}

impl PacketType for RequestPacket {
    open spec fn spec_name() -> Seq<char> {
        "RequestPacket"@
    }

    open spec fn spec_next_state(m: Self::V) -> Option<State> {
        None
    }

    fn name(&self) -> (r: &str) {
        "RequestPacket"
    }

    fn next_state(&self) -> (r: Option<State>) {
        None
    }
}

#[derive(Clone, Debug)]
pub struct PingPacket {
    pub payload: u64,
}

impl PingPacket {
    pub fn new(payload: u64) -> (r: Self)
        ensures
            r@ == payload@,
    {
        PingPacket { payload }
    }
}

impl View for PingPacket {
    type V = u64;

    open spec fn view(&self) -> Self::V {
        self.payload@
    }
}

impl ReadField for PingPacket {
    open spec fn spec_read(b: Seq<u8>) -> Decoded<Self::V> {
        match <u64 as ReadField>::spec_read(b) {
            Decoded::Value(payload, n) => Decoded::Value(payload, n),
            Decoded::NeedMoreData => Decoded::NeedMoreData,
            Decoded::Malformed => Decoded::Malformed,
        }
    }

    proof fn lemma_read_len(b: Seq<u8>) {
        <u64 as ReadField>::lemma_read_len(b);
    }

    fn read(bytes: &Vec<u8>, index: usize) -> (r: Decoded<Self>) {
        match <u64 as ReadField>::read(bytes, index) {
            Decoded::Value(payload, n) => Decoded::Value(
                PingPacket { payload },
                n,
            ),
            Decoded::NeedMoreData => Decoded::NeedMoreData,
            Decoded::Malformed => Decoded::Malformed,
        }
    }
}

impl WriteField for PingPacket {
    open spec fn spec_write(m: Self::V) -> Seq<u8> {
        <u64 as WriteField>::spec_write(m)
    }

    open spec fn wf_model(m: Self::V) -> bool {
        <u64 as WriteField>::wf_model(m)
    }

    fn write(&self) -> (out: Vec<u8>) {
        let mut out = self.payload.write();
        proof {
            assert(out@ =~= Self::spec_write(self@));
        }
        out
    }
}

impl WireField for PingPacket {
    proof fn lemma_round_trip(m: Self::V, rest: Seq<u8>) {
        <u64 as WireField>::lemma_round_trip(m, rest);
    }
}

impl PacketType for PingPacket {
    open spec fn spec_name() -> Seq<char> {
        "PingPacket"@
    }

    open spec fn spec_next_state(m: Self::V) -> Option<State> {
        None
    }

    fn name(&self) -> (r: &str) {
        "PingPacket"
    }

    fn next_state(&self) -> (r: Option<State>) {
        None
    }
}

#[derive(Clone, Debug)]
pub struct DisconnectPacket {
    pub reason: VarIntLengthPrefixedString,
}

impl DisconnectPacket {
    pub fn new(reason: VarIntLengthPrefixedString) -> (r: Self)
        ensures
            r@ == reason@,
    {
        DisconnectPacket { reason }
    }
}

impl View for DisconnectPacket {
    type V = Seq<char>;

    open spec fn view(&self) -> Self::V {
        self.reason@
    }
}

impl ReadField for DisconnectPacket {
    open spec fn spec_read(b: Seq<u8>) -> Decoded<Self::V> {
        match <VarIntLengthPrefixedString as ReadField>::spec_read(b) {
            Decoded::Value(reason, n) => Decoded::Value(reason, n),
            Decoded::NeedMoreData => Decoded::NeedMoreData,
            Decoded::Malformed => Decoded::Malformed,
        }
    }

    proof fn lemma_read_len(b: Seq<u8>) {
        <VarIntLengthPrefixedString as ReadField>::lemma_read_len(b);
    }

    fn read(bytes: &Vec<u8>, index: usize) -> (r: Decoded<Self>) {
        match <VarIntLengthPrefixedString as ReadField>::read(bytes, index) {
            Decoded::Value(reason, n) => Decoded::Value(
                DisconnectPacket { reason },
                n,
            ),
            Decoded::NeedMoreData => Decoded::NeedMoreData,
            Decoded::Malformed => Decoded::Malformed,
        }
    }
}

impl WriteField for DisconnectPacket {
    open spec fn spec_write(m: Self::V) -> Seq<u8> {
        <VarIntLengthPrefixedString as WriteField>::spec_write(m)
    }

    open spec fn wf_model(m: Self::V) -> bool {
        <VarIntLengthPrefixedString as WriteField>::wf_model(m)
    }

    fn write(&self) -> (out: Vec<u8>) {
        let mut out = self.reason.write();
        proof {
            assert(out@ =~= Self::spec_write(self@));
        }
        out
    }
}

impl WireField for DisconnectPacket {
    proof fn lemma_round_trip(m: Self::V, rest: Seq<u8>) {
        <VarIntLengthPrefixedString as WireField>::lemma_round_trip(m, rest);
    }
}

impl PacketType for DisconnectPacket {
    open spec fn spec_name() -> Seq<char> {
        "DisconnectPacket"@
    }

    open spec fn spec_next_state(m: Self::V) -> Option<State> {
        None
    }

    fn name(&self) -> (r: &str) {
        "DisconnectPacket"
    }

    fn next_state(&self) -> (r: Option<State>) {
        None
    }
}

#[derive(Clone, Debug)]
pub struct EncryptionRequestPacket {
    pub server_id: VarIntLengthPrefixedString,
    pub public_key: VarIntLengthPrefixedByteArray,
    pub verify_token: VarIntLengthPrefixedByteArray,
}

impl EncryptionRequestPacket {
    pub fn new(server_id: VarIntLengthPrefixedString, public_key: VarIntLengthPrefixedByteArray, verify_token: VarIntLengthPrefixedByteArray) -> (r: Self)
        ensures
            r@ == (server_id@, public_key@, verify_token@),
    {
        EncryptionRequestPacket { server_id, public_key, verify_token }
    }
}

impl View for EncryptionRequestPacket {
    type V = (Seq<char>, Seq<u8>, Seq<u8>);

    open spec fn view(&self) -> Self::V {
        (self.server_id@, self.public_key@, self.verify_token@)
    }
}

impl ReadField for EncryptionRequestPacket {
    open spec fn spec_read(b: Seq<u8>) -> Decoded<Self::V> {
        match <(VarIntLengthPrefixedString, (VarIntLengthPrefixedByteArray, VarIntLengthPrefixedByteArray)) as ReadField>::spec_read(b) {
            Decoded::Value((server_id, (public_key, verify_token)), n) => Decoded::Value((server_id, public_key, verify_token), n),
            Decoded::NeedMoreData => Decoded::NeedMoreData,
            Decoded::Malformed => Decoded::Malformed,
        }
    }

    proof fn lemma_read_len(b: Seq<u8>) {
        <(VarIntLengthPrefixedString, (VarIntLengthPrefixedByteArray, VarIntLengthPrefixedByteArray)) as ReadField>::lemma_read_len(b);
    }

    fn read(bytes: &Vec<u8>, index: usize) -> (r: Decoded<Self>) {
        match <(VarIntLengthPrefixedString, (VarIntLengthPrefixedByteArray, VarIntLengthPrefixedByteArray)) as ReadField>::read(bytes, index) {
            Decoded::Value((server_id, (public_key, verify_token)), n) => Decoded::Value(
                EncryptionRequestPacket { server_id, public_key, verify_token },
                n,
            ),
            Decoded::NeedMoreData => Decoded::NeedMoreData,
            Decoded::Malformed => Decoded::Malformed,
        }
    }
}

impl WriteField for EncryptionRequestPacket {
    open spec fn spec_write(m: Self::V) -> Seq<u8> {
        <(VarIntLengthPrefixedString, (VarIntLengthPrefixedByteArray, VarIntLengthPrefixedByteArray)) as WriteField>::spec_write((m.0, (m.1, m.2)))
    }

    open spec fn wf_model(m: Self::V) -> bool {
        <(VarIntLengthPrefixedString, (VarIntLengthPrefixedByteArray, VarIntLengthPrefixedByteArray)) as WriteField>::wf_model((m.0, (m.1, m.2)))
    }

    fn write(&self) -> (out: Vec<u8>) {
        let mut out = self.server_id.write();
        let mut t = self.public_key.write();
        out.append(&mut t);
        let mut t = self.verify_token.write();
        out.append(&mut t);
        proof {
            assert(out@ =~= Self::spec_write(self@));
        }
        out
    }
}

impl WireField for EncryptionRequestPacket {
    proof fn lemma_round_trip(m: Self::V, rest: Seq<u8>) {
        <(VarIntLengthPrefixedString, (VarIntLengthPrefixedByteArray, VarIntLengthPrefixedByteArray)) as WireField>::lemma_round_trip((m.0, (m.1, m.2)), rest);
    }
}

impl PacketType for EncryptionRequestPacket {
    open spec fn spec_name() -> Seq<char> {
        "EncryptionRequestPacket"@
    }

    open spec fn spec_next_state(m: Self::V) -> Option<State> {
        None
    }

    fn name(&self) -> (r: &str) {
        "EncryptionRequestPacket"
    }

    fn next_state(&self) -> (r: Option<State>) {
        None
    }
}

#[derive(Clone, Debug)]
pub struct LoginSuccessPacket {
    pub uuid: VarIntLengthPrefixedString,
    pub username: VarIntLengthPrefixedString,
}

impl LoginSuccessPacket {
    pub fn new(uuid: VarIntLengthPrefixedString, username: VarIntLengthPrefixedString) -> (r: Self)
        ensures
            r@ == (uuid@, username@),
    {
        LoginSuccessPacket { uuid, username }
    }
}

impl View for LoginSuccessPacket {
    type V = (Seq<char>, Seq<char>);

    open spec fn view(&self) -> Self::V {
        (self.uuid@, self.username@)
    }
}

impl ReadField for LoginSuccessPacket {
    open spec fn spec_read(b: Seq<u8>) -> Decoded<Self::V> {
        match <(VarIntLengthPrefixedString, VarIntLengthPrefixedString) as ReadField>::spec_read(b) {
            Decoded::Value((uuid, username), n) => Decoded::Value((uuid, username), n),
            Decoded::NeedMoreData => Decoded::NeedMoreData,
            Decoded::Malformed => Decoded::Malformed,
        }
    }

    proof fn lemma_read_len(b: Seq<u8>) {
        <(VarIntLengthPrefixedString, VarIntLengthPrefixedString) as ReadField>::lemma_read_len(b);
    }

    fn read(bytes: &Vec<u8>, index: usize) -> (r: Decoded<Self>) {
        match <(VarIntLengthPrefixedString, VarIntLengthPrefixedString) as ReadField>::read(bytes, index) {
            Decoded::Value((uuid, username), n) => Decoded::Value(
                LoginSuccessPacket { uuid, username },
                n,
            ),
            Decoded::NeedMoreData => Decoded::NeedMoreData,
            Decoded::Malformed => Decoded::Malformed,
        }
    }
}

impl WriteField for LoginSuccessPacket {
    open spec fn spec_write(m: Self::V) -> Seq<u8> {
        <(VarIntLengthPrefixedString, VarIntLengthPrefixedString) as WriteField>::spec_write((m.0, m.1))
    }

    open spec fn wf_model(m: Self::V) -> bool {
        <(VarIntLengthPrefixedString, VarIntLengthPrefixedString) as WriteField>::wf_model((m.0, m.1))
    }

    fn write(&self) -> (out: Vec<u8>) {
        let mut out = self.uuid.write();
        let mut t = self.username.write();
        out.append(&mut t);
        proof {
            assert(out@ =~= Self::spec_write(self@));
        }
        out
    }
}

impl WireField for LoginSuccessPacket {
    proof fn lemma_round_trip(m: Self::V, rest: Seq<u8>) {
        <(VarIntLengthPrefixedString, VarIntLengthPrefixedString) as WireField>::lemma_round_trip((m.0, m.1), rest);
    }
}

impl PacketType for LoginSuccessPacket {
    open spec fn spec_name() -> Seq<char> {
        "LoginSuccessPacket"@
    }

    open spec fn spec_next_state(m: Self::V) -> Option<State> {
        None
    }

    fn name(&self) -> (r: &str) {
        "LoginSuccessPacket"
    }

    fn next_state(&self) -> (r: Option<State>) {
        None
    }
}

#[derive(Clone, Debug)]
pub struct SetCompressionPacket {
    pub threshold: VarInt,
}

impl SetCompressionPacket {
    pub fn new(threshold: VarInt) -> (r: Self)
        ensures
            r@ == threshold@,
    {
        SetCompressionPacket { threshold }
    }
}

impl View for SetCompressionPacket {
    type V = i32;

    open spec fn view(&self) -> Self::V {
        self.threshold@
    }
}

impl ReadField for SetCompressionPacket {
    open spec fn spec_read(b: Seq<u8>) -> Decoded<Self::V> {
        match <VarInt as ReadField>::spec_read(b) {
            Decoded::Value(threshold, n) => Decoded::Value(threshold, n),
            Decoded::NeedMoreData => Decoded::NeedMoreData,
            Decoded::Malformed => Decoded::Malformed,
        }
    }

    proof fn lemma_read_len(b: Seq<u8>) {
        <VarInt as ReadField>::lemma_read_len(b);
    }

    fn read(bytes: &Vec<u8>, index: usize) -> (r: Decoded<Self>) {
        match <VarInt as ReadField>::read(bytes, index) {
            Decoded::Value(threshold, n) => Decoded::Value(
                SetCompressionPacket { threshold },
                n,
            ),
            Decoded::NeedMoreData => Decoded::NeedMoreData,
            Decoded::Malformed => Decoded::Malformed,
        }
    }
}

impl WriteField for SetCompressionPacket {
    open spec fn spec_write(m: Self::V) -> Seq<u8> {
        <VarInt as WriteField>::spec_write(m)
    }

    open spec fn wf_model(m: Self::V) -> bool {
        <VarInt as WriteField>::wf_model(m)
    }

    fn write(&self) -> (out: Vec<u8>) {
        let mut out = self.threshold.write();
        proof {
            assert(out@ =~= Self::spec_write(self@));
        }
        out
    }
}

impl WireField for SetCompressionPacket {
    proof fn lemma_round_trip(m: Self::V, rest: Seq<u8>) {
        <VarInt as WireField>::lemma_round_trip(m, rest);
    }
}

impl PacketType for SetCompressionPacket {
    open spec fn spec_name() -> Seq<char> {
        "SetCompressionPacket"@
    }

    open spec fn spec_next_state(m: Self::V) -> Option<State> {
        None
    }

    fn name(&self) -> (r: &str) {
        "SetCompressionPacket"
    }

    fn next_state(&self) -> (r: Option<State>) {
        None
    }
}

#[derive(Clone, Debug)]
pub struct LoginStartPacket {
    pub name: VarIntLengthPrefixedString,
}

impl LoginStartPacket {
    pub fn new(name: VarIntLengthPrefixedString) -> (r: Self)
        ensures
            r@ == name@,
    {
        LoginStartPacket { name }
    }
}

impl View for LoginStartPacket {
    type V = Seq<char>;

    open spec fn view(&self) -> Self::V {
        self.name@
    }
}

impl ReadField for LoginStartPacket {
    open spec fn spec_read(b: Seq<u8>) -> Decoded<Self::V> {
        match <VarIntLengthPrefixedString as ReadField>::spec_read(b) {
            Decoded::Value(name, n) => Decoded::Value(name, n),
            Decoded::NeedMoreData => Decoded::NeedMoreData,
            Decoded::Malformed => Decoded::Malformed,
        }
    }

    proof fn lemma_read_len(b: Seq<u8>) {
        <VarIntLengthPrefixedString as ReadField>::lemma_read_len(b);
    }

    fn read(bytes: &Vec<u8>, index: usize) -> (r: Decoded<Self>) {
        match <VarIntLengthPrefixedString as ReadField>::read(bytes, index) {
            Decoded::Value(name, n) => Decoded::Value(
                LoginStartPacket { name },
                n,
            ),
            Decoded::NeedMoreData => Decoded::NeedMoreData,
            Decoded::Malformed => Decoded::Malformed,
        }
    }
}

impl WriteField for LoginStartPacket {
    open spec fn spec_write(m: Self::V) -> Seq<u8> {
        <VarIntLengthPrefixedString as WriteField>::spec_write(m)
    }

    open spec fn wf_model(m: Self::V) -> bool {
        <VarIntLengthPrefixedString as WriteField>::wf_model(m)
    }

    fn write(&self) -> (out: Vec<u8>) {
        let mut out = self.name.write();
        proof {
            assert(out@ =~= Self::spec_write(self@));
        }
        out
    }
}

impl WireField for LoginStartPacket {
    proof fn lemma_round_trip(m: Self::V, rest: Seq<u8>) {
        <VarIntLengthPrefixedString as WireField>::lemma_round_trip(m, rest);
    }
}

impl PacketType for LoginStartPacket {
    open spec fn spec_name() -> Seq<char> {
        "LoginStartPacket"@
    }

    open spec fn spec_next_state(m: Self::V) -> Option<State> {
        None
    }

    fn name(&self) -> (r: &str) {
        "LoginStartPacket"
    }

    fn next_state(&self) -> (r: Option<State>) {
        None
    }
}

#[derive(Clone, Debug)]
pub struct EncryptionResponsePacket {
    pub shared_secret: VarIntLengthPrefixedByteArray,
    pub verify_token: VarIntLengthPrefixedByteArray,
}

impl EncryptionResponsePacket {
    pub fn new(shared_secret: VarIntLengthPrefixedByteArray, verify_token: VarIntLengthPrefixedByteArray) -> (r: Self)
        ensures
            r@ == (shared_secret@, verify_token@),
    {
        EncryptionResponsePacket { shared_secret, verify_token }
    }
}

impl View for EncryptionResponsePacket {
    type V = (Seq<u8>, Seq<u8>);

    open spec fn view(&self) -> Self::V {
        (self.shared_secret@, self.verify_token@)
    }
}

impl ReadField for EncryptionResponsePacket {
    open spec fn spec_read(b: Seq<u8>) -> Decoded<Self::V> {
        match <(VarIntLengthPrefixedByteArray, VarIntLengthPrefixedByteArray) as ReadField>::spec_read(b) {
            Decoded::Value((shared_secret, verify_token), n) => Decoded::Value((shared_secret, verify_token), n),
            Decoded::NeedMoreData => Decoded::NeedMoreData,
            Decoded::Malformed => Decoded::Malformed,
        }
    }

    proof fn lemma_read_len(b: Seq<u8>) {
        <(VarIntLengthPrefixedByteArray, VarIntLengthPrefixedByteArray) as ReadField>::lemma_read_len(b);
    }

    fn read(bytes: &Vec<u8>, index: usize) -> (r: Decoded<Self>) {
        match <(VarIntLengthPrefixedByteArray, VarIntLengthPrefixedByteArray) as ReadField>::read(bytes, index) {
            Decoded::Value((shared_secret, verify_token), n) => Decoded::Value(
                EncryptionResponsePacket { shared_secret, verify_token },
                n,
            ),
            Decoded::NeedMoreData => Decoded::NeedMoreData,
            Decoded::Malformed => Decoded::Malformed,
        }
    }
}

impl WriteField for EncryptionResponsePacket {
    open spec fn spec_write(m: Self::V) -> Seq<u8> {
        <(VarIntLengthPrefixedByteArray, VarIntLengthPrefixedByteArray) as WriteField>::spec_write((m.0, m.1))
    }

    open spec fn wf_model(m: Self::V) -> bool {
        <(VarIntLengthPrefixedByteArray, VarIntLengthPrefixedByteArray) as WriteField>::wf_model((m.0, m.1))
    }

    fn write(&self) -> (out: Vec<u8>) {
        let mut out = self.shared_secret.write();
        let mut t = self.verify_token.write();
        out.append(&mut t);
        proof {
            assert(out@ =~= Self::spec_write(self@));
        }
        out
    }
}

impl WireField for EncryptionResponsePacket {
    proof fn lemma_round_trip(m: Self::V, rest: Seq<u8>) {
        <(VarIntLengthPrefixedByteArray, VarIntLengthPrefixedByteArray) as WireField>::lemma_round_trip((m.0, m.1), rest);
    }
}

impl PacketType for EncryptionResponsePacket {
    open spec fn spec_name() -> Seq<char> {
        "EncryptionResponsePacket"@
    }

    open spec fn spec_next_state(m: Self::V) -> Option<State> {
        None
    }

    fn name(&self) -> (r: &str) {
        "EncryptionResponsePacket"
    }

    fn next_state(&self) -> (r: Option<State>) {
        None
    }
}

#[derive(Clone, Debug)]
pub struct KeepAlivePacket {
    pub id: i32,
}

impl KeepAlivePacket {
    pub fn new(id: i32) -> (r: Self)
        ensures
            r@ == id@,
    {
        KeepAlivePacket { id }
    }
}

impl View for KeepAlivePacket {
    type V = i32;

    open spec fn view(&self) -> Self::V {
        self.id@
    }
}

impl ReadField for KeepAlivePacket {
    open spec fn spec_read(b: Seq<u8>) -> Decoded<Self::V> {
        match <i32 as ReadField>::spec_read(b) {
            Decoded::Value(id, n) => Decoded::Value(id, n),
            Decoded::NeedMoreData => Decoded::NeedMoreData,
            Decoded::Malformed => Decoded::Malformed,
        }
    }

    proof fn lemma_read_len(b: Seq<u8>) {
        <i32 as ReadField>::lemma_read_len(b);
    }

    fn read(bytes: &Vec<u8>, index: usize) -> (r: Decoded<Self>) {
        match <i32 as ReadField>::read(bytes, index) {
            Decoded::Value(id, n) => Decoded::Value(
                KeepAlivePacket { id },
                n,
            ),
            Decoded::NeedMoreData => Decoded::NeedMoreData,
            Decoded::Malformed => Decoded::Malformed,
        }
    }
}

impl WriteField for KeepAlivePacket {
    open spec fn spec_write(m: Self::V) -> Seq<u8> {
        <i32 as WriteField>::spec_write(m)
    }

    open spec fn wf_model(m: Self::V) -> bool {
        <i32 as WriteField>::wf_model(m)
    }

    fn write(&self) -> (out: Vec<u8>) {
        let mut out = self.id.write();
        proof {
            assert(out@ =~= Self::spec_write(self@));
        }
        out
    }
}

impl WireField for KeepAlivePacket {
    proof fn lemma_round_trip(m: Self::V, rest: Seq<u8>) {
        <i32 as WireField>::lemma_round_trip(m, rest);
    }
}

impl PacketType for KeepAlivePacket {
    open spec fn spec_name() -> Seq<char> {
        "KeepAlivePacket"@
    }

    open spec fn spec_next_state(m: Self::V) -> Option<State> {
        None
    }

    fn name(&self) -> (r: &str) {
        "KeepAlivePacket"
    }

    fn next_state(&self) -> (r: Option<State>) {
        None
    }
}

#[derive(Clone, Debug)]
pub struct JoinGamePacket {
    pub entity_id: i32,
    pub game_mode: u8,
    pub dimension: u8,
    pub difficulty: u8,
    pub max_players: u8,
    pub level_type: VarIntLengthPrefixedString,
}

impl JoinGamePacket {
    pub fn new(entity_id: i32, game_mode: u8, dimension: u8, difficulty: u8, max_players: u8, level_type: VarIntLengthPrefixedString) -> (r: Self)
        ensures
            r@ == (entity_id@, game_mode@, dimension@, difficulty@, max_players@, level_type@),
    {
        JoinGamePacket { entity_id, game_mode, dimension, difficulty, max_players, level_type }
    }
}

impl View for JoinGamePacket {
    type V = (i32, u8, u8, u8, u8, Seq<char>);

    open spec fn view(&self) -> Self::V {
        (self.entity_id@, self.game_mode@, self.dimension@, self.difficulty@, self.max_players@, self.level_type@)
    }
}

impl ReadField for JoinGamePacket {
    open spec fn spec_read(b: Seq<u8>) -> Decoded<Self::V> {
        match <(i32, (u8, (u8, (u8, (u8, VarIntLengthPrefixedString))))) as ReadField>::spec_read(b) {
            Decoded::Value((entity_id, (game_mode, (dimension, (difficulty, (max_players, level_type))))), n) => Decoded::Value((entity_id, game_mode, dimension, difficulty, max_players, level_type), n),
            Decoded::NeedMoreData => Decoded::NeedMoreData,
            Decoded::Malformed => Decoded::Malformed,
        }
    }

    proof fn lemma_read_len(b: Seq<u8>) {
        <(i32, (u8, (u8, (u8, (u8, VarIntLengthPrefixedString))))) as ReadField>::lemma_read_len(b);
    }

    fn read(bytes: &Vec<u8>, index: usize) -> (r: Decoded<Self>) {
        match <(i32, (u8, (u8, (u8, (u8, VarIntLengthPrefixedString))))) as ReadField>::read(bytes, index) {
            Decoded::Value((entity_id, (game_mode, (dimension, (difficulty, (max_players, level_type))))), n) => Decoded::Value(
                JoinGamePacket { entity_id, game_mode, dimension, difficulty, max_players, level_type },
                n,
            ),
            Decoded::NeedMoreData => Decoded::NeedMoreData,
            Decoded::Malformed => Decoded::Malformed,
        }
    }
}

impl WriteField for JoinGamePacket {
    open spec fn spec_write(m: Self::V) -> Seq<u8> {
        <(i32, (u8, (u8, (u8, (u8, VarIntLengthPrefixedString))))) as WriteField>::spec_write((m.0, (m.1, (m.2, (m.3, (m.4, m.5))))))
    }

    open spec fn wf_model(m: Self::V) -> bool {
        <(i32, (u8, (u8, (u8, (u8, VarIntLengthPrefixedString))))) as WriteField>::wf_model((m.0, (m.1, (m.2, (m.3, (m.4, m.5))))))
    }

    fn write(&self) -> (out: Vec<u8>) {
        let mut out = self.entity_id.write();
        let mut t = self.game_mode.write();
        out.append(&mut t);
        let mut t = self.dimension.write();
        out.append(&mut t);
        let mut t = self.difficulty.write();
        out.append(&mut t);
        let mut t = self.max_players.write();
        out.append(&mut t);
        let mut t = self.level_type.write();
        out.append(&mut t);
        proof {
            assert(out@ =~= Self::spec_write(self@));
        }
        out
    }
}

impl WireField for JoinGamePacket {
    proof fn lemma_round_trip(m: Self::V, rest: Seq<u8>) {
        <(i32, (u8, (u8, (u8, (u8, VarIntLengthPrefixedString))))) as WireField>::lemma_round_trip((m.0, (m.1, (m.2, (m.3, (m.4, m.5))))), rest);
    }
}

impl PacketType for JoinGamePacket {
    open spec fn spec_name() -> Seq<char> {
        "JoinGamePacket"@
    }

    open spec fn spec_next_state(m: Self::V) -> Option<State> {
        None
    }

    fn name(&self) -> (r: &str) {
        "JoinGamePacket"
    }

    fn next_state(&self) -> (r: Option<State>) {
        None
    }
}

} // verus!
