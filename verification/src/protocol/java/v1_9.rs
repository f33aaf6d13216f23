// Packets for Minecraft Java Edition 1.9.4 (protocol version 110); the
// packets it does not redefine are shared with the 1.7 catalog.
use vstd::prelude::*;
use crate::packet::{Decoded, PacketType, ReadField, WireField, WriteField};
use crate::protocol::State;
use crate::types::{VarIntLengthPrefixedString};

verus! {

#[derive(Clone, Debug)]
pub struct JoinGamePacket {
    pub entity_id: i32,
    pub game_mode: u8,
    pub dimension: i32,
    pub difficulty: u8,
    pub max_players: u8,
    pub level_type: VarIntLengthPrefixedString,
    pub reduced_debug: u8,
}

impl JoinGamePacket {
    pub fn new(entity_id: i32, game_mode: u8, dimension: i32, difficulty: u8, max_players: u8, level_type: VarIntLengthPrefixedString, reduced_debug: u8) -> (r: Self)
        ensures
            r@ == (entity_id@, game_mode@, dimension@, difficulty@, max_players@, level_type@, reduced_debug@),
    {
        JoinGamePacket { entity_id, game_mode, dimension, difficulty, max_players, level_type, reduced_debug }
    }
}

impl View for JoinGamePacket {
    type V = (i32, u8, i32, u8, u8, Seq<char>, u8);

    open spec fn view(&self) -> Self::V {
        (self.entity_id@, self.game_mode@, self.dimension@, self.difficulty@, self.max_players@, self.level_type@, self.reduced_debug@)
    }
}

impl ReadField for JoinGamePacket {
    open spec fn spec_read(b: Seq<u8>) -> Decoded<Self::V> {
        match <(i32, (u8, (i32, (u8, (u8, (VarIntLengthPrefixedString, u8)))))) as ReadField>::spec_read(b) {
            Decoded::Value((entity_id, (game_mode, (dimension, (difficulty, (max_players, (level_type, reduced_debug)))))), n) => Decoded::Value((entity_id, game_mode, dimension, difficulty, max_players, level_type, reduced_debug), n),
            Decoded::NeedMoreData => Decoded::NeedMoreData,
            Decoded::Malformed => Decoded::Malformed,
        }
    }

    proof fn lemma_read_len(b: Seq<u8>) {
        <(i32, (u8, (i32, (u8, (u8, (VarIntLengthPrefixedString, u8)))))) as ReadField>::lemma_read_len(b);
    }

    fn read(bytes: &Vec<u8>, index: usize) -> (r: Decoded<Self>) {
        match <(i32, (u8, (i32, (u8, (u8, (VarIntLengthPrefixedString, u8)))))) as ReadField>::read(bytes, index) {
            Decoded::Value((entity_id, (game_mode, (dimension, (difficulty, (max_players, (level_type, reduced_debug)))))), n) => Decoded::Value(
                JoinGamePacket { entity_id, game_mode, dimension, difficulty, max_players, level_type, reduced_debug },
                n,
            ),
            Decoded::NeedMoreData => Decoded::NeedMoreData,
            Decoded::Malformed => Decoded::Malformed,
        }
    }
}

impl WriteField for JoinGamePacket {
    open spec fn spec_write(m: Self::V) -> Seq<u8> {
        <(i32, (u8, (i32, (u8, (u8, (VarIntLengthPrefixedString, u8)))))) as WriteField>::spec_write((m.0, (m.1, (m.2, (m.3, (m.4, (m.5, m.6)))))))
    }

    open spec fn wf_model(m: Self::V) -> bool {
        <(i32, (u8, (i32, (u8, (u8, (VarIntLengthPrefixedString, u8)))))) as WriteField>::wf_model((m.0, (m.1, (m.2, (m.3, (m.4, (m.5, m.6)))))))
    }

    fn write(&self) -> (out: Vec<u8>) {
        let mut out = self.entity_id.write();
        let mut t = self.game_mode.write();
        out.append(&mut t);
        let mut t = self.dimension.write();
        out.append(&mut t);
        let mut t = self.difficulty.write();
        out.append(&mut t);
        let mut t = self.max_players.write();
        out.append(&mut t);
        let mut t = self.level_type.write();
        out.append(&mut t);
        let mut t = self.reduced_debug.write();
        out.append(&mut t);
        proof {
            assert(out@ =~= Self::spec_write(self@));
        }
        out
    }
}

impl WireField for JoinGamePacket {
    proof fn lemma_round_trip(m: Self::V, rest: Seq<u8>) {
        <(i32, (u8, (i32, (u8, (u8, (VarIntLengthPrefixedString, u8)))))) as WireField>::lemma_round_trip((m.0, (m.1, (m.2, (m.3, (m.4, (m.5, m.6)))))), rest);
    }
}

impl PacketType for JoinGamePacket {
    open spec fn spec_name() -> Seq<char> {
        "JoinGamePacket"@
    }

    open spec fn spec_next_state(m: Self::V) -> Option<State> {
        None
    }

    fn name(&self) -> (r: &str) {
        "JoinGamePacket"
    }

    fn next_state(&self) -> (r: Option<State>) {
        None
    }
}

} // verus!
