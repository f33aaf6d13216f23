use vstd::prelude::*;
use crate::packet::{Decoded, ReadField, WireField};
use crate::protocol::{Bound, State};
use crate::protocol::registry::{spec_proto_read, Packet, PacketModel, Protocol, ProtocolType};
use crate::types::{be_read, be_val, lemma_be_val_bound, lemma_varint_dec_rec_len, varint_dec,
    varint_dec_rec, VarInt};
use vstd::slice::{slice_subrange, slice_to_vec};

verus! {

/// How a peer is connected: a byte stream or datagrams.
#[derive(Clone, Copy, Debug, PartialEq, Eq, Structural)]
pub enum Transport {
    Stream,
    Datagram,
}

/// At most this many split datagrams may be under reassembly per
/// connection; a fragment of a further one is discarded.
pub const MAX_PENDING_SPLITS: usize = 4;

/// At most this many fragments per split datagram; a split announcing more
/// is treated as malformed.
pub const MAX_SPLIT_PARTS: u32 = 32;

/// One split datagram under reassembly: its split id and one slot per
/// announced fragment.
#[verifier::ext_equal]
pub struct SplitEntryModel {
    pub split_id: u16,
    pub parts: Seq<Option<Seq<u8>>>,
}

/// One split datagram under reassembly, as stored.
pub struct SplitEntry {
    pub split_id: u16,
    pub parts: Vec<Option<Vec<u8>>>,
}

/// The model of one fragment slot.
pub open spec fn opt_bytes_model(p: Option<Vec<u8>>) -> Option<Seq<u8>> {
    match p {
        Some(v) => Some(v@),
        None => None,
    }
}

/// The model of a fragment-slot vector.
pub open spec fn parts_model(v: Seq<Option<Vec<u8>>>) -> Seq<Option<Seq<u8>>> {
    v.map_values(|p: Option<Vec<u8>>| opt_bytes_model(p))
}

impl View for SplitEntry {
    type V = SplitEntryModel;

    open spec fn view(&self) -> SplitEntryModel {
        SplitEntryModel { split_id: self.split_id, parts: parts_model(self.parts@) }
    }
}

/// The mathematical state of a connection: transport, protocol state, bound
/// protocol version, buffered unparsed bytes, the outbound datagram
/// sequence counter, and the split datagrams under reassembly.
#[verifier::ext_equal]
pub struct ConnModel {
    pub transport: Transport,
    pub state: State,
    pub protocol: Protocol,
    pub buf: Seq<u8>,
    pub seq_id: u64,
    pub splits: Seq<SplitEntryModel>,
}

/// A connection with a client.
/// `unprocessed_buffer` holds exactly the bytes received from the peer that
/// no successful packet parse has consumed yet.
pub struct Connection {
    pub transport: Transport,
    pub protocol_state: State,
    pub protocol: Protocol,
    unprocessed_buffer: Vec<u8>,
    datagram_sequence_id: u64,
    split_assembly: Vec<SplitEntry>,
}

pub open spec fn store_model(v: Seq<SplitEntry>) -> Seq<SplitEntryModel> {
    v.map_values(|e: SplitEntry| e@)
}

impl View for Connection {
    type V = ConnModel;

    closed spec fn view(&self) -> ConnModel {
        ConnModel {
            transport: self.transport,
            state: self.protocol_state,
            protocol: self.protocol,
            buf: self.unprocessed_buffer@,
            seq_id: self.datagram_sequence_id,
            splits: store_model(self.split_assembly@),
        }
    }
}

// ---------------------------------------------------------------------------
// Split-datagram reassembly: fragments are collected per split id, and the
// combined bytes are emitted once every announced index has arrived. The
// buffer is bounded by MAX_PENDING_SPLITS entries of MAX_SPLIT_PARTS
// fragments each; there is no timeout, so an abandoned split lingers until
// its slot is reclaimed by completion.
// ---------------------------------------------------------------------------

/// The position of a split id in the store, or -1.
pub open spec fn spec_find_split(store: Seq<SplitEntryModel>, sid: u16) -> int
    decreases store.len(),
{
    if store.len() == 0 {
        -1
    } else if store[0].split_id == sid {
        0
    } else {
        let r = spec_find_split(store.drop_first(), sid);
        if r == -1 {
            -1
        } else {
            r + 1
        }
    }
}

pub proof fn lemma_find_split_at(store: Seq<SplitEntryModel>, sid: u16, at: int)
    requires
        0 <= at < store.len(),
        store[at].split_id == sid,
        forall|j: int| 0 <= j < at ==> #[trigger] store[j].split_id != sid,
    ensures
        spec_find_split(store, sid) == at,
    decreases at,
{
    if at > 0 {
        lemma_find_split_at(store.drop_first(), sid, at - 1);
    }
}

pub proof fn lemma_find_split_absent(store: Seq<SplitEntryModel>, sid: u16)
    requires
        forall|j: int| 0 <= j < store.len() ==> #[trigger] store[j].split_id != sid,
    ensures
        spec_find_split(store, sid) == -1,
    decreases store.len(),
{
    if store.len() > 0 {
        lemma_find_split_absent(store.drop_first(), sid);
    }
}

/// Every announced fragment has arrived.
pub open spec fn spec_parts_complete(parts: Seq<Option<Seq<u8>>>) -> bool {
    forall|i: int| 0 <= i < parts.len() ==> parts[i] is Some
}

/// The reassembled bytes: the fragments concatenated in index order.
pub open spec fn spec_concat_parts(parts: Seq<Option<Seq<u8>>>) -> Seq<u8>
    decreases parts.len(),
{
    if parts.len() == 0 {
        Seq::empty()
    } else {
        (match parts[0] {
            Some(d) => d,
            None => Seq::empty(),
        }) + spec_concat_parts(parts.drop_first())
    }
}

pub proof fn lemma_concat_parts_snoc(parts: Seq<Option<Seq<u8>>>, p: Option<Seq<u8>>)
    ensures
        spec_concat_parts(parts.push(p)) == spec_concat_parts(parts) + (match p {
            Some(d) => d,
            None => Seq::<u8>::empty(),
        }),
    decreases parts.len(),
{
    let tail = (match p {
        Some(d) => d,
        None => Seq::<u8>::empty(),
    });
    if parts.len() == 0 {
        assert(parts.push(p).drop_first() =~= Seq::<Option<Seq<u8>>>::empty());
        assert(parts.push(p)[0] == p);
        assert(spec_concat_parts(parts.push(p).drop_first()) == Seq::<u8>::empty());
        assert(spec_concat_parts(parts.push(p)) =~= spec_concat_parts(parts) + tail);
    } else {
        assert(parts.push(p).drop_first() =~= parts.drop_first().push(p));
        assert(parts.push(p)[0] == parts[0]);
        lemma_concat_parts_snoc(parts.drop_first(), p);
        assert(spec_concat_parts(parts.push(p)) == (match parts[0] {
            Some(d) => d,
            None => Seq::<u8>::empty(),
        }) + spec_concat_parts(parts.drop_first().push(p)));
        assert(spec_concat_parts(parts.push(p)) =~= spec_concat_parts(parts) + tail);
    }
}

/// Files one fragment: the new store, and the reassembled datagram if this
/// fragment was the last missing one. A fragment for a known split id whose
/// announced count disagrees, or for a new split id when the store is full,
/// is discarded.
pub open spec fn spec_split_insert(
    store: Seq<SplitEntryModel>,
    sid: u16,
    count: int,
    index: int,
    data: Seq<u8>,
) -> (Seq<SplitEntryModel>, Option<Seq<u8>>) {
    let at = spec_find_split(store, sid);
    if at >= 0 {
        let entry = store[at];
        if entry.parts.len() != count {
            (store, None)
        } else {
            let parts2 = entry.parts.update(index, Some(data));
            if spec_parts_complete(parts2) {
                (store.remove(at), Some(spec_concat_parts(parts2)))
            } else {
                (store.update(at, SplitEntryModel { split_id: sid, parts: parts2 }), None)
            }
        }
    } else if store.len() >= MAX_PENDING_SPLITS {
        (store, None)
    } else {
        let parts0 = Seq::new(count as nat, |i: int| Option::<Seq<u8>>::None).update(
            index,
            Some(data),
        );
        if spec_parts_complete(parts0) {
            (store, Some(spec_concat_parts(parts0)))
        } else {
            (store.push(SplitEntryModel { split_id: sid, parts: parts0 }), None)
        }
    }
}

/// Copies a byte vector.
fn copy_bytes(v: &Vec<u8>) -> (out: Vec<u8>)
    ensures
        out@ == v@,
{
    slice_to_vec(v.as_slice())
}

/// Whether every fragment slot is filled.
fn parts_complete(parts: &Vec<Option<Vec<u8>>>) -> (r: bool)
    ensures
        r == spec_parts_complete(parts_model(parts@)),
{
    let ghost pm = parts_model(parts@);
    let mut k: usize = 0;
    while k < parts.len()
        invariant
            k <= parts@.len(),
            pm == parts_model(parts@),
            forall|i: int| 0 <= i < k ==> #[trigger] pm[i] is Some,
        decreases parts@.len() - k,
    {
        match &parts[k] {
            Some(_) => {},
            None => {
                proof {
                    assert(!(pm[k as int] is Some));
                }
                return false;
            },
        }
        k = k + 1;
    }
    true
}

/// Concatenates the fragments in index order.
fn concat_parts(parts: &Vec<Option<Vec<u8>>>) -> (out: Vec<u8>)
    ensures
        out@ == spec_concat_parts(parts_model(parts@)),
{
    let ghost pm = parts_model(parts@);
    let mut out: Vec<u8> = Vec::new();
    let mut k: usize = 0;
    proof {
        assert(out@ =~= spec_concat_parts(pm.take(0)));
    }
    while k < parts.len()
        invariant
            k <= parts@.len(),
            pm == parts_model(parts@),
            pm.len() == parts@.len(),
            out@ == spec_concat_parts(pm.take(k as int)),
        decreases parts@.len() - k,
    {
        match &parts[k] {
            Some(v) => {
                let mut piece = copy_bytes(v);
                out.append(&mut piece);
            },
            None => {},
        }
        proof {
            lemma_concat_parts_snoc(pm.take(k as int), pm[k as int]);
            assert(pm.take(k + 1) =~= pm.take(k as int).push(pm[k as int]));
        }
        k = k + 1;
    }
    proof {
        assert(pm.take(pm.len() as int) =~= pm);
    }
    out
}

/// Files one fragment into the store, handing back the reassembled datagram
/// when it completes a split.
fn split_insert(store: &mut Vec<SplitEntry>, sid: u16, count: u32, index: u32, data: Vec<u8>) -> (r:
    Option<Vec<u8>>)
    requires
        1 <= count <= MAX_SPLIT_PARTS,
        index < count,
    ensures
        ({
            let step = spec_split_insert(
                store_model(old(store)@),
                sid,
                count as int,
                index as int,
                data@,
            );
            &&& store_model(final(store)@) == step.0
            &&& match (r, step.1) {
                (Some(v), Some(d)) => v@ == d,
                (None, None) => true,
                _ => false,
            }
        }),
{
    let ghost sm = store_model(store@);
    // Locate the split id.
    let mut at: usize = 0;
    let mut found = false;
    while at < store.len()
        invariant_except_break
            at <= store@.len(),
            sm == store_model(store@),
            !found,
            forall|j: int| 0 <= j < at ==> #[trigger] sm[j].split_id != sid,
        ensures
            sm == store_model(store@),
            found ==> at < store@.len() && sm[at as int].split_id == sid && (forall|j: int|
                0 <= j < at ==> #[trigger] sm[j].split_id != sid),
            !found ==> forall|j: int| 0 <= j < store@.len() ==> #[trigger] sm[j].split_id != sid,
        decreases store@.len() - at,
    {
        if store[at].split_id == sid {
            found = true;
            break ;
        }
        at = at + 1;
    }
    if found {
        proof {
            lemma_find_split_at(sm, sid, at as int);
        }
        let mut entry = store.remove(at);
        if entry.parts.len() != count as usize {
            store.insert(at, entry);
            proof {
                assert(store_model(store@) =~= sm);
            }
            return Option::None;
        }
        entry.parts.set(index as usize, Some(data));
        let ghost parts2 = parts_model(entry.parts@);
        proof {
            assert(parts2 =~= sm[at as int].parts.update(index as int, Some(data@)));
        }
        if parts_complete(&entry.parts) {
            let out = concat_parts(&entry.parts);
            proof {
                assert(store_model(store@) =~= sm.remove(at as int));
            }
            Some(out)
        } else {
            store.insert(at, entry);
            proof {
                assert(store_model(store@) =~= sm.update(
                    at as int,
                    SplitEntryModel { split_id: sid, parts: parts2 },
                ));
            }
            Option::None
        }
    } else {
        proof {
            lemma_find_split_absent(sm, sid);
        }
        if store.len() >= MAX_PENDING_SPLITS {
            return Option::None;
        }
        let mut parts: Vec<Option<Vec<u8>>> = Vec::new();
        let mut k: u32 = 0;
        while k < count
            invariant
                k <= count,
                parts@.len() == k,
                parts_model(parts@) =~= Seq::new(k as nat, |i: int| Option::<Seq<u8>>::None),
            decreases count - k,
        {
            let ghost before = parts@;
            parts.push(Option::None);
            k = k + 1;
            proof {
                assert forall|i: int| 0 <= i < k implies #[trigger] parts_model(parts@)[i]
                    == Option::<Seq<u8>>::None by {
                    assert(parts_model(parts@)[i] == opt_bytes_model(parts@[i]));
                    if i < before.len() {
                        assert(parts@[i] == before[i]);
                        assert(parts_model(before)[i] == opt_bytes_model(before[i]));
                        assert(parts_model(before)[i] == Seq::new(
                            (k - 1) as nat,
                            |j: int| Option::<Seq<u8>>::None,
                        )[i]);
                    } else {
                        assert(parts@[i] == Option::<Vec<u8>>::None);
                    }
                }
                assert(parts_model(parts@) =~= Seq::new(
                    k as nat,
                    |i: int| Option::<Seq<u8>>::None,
                ));
            }
        }
        parts.set(index as usize, Some(data));
        let ghost parts0 = parts_model(parts@);
        proof {
            assert(parts0 =~= Seq::new(count as nat, |i: int| Option::<Seq<u8>>::None).update(
                index as int,
                Some(data@),
            ));
        }
        if parts_complete(&parts) {
            let out = concat_parts(&parts);
            proof {
                assert(store_model(store@) =~= sm);
            }
            Some(out)
        } else {
            let entry = SplitEntry { split_id: sid, parts };
            store.push(entry);
            proof {
                assert(store_model(store@) =~= sm.push(
                    SplitEntryModel { split_id: sid, parts: parts0 },
                ));
            }
            Option::None
        }
    }
}

/// The outcome of one attempt to extract a packet from the front of the
/// buffer.
pub enum PacketResult {
    /// A packet, with the number of buffered bytes its frame occupied.
    CompletePacket(Packet, usize),
    NeedMoreData,
    Skipped(usize),
}

/// The model of a `PacketResult`.
pub enum StepModel {
    Complete(PacketModel, int),
    More,
    Skip(int),
}

pub open spec fn step_models(r: PacketResult, s: StepModel) -> bool {
    match (r, s) {
        (PacketResult::CompletePacket(p, c), StepModel::Complete(pm, cs)) => p@ == pm && c == cs,
        (PacketResult::NeedMoreData, StepModel::More) => true,
        (PacketResult::Skipped(n), StepModel::Skip(ns)) => n == ns,
        _ => false,
    }
}

/// The legacy 1.6 server-list ping: after the three marker bytes come two
/// big-endian 16-bit data sizes at fixed positions; the probe is skipped
/// whole, once all of it has arrived.
pub open spec fn spec_legacy_skip(b: Seq<u8>) -> StepModel {
    if b.len() < 5 {
        StepModel::More
    } else {
        let size0 = b[3] * 256 + b[4];
        let idx1 = 5 + size0 * 2;
        if b.len() < idx1 + 2 {
            StepModel::More
        } else {
            let size1 = b[idx1] * 256 + b[idx1 + 1];
            let total = idx1 + 2 + size1;
            if b.len() < total {
                StepModel::More
            } else {
                StepModel::Skip(total)
            }
        }
    }
}

/// Stream (Java) framing: a VarInt frame length, a VarInt packet id, and the
/// id's payload, preceded by two escape hatches for historical pings.
/// A frame whose length field is known but whose claimed bytes cannot be
/// reconciled with a packet is dropped whole; a malformed length VarInt
/// drops its own five bytes.
pub open spec fn spec_extract_stream(state: State, proto: Protocol, b: Seq<u8>) -> StepModel {
    if b.len() >= 3 && b[0] == 0xFE && b[1] == 0x01 && b[2] == 0xFA {
        spec_legacy_skip(b)
    } else {
        match varint_dec(b) {
            Decoded::NeedMoreData => StepModel::More,
            Decoded::Malformed => StepModel::Skip(5),
            Decoded::Value(l, k1) => {
                if l == 1 {
                    if b.len() < 2 {
                        StepModel::More
                    } else {
                        StepModel::Skip(2)
                    }
                } else if l <= 0 {
                    StepModel::Skip(k1 as int)
                } else if b.len() - k1 < l {
                    StepModel::More
                } else {
                    match varint_dec(b.skip(k1 as int)) {
                        Decoded::Value(id, k2) => if k2 > l {
                            StepModel::Skip(k1 + l)
                        } else {
                            let payload = b.subrange(k1 + k2, k1 + l);
                            match spec_proto_read(proto, id, state, Bound::Serverbound, payload) {
                                Decoded::Value(pm, n) => StepModel::Complete(pm, k1 + l),
                                Decoded::NeedMoreData => StepModel::Skip(k1 + l),
                                Decoded::Malformed => StepModel::Skip(k1 + l),
                            }
                        },
                        Decoded::NeedMoreData => StepModel::Skip(k1 + l),
                        Decoded::Malformed => StepModel::Skip(k1 + l),
                    }
                }
            },
        }
    }
}

/// The byte count of a RakNet datagram header up to the split sub-fields:
/// one id byte, a 24-bit sequence number, a flags byte, a 16-bit payload bit
/// length, and the reliability sub-fields the flags announce.
pub open spec fn spec_datagram_pre_split_len(flags: u8) -> int {
    let rel = flags / 32;
    7 + (if rel == 2 || rel == 3 || rel == 4 {
        3int
    } else {
        0int
    }) + (if rel == 1 || rel == 4 {
        3int
    } else {
        0int
    }) + (if rel == 1 || rel == 3 || rel == 4 || rel == 7 {
        4int
    } else {
        0int
    })
}

/// The full datagram header: the split sub-fields (fragment count, split id,
/// fragment index) follow when the split flag is set.
pub open spec fn spec_datagram_header_len(flags: u8, split: bool) -> int {
    spec_datagram_pre_split_len(flags) + (if split {
        10int
    } else {
        0int
    })
}

/// A RakNet reliability frame: the header, then the inner packet id and
/// payload; the 16-bit field counts bits, and covers both. A split frame
/// carries one fragment instead, which goes to the reassembly store; the
/// packet is read once the last fragment arrives. A datagram that cannot be
/// reconciled is dropped whole.
pub open spec fn spec_extract_datagram_frame(
    state: State,
    proto: Protocol,
    b: Seq<u8>,
    splits: Seq<SplitEntryModel>,
) -> (StepModel, Seq<SplitEntryModel>) {
    if b.len() < 7 {
        (StepModel::More, splits)
    } else {
        let flags = b[4];
        let split = (flags / 16) % 2 == 1;
        let length = (b[5] * 256 + b[6]) / 8;
        let ps = spec_datagram_pre_split_len(flags);
        let hdr = spec_datagram_header_len(flags, split);
        if length < 1 {
            (StepModel::Skip(b.len() as int), splits)
        } else if b.len() < hdr + length {
            (StepModel::More, splits)
        } else if split {
            let count = be_val(b.subrange(ps, ps + 4));
            let sid = be_val(b.subrange(ps + 4, ps + 6)) as u16;
            let sindex = be_val(b.subrange(ps + 6, ps + 10));
            if count < 1 || count > MAX_SPLIT_PARTS || sindex >= count {
                (StepModel::Skip(b.len() as int), splits)
            } else {
                let frag = b.subrange(hdr, hdr + length);
                let step = spec_split_insert(splits, sid, count as int, sindex as int, frag);
                match step.1 {
                    Some(assembled) => if assembled.len() < 1 {
                        (StepModel::Skip(b.len() as int), step.0)
                    } else {
                        match spec_proto_read(
                            proto,
                            assembled[0] as i32,
                            state,
                            Bound::Serverbound,
                            assembled.skip(1),
                        ) {
                            Decoded::Value(pm, n) => (
                                StepModel::Complete(pm, hdr + length),
                                step.0,
                            ),
                            Decoded::NeedMoreData => (StepModel::Skip(b.len() as int), step.0),
                            Decoded::Malformed => (StepModel::Skip(b.len() as int), step.0),
                        }
                    },
                    None => (StepModel::Skip(hdr + length), step.0),
                }
            }
        } else {
            let inner_id = b[hdr];
            let payload = b.subrange(hdr + 1, hdr + length);
            match spec_proto_read(proto, inner_id as i32, state, Bound::Serverbound, payload) {
                Decoded::Value(pm, n) => (StepModel::Complete(pm, hdr + length), splits),
                Decoded::NeedMoreData => (StepModel::Skip(b.len() as int), splits),
                Decoded::Malformed => (StepModel::Skip(b.len() as int), splits),
            }
        }
    }
}

/// Datagram (Bedrock) framing: the first byte decides between a RakNet
/// reliability frame and an offline packet, whose consumed length comes from
/// the packet decode itself.
pub open spec fn spec_extract_datagram(
    state: State,
    proto: Protocol,
    b: Seq<u8>,
    splits: Seq<SplitEntryModel>,
) -> (StepModel, Seq<SplitEntryModel>) {
    if b.len() < 1 {
        (StepModel::More, splits)
    } else {
        let id = b[0];
        if id >= 0x80 && id != 0xa0 && id != 0xc0 {
            spec_extract_datagram_frame(state, proto, b, splits)
        } else {
            match spec_proto_read(
                proto,
                id as i32,
                State::BedrockRakNetOffline,
                Bound::Serverbound,
                b.skip(1),
            ) {
                Decoded::Value(pm, n) => (StepModel::Complete(pm, 1 + n), splits),
                Decoded::NeedMoreData => (StepModel::More, splits),
                Decoded::Malformed => (StepModel::Skip(b.len() as int), splits),
            }
        }
    }
}

/// One extraction step on a connection model: the outcome and the fragment
/// store it leaves behind.
#[verifier::opaque]
pub open spec fn spec_extract_full(m: ConnModel) -> (StepModel, Seq<SplitEntryModel>) {
    if m.transport is Stream {
        (spec_extract_stream(m.state, m.protocol, m.buf), m.splits)
    } else {
        spec_extract_datagram(m.state, m.protocol, m.buf, m.splits)
    }
}

/// One extraction step's outcome.
pub open spec fn spec_extract(m: ConnModel) -> StepModel {
    spec_extract_full(m).0
}

/// The fragment store after one extraction step.
pub open spec fn spec_extract_splits(m: ConnModel) -> Seq<SplitEntryModel> {
    spec_extract_full(m).1
}

/// A step that waits for more bytes files no fragment.
pub proof fn lemma_extract_more_splits(m: ConnModel)
    requires
        spec_extract(m) is More,
    ensures
        spec_extract_splits(m) == m.splits,
{
    reveal(spec_extract_full);
}

/// Stream steps never touch the fragment store.
pub proof fn lemma_stream_splits_unchanged(m: ConnModel)
    requires
        m.transport is Stream,
    ensures
        spec_extract_splits(m) == m.splits,
{
    reveal(spec_extract_full);
}

/// The connection state after a packet completed: the packet's transition if
/// it requests one, else unchanged.
pub open spec fn spec_apply_next_state(s: State, pm: PacketModel) -> State {
    match Packet::spec_next_state(pm) {
        Some(s2) => s2,
        None => s,
    }
}

/// The model after one completed or skipped step.
pub open spec fn spec_step_model(m: ConnModel, s: StepModel) -> ConnModel {
    match s {
        StepModel::Complete(pm, c) => ConnModel {
            state: spec_apply_next_state(m.state, pm),
            buf: m.buf.skip(c),
            splits: spec_extract_splits(m),
            ..m
        },
        StepModel::Skip(n) => ConnModel {
            buf: m.buf.skip(n),
            splits: spec_extract_splits(m),
            ..m
        },
        StepModel::More => m,
    }
}

/// Every step that is not a wait for more bytes consumes at least one
/// buffered byte and at most the whole buffer.
pub proof fn lemma_extract_bounds(m: ConnModel)
    ensures
        spec_extract(m) matches StepModel::Complete(pm, c) ==> 1 <= c <= m.buf.len(),
        spec_extract(m) matches StepModel::Skip(n) ==> 1 <= n <= m.buf.len(),
{
    reveal(spec_extract_full);
    let b = m.buf;
    if m.transport is Stream {
        if b.len() >= 3 && b[0] == 0xFE && b[1] == 0x01 && b[2] == 0xFA {
        } else {
            lemma_varint_dec_rec_len(b, 0, 0);
            match varint_dec(b) {
                Decoded::Malformed => {
                    crate::types::lemma_varint_dec_malformed_len(b, 0, 0);
                },
                Decoded::Value(l, k1) => {
                    if l == 1 || l <= 0 || b.len() - k1 < l {
                    } else {
                        crate::protocol::registry::lemma_proto_read_len(
                            m.protocol,
                            0,
                            m.state,
                            Bound::Serverbound,
                            b,
                        );
                    }
                },
                Decoded::NeedMoreData => {},
            }
        }
    } else {
        if b.len() >= 1 {
            let id = b[0];
            if id >= 0x80 && id != 0xa0 && id != 0xc0 {
            } else {
                crate::protocol::registry::lemma_proto_read_len(
                    m.protocol,
                    id as i32,
                    State::BedrockRakNetOffline,
                    Bound::Serverbound,
                    b.skip(1),
                );
            }
        }
    }
}

/// Repeated extraction: emits packets and applies their state transitions
/// until the buffer is empty or more bytes are needed.
pub open spec fn spec_drain(m: ConnModel) -> (Seq<PacketModel>, ConnModel)
    decreases m.buf.len(),
{
    if m.buf.len() == 0 {
        (Seq::empty(), m)
    } else {
        match spec_extract(m) {
            StepModel::More => (Seq::empty(), m),
            StepModel::Complete(pm, c) => {
                if 1 <= c <= m.buf.len() {
                    let m2 = spec_step_model(m, StepModel::Complete(pm, c));
                    (seq![pm] + spec_drain(m2).0, spec_drain(m2).1)
                } else {
                    (Seq::empty(), m)
                }
            },
            StepModel::Skip(n) => {
                if 1 <= n <= m.buf.len() {
                    spec_drain(spec_step_model(m, StepModel::Skip(n)))
                } else {
                    (Seq::empty(), m)
                }
            },
        }
    }
}

/// One unfolding of `spec_drain` at a completed packet.
pub proof fn lemma_drain_complete(m: ConnModel, pm: PacketModel, c: int)
    requires
        m.buf.len() > 0,
        spec_extract(m) == StepModel::Complete(pm, c),
    ensures
        spec_drain(m).0 == seq![pm] + spec_drain(spec_step_model(m, StepModel::Complete(pm, c))).0,
        spec_drain(m).1 == spec_drain(spec_step_model(m, StepModel::Complete(pm, c))).1,
{
    lemma_extract_bounds(m);
}

/// One unfolding of `spec_drain` at a skipped span.
pub proof fn lemma_drain_skip(m: ConnModel, n: int)
    requires
        m.buf.len() > 0,
        spec_extract(m) == StepModel::Skip(n),
    ensures
        spec_drain(m) == spec_drain(spec_step_model(m, StepModel::Skip(n))),
{
    lemma_extract_bounds(m);
}

/// `spec_drain` stops at an empty buffer or an incomplete packet.
pub proof fn lemma_drain_stop(m: ConnModel)
    requires
        m.buf.len() == 0 || spec_extract(m) is More,
    ensures
        spec_drain(m) == (Seq::<PacketModel>::empty(), m),
{
}

/// A stream step that did not wait for more bytes is unchanged by bytes
/// appended behind the buffer: the step is decided by the prefix it
/// consumed.
#[verifier::rlimit(100)]
#[verifier::spinoff_prover]
pub proof fn lemma_stream_step_mono(state: State, proto: Protocol, b: Seq<u8>, ext: Seq<u8>)
    requires
        !(spec_extract_stream(state, proto, b) is More),
    ensures
        spec_extract_stream(state, proto, b + ext) == spec_extract_stream(state, proto, b),
{
    let w = b + ext;
    assert(forall|i: int| 0 <= i < b.len() ==> w[i] == b[i]);
    if b.len() >= 3 && b[0] == 0xFE && b[1] == 0x01 && b[2] == 0xFA {
        assert(w.len() >= 3 && w[0] == 0xFE && w[1] == 0x01 && w[2] == 0xFA);
        let size0 = b[3] * 256 + b[4];
        let idx1 = 5 + size0 * 2;
        let size1 = b[idx1] * 256 + b[idx1 + 1];
        let total = idx1 + 2 + size1;
        assert(b.len() >= total);
        assert(w[3] == b[3] && w[4] == b[4]);
        assert(w[idx1] == b[idx1] && w[idx1 + 1] == b[idx1 + 1]);
    } else {
        match varint_dec(b) {
            Decoded::NeedMoreData => {
                assert(false);
            },
            Decoded::Malformed => {
                crate::types::lemma_varint_dec_malformed_len(b, 0, 0);
                assert(b.len() >= 5);
                assert(!(w[0] == 0xFE && w[1] == 0x01 && w[2] == 0xFA));
                crate::types::lemma_varint_dec_mono(b, ext, 0, 0);
            },
            Decoded::Value(l, k1) => {
                lemma_varint_dec_rec_len(b, 0, 0);
                crate::types::lemma_varint_dec_mono(b, ext, 0, 0);
                if b.len() < 3 {
                    // A buffer this short that still made progress cannot be
                    // a legacy-ping prefix: with 0xFE leading, the length
                    // VarInt is at least 126, which always wants more bytes.
                    if b[0] == 0xFE {
                        crate::types::lemma_pow128_values();
                        assert(varint_dec_rec(b, 0, 0) == varint_dec_rec(b, 1, 126));
                        assert(b.len() == 2);
                        if b[1] >= 128 {
                            let acc2 = (126 + (b[1] % 128) * 128) as nat;
                            assert(varint_dec_rec(b, 1, 126) == varint_dec_rec(b, 2, acc2));
                            assert(varint_dec_rec(b, 2, acc2) is NeedMoreData);
                            assert(false);
                        }
                        assert(l == 126 + b[1] * 128 && k1 == 2);
                        assert(false);
                    }
                    assert(!(w.len() >= 3 && w[0] == 0xFE && w[1] == 0x01 && w[2] == 0xFA));
                } else {
                    assert(!(w[0] == 0xFE && w[1] == 0x01 && w[2] == 0xFA));
                }
                if l == 1 {
                    assert(b.len() >= 2);
                } else if l <= 0 {
                } else {
                    assert(b.len() - k1 >= l);
                    assert(w.len() - k1 >= l);
                    let bs = b.skip(k1 as int);
                    let ws = w.skip(k1 as int);
                    assert(ws =~= bs + ext);
                    match varint_dec(bs) {
                        Decoded::Value(id, k2) => {
                            crate::types::lemma_varint_dec_mono(bs, ext, 0, 0);
                            if k2 <= l {
                                assert(w.subrange(k1 + k2, k1 + l) =~= b.subrange(
                                    k1 + k2,
                                    k1 + l,
                                ));
                            }
                        },
                        Decoded::NeedMoreData => {
                            crate::types::lemma_varint_dec_more(bs, ext, 0, 0);
                            assert(bs.len() >= l);
                            match varint_dec(ws) {
                                Decoded::Value(id2, k2b) => {
                                    assert(k2b > bs.len());
                                    assert(k2b > l);
                                },
                                Decoded::NeedMoreData => {},
                                Decoded::Malformed => {},
                            }
                        },
                        Decoded::Malformed => {
                            crate::types::lemma_varint_dec_mono(bs, ext, 0, 0);
                        },
                    }
                }
            },
        }
    }
}

/// Split independence of the stream extractor: delivering extra bytes after
/// a first batch yields exactly the packets of the first batch followed by
/// the packets of the leftover buffer with the extra bytes appended, ending
/// in the same connection model as delivering everything at once. Feeding a
/// byte sequence to the parse worker in any number of pieces therefore
/// produces the same packet sequence as feeding it whole.
pub proof fn lemma_stream_split_independent(m: ConnModel, ext: Seq<u8>)
    requires
        m.transport is Stream,
    ensures
        ({
            let first = spec_drain(m);
            let cont = ConnModel { buf: first.1.buf + ext, ..first.1 };
            spec_drain(ConnModel { buf: m.buf + ext, ..m }) == (
                first.0 + spec_drain(cont).0,
                spec_drain(cont).1,
            )
        }),
    decreases m.buf.len(),
{
    let first = spec_drain(m);
    let cont = ConnModel { buf: first.1.buf + ext, ..first.1 };
    let mx = ConnModel { buf: m.buf + ext, ..m };
    if m.buf.len() == 0 {
        lemma_drain_stop(m);
        assert(m.buf + ext =~= ext);
        assert(cont =~= mx);
        assert(Seq::<PacketModel>::empty() + spec_drain(cont).0 =~= spec_drain(cont).0);
    } else {
        match spec_extract(m) {
            StepModel::More => {
                lemma_drain_stop(m);
                assert(cont =~= mx);
                assert(Seq::<PacketModel>::empty() + spec_drain(cont).0 =~= spec_drain(cont).0);
            },
            StepModel::Complete(pm, c) => {
                lemma_extract_mono(m, ext);
                assert(spec_extract(mx) == StepModel::Complete(pm, c));
                lemma_stream_splits_unchanged(m);
                lemma_stream_splits_unchanged(mx);
                lemma_extract_bounds(m);
                lemma_drain_complete(m, pm, c);
                lemma_drain_complete(mx, pm, c);
                let m2 = spec_step_model(m, StepModel::Complete(pm, c));
                let mx2 = spec_step_model(mx, StepModel::Complete(pm, c));
                assert(mx2 =~= ConnModel { buf: m2.buf + ext, ..m2 });
                lemma_stream_split_independent(m2, ext);
                assert(spec_drain(m2).1 == first.1);
                assert(seq![pm] + (spec_drain(m2).0 + spec_drain(cont).0) =~= (seq![pm]
                    + spec_drain(m2).0) + spec_drain(cont).0);
            },
            StepModel::Skip(n) => {
                lemma_extract_mono(m, ext);
                assert(spec_extract(mx) == StepModel::Skip(n));
                lemma_stream_splits_unchanged(m);
                lemma_stream_splits_unchanged(mx);
                lemma_extract_bounds(m);
                lemma_drain_skip(m, n);
                lemma_drain_skip(mx, n);
                let m2 = spec_step_model(m, StepModel::Skip(n));
                let mx2 = spec_step_model(mx, StepModel::Skip(n));
                assert(mx2 =~= ConnModel { buf: m2.buf + ext, ..m2 });
                lemma_stream_split_independent(m2, ext);
            },
        }
    }
}

/// A stream step on the model level is unchanged by appended bytes.
pub proof fn lemma_extract_mono(m: ConnModel, ext: Seq<u8>)
    requires
        m.transport is Stream,
        !(spec_extract(m) is More),
    ensures
        spec_extract(ConnModel { buf: m.buf + ext, ..m }) == spec_extract(m),
{
    reveal(spec_extract_full);
    lemma_stream_step_mono(m.state, m.protocol, m.buf, ext);
}

/// A freshly framed Java packet never wears the legacy-ping marker: were
/// the first two bytes 0xFE 0x01, the length VarInt would be exactly those
/// two bytes, putting the wire id at the third position, and no registered
/// id is 0xFA.
proof fn lemma_frame_not_legacy(id: i32, w: Seq<u8>)
    requires
        0 <= id <= 0x25,
        1 <= w.len() <= 0x400000,
    ensures
        ({
            let f = crate::protocol::registry::spec_java_frame(id, w);
            !(f.len() >= 3 && f[0] == 0xFE && f[1] == 0x01 && f[2] == 0xFA)
        }),
{
    crate::types::lemma_pow128_values();
    assert(crate::types::i32_to_u32(id) == id);
    assert(crate::types::varint_enc_u(id as nat) == seq![(id as nat) as u8]);
    let inner = crate::types::varint_enc(id) + w;
    let bl = inner.len();
    assert((bl % 0x100000000) == bl);
    let lenc = crate::types::varint_enc_u(bl as nat);
    crate::types::lemma_varint_enc_u_len(bl as nat);
    let f = crate::protocol::registry::spec_java_frame(id, w);
    assert(f =~= lenc + inner);
    if f.len() >= 3 && f[0] == 0xFE && f[1] == 0x01 && f[2] == 0xFA {
        assert(f[0] == lenc[0]);
        assert(bl >= 128) by {
            if bl < 128 {
                assert(lenc == seq![(bl as nat) as u8]);
                assert(lenc[0] < 128);
            }
        }
        assert(lenc == seq![(128 + (bl as nat) % 128) as u8] + crate::types::varint_enc_u(
            (bl as nat) / 128,
        ));
        assert((bl as nat) % 128 == 126);
        let q = (bl as nat) / 128;
        let qenc = crate::types::varint_enc_u(q);
        assert(f[1] == qenc[0]);
        if q < 128 {
            assert(qenc == seq![q as u8]);
            assert(q == 1);
        } else {
            assert(qenc == seq![(128 + q % 128) as u8] + crate::types::varint_enc_u(q / 128));
            assert(qenc[0] >= 128);
            assert(false);
        }
        assert(bl == 254);
        assert(crate::types::varint_enc_u(1) == seq![1u8]);
        assert(lenc =~= seq![0xFEu8, 0x01u8]);
        assert(f[2] == inner[0]);
        assert(inner[0] == (id as nat) as u8);
        assert(false);
    }
}

/// The stream extractor takes a freshly framed serverbound Java packet
/// whole, in the packet kind's own state under the same version.
#[verifier::rlimit(100)]
#[verifier::spinoff_prover]
proof fn lemma_stream_frame_extracts(state: State, proto: Protocol, pm: PacketModel)
    requires
        crate::protocol::registry::spec_edition(proto)
            == crate::protocol::ProtocolEdition::JavaEdition,
        Packet::wf_model(pm),
        Packet::spec_write(pm).len() >= 1,
        state == Packet::kind_state(pm),
        crate::protocol::registry::spec_proto_write(proto, pm, Bound::Serverbound) is Some,
    ensures
        ({
            let f = crate::protocol::registry::spec_proto_write(
                proto,
                pm,
                Bound::Serverbound,
            )->Some_0;
            spec_extract_stream(state, proto, f) == StepModel::Complete(pm, f.len() as int)
        }),
{
    crate::types::lemma_pow128_values();
    crate::protocol::registry::lemma_java_write_shape(proto, pm, Bound::Serverbound);
    crate::protocol::registry::lemma_java_round_trip(proto, pm, Bound::Serverbound);
    let id = crate::protocol::registry::spec_kind_wire_id(proto, pm);
    let w = Packet::spec_write(pm);
    let f = crate::protocol::registry::spec_proto_write(proto, pm, Bound::Serverbound)->Some_0;
    lemma_frame_not_legacy(id, w);
    assert(crate::types::i32_to_u32(id) == id);
    assert(crate::types::varint_enc_u(id as nat) == seq![(id as nat) as u8]);
    let inner = crate::types::varint_enc(id) + w;
    let bl = inner.len();
    assert(2 <= bl <= 0x400001);
    assert((bl % 0x100000000) == bl);
    let lenc = crate::types::varint_enc_u(bl as nat);
    crate::types::lemma_varint_enc_u_len(bl as nat);
    assert(f =~= lenc + inner);
    let k1 = lenc.len();
    assert(f.skip(0) =~= lenc + inner);
    crate::types::lemma_varint_dec_enc(f, 0, 0, bl as nat, inner);
    assert((bl as nat) * 1 == bl as nat) by (nonlinear_arith);
    assert(varint_dec(f) == Decoded::<i32>::Value(
        crate::types::u32_to_i32((bl as nat) as u32),
        k1 as usize,
    ));
    assert(crate::types::u32_to_i32((bl as nat) as u32) == bl);
    assert(f.len() == k1 + bl);
    assert(f.skip(k1 as int) =~= inner);
    <crate::types::VarInt as WireField>::lemma_round_trip(id, w);
    assert(varint_dec(f.skip(k1 as int)) == Decoded::<i32>::Value(id, 1));
    assert(f.subrange(k1 as int + 1, (k1 + bl) as int) =~= w);
}

/// Extractor-level Java round trip: a stream buffer holding exactly one
/// freshly encoded serverbound packet, parsed in the packet kind's own
/// state under the same version, yields exactly that packet and leaves the
/// buffer empty. The only frame this cannot cover is the one of length one
/// — the empty status request — which the one-byte-ping rule skips instead;
/// hence the nonempty-payload premise.
pub proof fn lemma_stream_frame_round_trip(m: ConnModel, pm: PacketModel)
    requires
        m.transport is Stream,
        crate::protocol::registry::spec_edition(m.protocol)
            == crate::protocol::ProtocolEdition::JavaEdition,
        Packet::wf_model(pm),
        Packet::spec_write(pm).len() >= 1,
        m.state == Packet::kind_state(pm),
        crate::protocol::registry::spec_proto_write(m.protocol, pm, Bound::Serverbound) is Some,
        m.buf == crate::protocol::registry::spec_proto_write(
            m.protocol,
            pm,
            Bound::Serverbound,
        )->Some_0,
    ensures
        spec_extract(m) == StepModel::Complete(pm, m.buf.len() as int),
        spec_drain(m).0 == seq![pm],
        spec_drain(m).1.buf.len() == 0,
{
    lemma_stream_frame_extracts(m.state, m.protocol, pm);
    assert(spec_extract(m) == StepModel::Complete(pm, m.buf.len() as int)) by {
        reveal(spec_extract_full);
    }
    lemma_drain_complete(m, pm, m.buf.len() as int);
    let m2 = spec_step_model(m, StepModel::Complete(pm, m.buf.len() as int));
    assert(m2.buf =~= Seq::<u8>::empty());
    lemma_drain_stop(m2);
    assert(seq![pm] + Seq::<PacketModel>::empty() =~= seq![pm]);
}

/// On a completed Java handshake the connection's state advances before the
/// next packet is parsed: to the status state when the handshake's
/// next-state field is 1, to the login state when it is 2.
pub proof fn lemma_handshake_transition(m: ConnModel, x: (i32, Seq<char>, u16, i32), c: int)
    requires
        m.buf.len() > 0,
        spec_extract(m) == StepModel::Complete(PacketModel::java_v1_7_HandshakePacket(x), c),
    ensures
        ({
            let pm = PacketModel::java_v1_7_HandshakePacket(x);
            let m2 = spec_step_model(m, StepModel::Complete(pm, c));
            &&& spec_drain(m).0 == seq![pm] + spec_drain(m2).0
            &&& spec_drain(m).1 == spec_drain(m2).1
            &&& (x.3 == 1 ==> m2.state == State::JavaStatus)
            &&& (x.3 == 2 ==> m2.state == State::JavaLogin)
            &&& (x.3 != 1 && x.3 != 2 ==> m2.state == m.state)
        }),
{
    lemma_drain_complete(m, PacketModel::java_v1_7_HandshakePacket(x), c);
}

/// Drops the first n bytes of a buffer.
fn vec_advance(v: &mut Vec<u8>, n: usize)
    requires
        n <= old(v)@.len(),
    ensures
        final(v)@ == old(v)@.skip(n as int),
{
    let len = v.len();
    let mut out: Vec<u8> = Vec::new();
    let mut i: usize = n;
    while i < len
        invariant
            n <= i <= len,
            len == v@.len(),
            v@ == old(v)@,
            out@ == v@.subrange(n as int, i as int),
        decreases len - i,
    {
        out.push(v[i]);
        i = i + 1;
        proof {
            assert(out@ =~= v@.subrange(n as int, i as int));
        }
    }
    proof {
        assert(out@ =~= old(v)@.skip(n as int));
    }
    *v = out;
}

impl Connection {
    /// Constructs a new Connection for a peer on the given transport: a
    /// stream peer starts in the Java handshake state with the default Java
    /// protocol binding, a datagram peer in the RakNet offline state.
    pub fn new(transport: Transport) -> (r: Connection)
        ensures
            r@ == (ConnModel {
                transport,
                state: match transport {
                    Transport::Stream => State::JavaHandshake,
                    Transport::Datagram => State::BedrockRakNetOffline,
                },
                protocol: match transport {
                    Transport::Stream => Protocol::ProtocolJava_1_12,
                    Transport::Datagram => Protocol::ProtocolBedrockRakNet,
                },
                buf: Seq::<u8>::empty(),
                seq_id: 42,
                splits: Seq::<SplitEntryModel>::empty(),
            }),
    {
        let r = Connection {
            transport,
            protocol_state: match transport {
                Transport::Stream => State::JavaHandshake,
                Transport::Datagram => State::BedrockRakNetOffline,
            },
            protocol: match transport {
                Transport::Stream => Protocol::ProtocolJava_1_12,
                Transport::Datagram => Protocol::ProtocolBedrockRakNet,
            },
            unprocessed_buffer: Vec::new(),
            datagram_sequence_id: 42,
            split_assembly: Vec::new(),
        };
        proof {
            assert(r@.buf =~= Seq::<u8>::empty());
            assert(r@.splits =~= Seq::<SplitEntryModel>::empty());
        }
        r
    }

    /// Rebinds the connection's protocol version.
    pub fn set_protocol(&mut self, p: Protocol)
        ensures
            final(self)@ == (ConnModel { protocol: p, ..old(self)@ }),
    {
        self.protocol = p;
    }

    /// Moves the connection to another protocol state.
    pub fn set_state(&mut self, s: State)
        ensures
            final(self)@ == (ConnModel { state: s, ..old(self)@ }),
    {
        self.protocol_state = s;
    }

    /// The connection's current protocol state.
    pub fn state(&self) -> (s: State)
        ensures
            s == self@.state,
    {
        self.protocol_state
    }

    /// The protocol version the connection is bound to.
    pub fn protocol_binding(&self) -> (p: Protocol)
        ensures
            p == self@.protocol,
    {
        self.protocol
    }

    pub fn is_tcp(&self) -> (r: bool)
        ensures
            r == (self@.transport is Stream),
    {
        match self.transport {
            Transport::Stream => true,
            _ => false,
        }
    }

    pub fn is_udp(&self) -> (r: bool)
        ensures
            r == (self@.transport is Datagram),
    {
        match self.transport {
            Transport::Datagram => true,
            _ => false,
        }
    }

    /// One attempt to extract a packet from the front of the buffer. A split
    /// fragment moves into the reassembly store; nothing else changes the
    /// connection here, and the buffer advance is the caller's.
    pub fn start_packet_read(&mut self) -> (r: PacketResult)
        ensures
            step_models(r, spec_extract(old(self)@)),
            final(self)@ == (ConnModel { splits: spec_extract_splits(old(self)@), ..old(self)@ }),
    {
        let bytes = &self.unprocessed_buffer;
        let n = bytes.len();
        proof {
            reveal(spec_extract_full);
            assert(bytes@.skip(0) =~= bytes@);
        }
        match self.transport {
            Transport::Stream => {
                if n >= 3 && bytes[0] == 0xFE && bytes[1] == 0x01 && bytes[2] == 0xFA {
                    // Legacy 1.6 server-list ping: skip the probe whole.
                    if n < 5 {
                        return PacketResult::NeedMoreData;
                    }
                    let size0 = (bytes[3] as usize) * 256 + (bytes[4] as usize);
                    let idx1 = 5 + size0 * 2;
                    if n < idx1 + 2 {
                        return PacketResult::NeedMoreData;
                    }
                    let size1 = (bytes[idx1] as usize) * 256 + (bytes[idx1 + 1] as usize);
                    let total = idx1 + 2 + size1;
                    if n < total {
                        return PacketResult::NeedMoreData;
                    }
                    return PacketResult::Skipped(total);
                }
                match VarInt::read(bytes, 0) {
                    Decoded::NeedMoreData => PacketResult::NeedMoreData,
                    Decoded::Malformed => PacketResult::Skipped(5),
                    Decoded::Value(lv, k1) => {
                        let l = lv.0;
                        if l == 1 {
                            if n < 2 {
                                PacketResult::NeedMoreData
                            } else {
                                PacketResult::Skipped(2)
                            }
                        } else if l <= 0 {
                            PacketResult::Skipped(k1)
                        } else {
                            let lu = l as usize;
                            proof {
                                lemma_varint_dec_rec_len(bytes@, 0, 0);
                            }
                            if n - k1 < lu {
                                PacketResult::NeedMoreData
                            } else {
                                match VarInt::read(bytes, k1) {
                                    Decoded::Value(idv, k2) => {
                                        if k2 > lu {
                                            PacketResult::Skipped(k1 + lu)
                                        } else {
                                            let payload = slice_to_vec(
                                                slice_subrange(bytes.as_slice(), k1 + k2, k1 + lu),
                                            );
                                            match self.protocol.read(
                                                idv.0,
                                                self.protocol_state,
                                                Bound::Serverbound,
                                                payload,
                                            ) {
                                                Decoded::Value(p, n2) => PacketResult::CompletePacket(
                                                    p,
                                                    k1 + lu,
                                                ),
                                                Decoded::NeedMoreData => PacketResult::Skipped(
                                                    k1 + lu,
                                                ),
                                                Decoded::Malformed => PacketResult::Skipped(
                                                    k1 + lu,
                                                ),
                                            }
                                        }
                                    },
                                    Decoded::NeedMoreData => PacketResult::Skipped(k1 + lu),
                                    Decoded::Malformed => PacketResult::Skipped(k1 + lu),
                                }
                            }
                        }
                    },
                }
            },
            Transport::Datagram => {
                if n < 1 {
                    return PacketResult::NeedMoreData;
                }
                let id = bytes[0];
                if id >= 0x80 && id != 0xa0 && id != 0xc0 {
                    // RakNet reliability frame.
                    if n < 7 {
                        return PacketResult::NeedMoreData;
                    }
                    let flags = bytes[4];
                    let rel = flags / 32;
                    let split = (flags / 16) % 2 == 1;
                    let bitlen = (bytes[5] as usize) * 256 + (bytes[6] as usize);
                    let length = bitlen / 8;
                    let mut hdr: usize = 7;
                    if rel == 2 || rel == 3 || rel == 4 {
                        hdr = hdr + 3;
                    }
                    if rel == 1 || rel == 4 {
                        hdr = hdr + 3;
                    }
                    if rel == 1 || rel == 3 || rel == 4 || rel == 7 {
                        hdr = hdr + 4;
                    }
                    let ps = hdr;
                    if split {
                        hdr = hdr + 10;
                    }
                    proof {
                        assert(ps as int == spec_datagram_pre_split_len(flags));
                        assert(hdr as int == spec_datagram_header_len(flags, split));
                    }
                    if length < 1 {
                        return PacketResult::Skipped(n);
                    }
                    if n < hdr + length {
                        return PacketResult::NeedMoreData;
                    }
                    if split {
                        let count64 = be_read(bytes, ps, 4);
                        let sid64 = be_read(bytes, ps + 4, 2);
                        let sindex64 = be_read(bytes, ps + 6, 4);
                        proof {
                            crate::types::lemma_pow256_values();
                            lemma_be_val_bound(bytes@.subrange(ps as int, ps + 4));
                            lemma_be_val_bound(bytes@.subrange(ps + 4, ps + 6));
                            lemma_be_val_bound(bytes@.subrange(ps + 6, ps + 10));
                        }
                        if count64 < 1 || count64 > MAX_SPLIT_PARTS as u64 || sindex64
                            >= count64 {
                            return PacketResult::Skipped(n);
                        }
                        let frag = slice_to_vec(
                            slice_subrange(bytes.as_slice(), hdr, hdr + length),
                        );
                        match split_insert(
                            &mut self.split_assembly,
                            sid64 as u16,
                            count64 as u32,
                            sindex64 as u32,
                            frag,
                        ) {
                            Some(assembled) => {
                                if assembled.len() < 1 {
                                    PacketResult::Skipped(n)
                                } else {
                                    let inner_id = assembled[0];
                                    let payload = slice_to_vec(
                                        slice_subrange(assembled.as_slice(), 1, assembled.len()),
                                    );
                                    proof {
                                        assert(payload@ =~= assembled@.skip(1));
                                    }
                                    match self.protocol.read(
                                        inner_id as i32,
                                        self.protocol_state,
                                        Bound::Serverbound,
                                        payload,
                                    ) {
                                        Decoded::Value(p, n2) => PacketResult::CompletePacket(
                                            p,
                                            hdr + length,
                                        ),
                                        Decoded::NeedMoreData => PacketResult::Skipped(n),
                                        Decoded::Malformed => PacketResult::Skipped(n),
                                    }
                                }
                            },
                            None => PacketResult::Skipped(hdr + length),
                        }
                    } else {
                        let inner_id = bytes[hdr];
                        let payload = slice_to_vec(
                            slice_subrange(bytes.as_slice(), hdr + 1, hdr + length),
                        );
                        match self.protocol.read(
                            inner_id as i32,
                            self.protocol_state,
                            Bound::Serverbound,
                            payload,
                        ) {
                            Decoded::Value(p, n2) => PacketResult::CompletePacket(p, hdr + length),
                            Decoded::NeedMoreData => PacketResult::Skipped(n),
                            Decoded::Malformed => PacketResult::Skipped(n),
                        }
                    }
                } else {
                    // Offline packet: the decode's own length drives the advance.
                    let payload = slice_to_vec(slice_subrange(bytes.as_slice(), 1, n));
                    proof {
                        assert(payload@ =~= bytes@.skip(1));
                    }
                    match self.protocol.read(
                        id as i32,
                        State::BedrockRakNetOffline,
                        Bound::Serverbound,
                        payload,
                    ) {
                        Decoded::Value(p, n2) => {
                            proof {
                                crate::protocol::registry::lemma_proto_read_len(
                                    self.protocol,
                                    id as i32,
                                    State::BedrockRakNetOffline,
                                    Bound::Serverbound,
                                    bytes@.skip(1),
                                );
                            }
                            PacketResult::CompletePacket(p, 1 + n2)
                        },
                        Decoded::NeedMoreData => PacketResult::NeedMoreData,
                        Decoded::Malformed => PacketResult::Skipped(n),
                    }
                }
            },
        }
    }

    /// Consumes newly delivered bytes: appends them to the buffer, then
    /// extracts packets until the buffer is exhausted or a packet is
    /// incomplete, applying each packet's state transition before the next
    /// packet is parsed.
    #[verifier::rlimit(100)]
    #[verifier::spinoff_prover]
    pub fn handle_read(&mut self, bytes: &mut Vec<u8>) -> (packets: Vec<Packet>)
        ensures
            ({
                let start = ConnModel { buf: old(self)@.buf + old(bytes)@, ..old(self)@ };
                &&& packets@.map_values(|p: Packet| p@) == spec_drain(start).0
                &&& final(self)@ == spec_drain(start).1
                &&& final(bytes)@.len() == 0
            }),
    {
        let ghost start = ConnModel { buf: self@.buf + bytes@, ..self@ };
        self.unprocessed_buffer.append(bytes);
        proof {
            assert(self@ =~= start);
        }
        let mut packets: Vec<Packet> = Vec::new();
        proof {
            assert(packets@.map_values(|p: Packet| p@) =~= Seq::<PacketModel>::empty());
        }
        loop
            invariant_except_break
                bytes@.len() == 0,
                spec_drain(start).0 == packets@.map_values(|p: Packet| p@) + spec_drain(self@).0,
                spec_drain(start).1 == spec_drain(self@).1,
            ensures
                bytes@.len() == 0,
                spec_drain(start).0 == packets@.map_values(|p: Packet| p@),
                spec_drain(start).1 == self@,
            decreases self@.buf.len(),
        {
            if self.unprocessed_buffer.len() == 0 {
                proof {
                    lemma_drain_stop(self@);
                    assert(packets@.map_values(|p: Packet| p@) + Seq::<PacketModel>::empty()
                        =~= packets@.map_values(|p: Packet| p@));
                }
                break ;
            }
            let ghost pre = self@;
            let r = self.start_packet_read();
            match r {
                PacketResult::CompletePacket(p, consumed) => {
                    let ghost pm = p@;
                    proof {
                        lemma_extract_bounds(pre);
                        lemma_drain_complete(pre, pm, consumed as int);
                    }
                    match p.next_state() {
                        Some(s) => {
                            self.protocol_state = s;
                        },
                        None => {},
                    }
                    vec_advance(&mut self.unprocessed_buffer, consumed);
                    proof {
                        assert(self@ =~= spec_step_model(
                            pre,
                            StepModel::Complete(pm, consumed as int),
                        ));
                    }
                    let ghost old_packets = packets@;
                    packets.push(p);
                    proof {
                        assert(packets@.map_values(|q: Packet| q@) =~= old_packets.map_values(
                            |q: Packet| q@,
                        ) + seq![pm]);
                        assert(old_packets.map_values(|q: Packet| q@) + (seq![pm] + spec_drain(
                            self@,
                        ).0) =~= (old_packets.map_values(|q: Packet| q@) + seq![pm]) + spec_drain(
                            self@,
                        ).0);
                    }
                },
                PacketResult::NeedMoreData => {
                    proof {
                        lemma_extract_more_splits(pre);
                        assert(self@ =~= pre);
                        lemma_drain_stop(self@);
                        assert(packets@.map_values(|p: Packet| p@) + Seq::<PacketModel>::empty()
                            =~= packets@.map_values(|p: Packet| p@));
                    }
                    break ;
                },
                PacketResult::Skipped(nskip) => {
                    proof {
                        lemma_extract_bounds(pre);
                        lemma_drain_skip(pre, nskip as int);
                    }
                    vec_advance(&mut self.unprocessed_buffer, nskip);
                    proof {
                        assert(self@ =~= spec_step_model(pre, StepModel::Skip(nskip as int)));
                    }
                },
            }
        }
        packets
    }

    /// The RakNet datagram header this connection would prepend to its next
    /// outbound reliable datagram: flags, the low 24 bits of the sequence
    /// counter little-endian, reliability 2, and the payload bit length.
    pub open spec fn spec_datagram_header(seq_id: u64, payload_len: nat) -> Seq<u8> {
        let len16 = ((payload_len % 0x10000) * 8) % 0x10000;
        seq![
            0x84u8,
            (seq_id % 256) as u8,
            ((seq_id / 256) % 256) as u8,
            ((seq_id / 65536) % 256) as u8,
            0x40u8,
            (len16 / 256) as u8,
            (len16 % 256) as u8,
            0u8,
            0u8,
            0u8,
        ]
    }

    /// Serializes an outbound packet with this connection's protocol
    /// version. Bedrock connections past the offline handshake get a RakNet
    /// datagram header, and the 24-bit sequence counter advances; otherwise
    /// the framed bytes go out as they are. Returns None when the version's
    /// table cannot write the packet clientbound.
    pub fn send_packet(&mut self, packet: Packet) -> (r: Option<Vec<u8>>)
        ensures
            ({
                let w = crate::protocol::registry::spec_proto_write(
                    old(self)@.protocol,
                    packet@,
                    Bound::Clientbound,
                );
                match (r, w) {
                    (Option::Some(out), Option::Some(framed)) => {
                        if old(self)@.state is BedrockRakNet {
                            &&& out@ == Self::spec_datagram_header(old(self)@.seq_id, framed.len())
                                + framed
                            &&& final(self)@ == (ConnModel {
                                seq_id: ((old(self)@.seq_id + 1) % 0x1000000) as u64,
                                ..old(self)@
                            })
                        } else {
                            &&& out@ == framed
                            &&& final(self)@ == old(self)@
                        }
                    },
                    (Option::None, Option::None) => final(self)@ == old(self)@,
                    _ => false,
                }
            }),
    {
        match self.protocol.write(packet, Bound::Clientbound) {
            Some(framed) => {
                if self.protocol_state == State::BedrockRakNet {
                    let d = self.datagram_sequence_id;
                    let len16 = (((framed.len() as u64) % 0x10000) * 8 % 0x10000) as u16;
                    let mut out: Vec<u8> = Vec::new();
                    out.push(0x84);
                    out.push((d % 256) as u8);
                    out.push(((d / 256) % 256) as u8);
                    out.push(((d / 65536) % 256) as u8);
                    out.push(0x40);
                    out.push((len16 / 256) as u8);
                    out.push((len16 % 256) as u8);
                    out.push(0);
                    out.push(0);
                    out.push(0);
                    proof {
                        assert(out@ =~= Self::spec_datagram_header(d, framed@.len()));
                    }
                    let mut pl = framed;
                    out.append(&mut pl);
                    proof {
                        vstd::arithmetic::div_mod::lemma_add_mod_noop(
                            d as int,
                            1,
                            0x1000000,
                        );
                    }
                    self.datagram_sequence_id = (d % 0x1000000 + 1) % 0x1000000;
                    Some(out)
                } else {
                    Some(framed)
                }
            },
            None => Option::None,
        }
    }
}

} // verus!
