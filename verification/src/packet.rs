use vstd::prelude::*;
use crate::protocol::State;

verus! {

/// Result of one codec read: a decoded value with the number of bytes it
/// consumed, a request for more input, or a rejection of malformed input.
#[verifier::ext_equal]
pub enum Decoded<T> {
    Value(T, usize),
    NeedMoreData,
    Malformed,
}

/// An executable read result agrees with a specification-level read result
/// when both fail the same way, or both succeed with the same byte count and
/// a value whose view is the specified model.
pub open spec fn dec_models<T: View>(r: Decoded<T>, s: Decoded<T::V>) -> bool {
    match (r, s) {
        (Decoded::Value(v, n), Decoded::Value(m, k)) => v@ == m && n == k,
        (Decoded::NeedMoreData, Decoded::NeedMoreData) => true,
        (Decoded::Malformed, Decoded::Malformed) => true,
        _ => false,
    }
}

/// Read a typed field from bytes.
///
/// `spec_read` is the mathematical description of the wire format: it maps a
/// byte sequence to the decoded model and the number of bytes consumed, or to
/// `NeedMoreData` / `Malformed`. The executable `read` is proved to agree with
/// it at every input.
pub trait ReadField: View + Sized {
    spec fn spec_read(b: Seq<u8>) -> Decoded<Self::V>;

    /// A successful read never consumes more bytes than were offered.
    proof fn lemma_read_len(b: Seq<u8>)
        ensures
            Self::spec_read(b) matches Decoded::Value(m, n) ==> n <= b.len(),
    ;

    fn read(bytes: &Vec<u8>, index: usize) -> (r: Decoded<Self>)
        requires
            index <= bytes@.len(),
        ensures
            dec_models(r, Self::spec_read(bytes@.skip(index as int))),
    ;
}

/// Write a typed field to bytes.
///
/// `spec_write` gives the exact byte sequence for a model value; `wf_model`
/// delimits the values the wire format can carry faithfully (bounded lengths,
/// canonical constants).
pub trait WriteField: View + Sized {
    spec fn spec_write(m: Self::V) -> Seq<u8>;

    spec fn wf_model(m: Self::V) -> bool;

    fn write(&self) -> (out: Vec<u8>)
        ensures
            out@ == Self::spec_write(self@),
    ;
}

/// A field that can be both written and read back.
pub trait WireField: ReadField + WriteField {
    /// Reading an encoded well-formed value from the front of any byte
    /// sequence yields that value back and consumes exactly its encoding.
    proof fn lemma_round_trip(m: Self::V, rest: Seq<u8>)
        requires
            Self::wf_model(m),
        ensures
            Self::spec_write(m).len() <= 0x400000,
            Self::spec_read(Self::spec_write(m) + rest) == Decoded::<Self::V>::Value(
                m,
                Self::spec_write(m).len() as usize,
            ),
    ;
}

/// A packet: a named, ordered tuple of typed fields, read and written as the
/// concatenation of its field encodings.
pub trait PacketType: WireField {
    spec fn spec_name() -> Seq<char>;

    /// The protocol-state transition this packet requests, as a function of
    /// its field values. Almost every packet requests none.
    spec fn spec_next_state(m: Self::V) -> Option<State>;

    fn name(&self) -> (r: &str)
        ensures
            r@ == Self::spec_name(),
    ;

    fn next_state(&self) -> (r: Option<State>)
        ensures
            r == Self::spec_next_state(self@),
    ;
}

} // verus!
