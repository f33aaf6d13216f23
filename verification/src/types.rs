use vstd::prelude::*;
use vstd::string::*;
use vstd::slice::{slice_subrange, slice_to_vec};
use vstd::utf8::{decode_utf8, encode_utf8, encode_utf8_decode_utf8, encode_utf8_valid_utf8,
    valid_utf8};
use crate::packet::{dec_models, Decoded, ReadField, WireField, WriteField};

verus! {

// ---------------------------------------------------------------------------
// Big-endian integers
//
// All integer fields are big-endian on the wire. The encoding of a value v in
// n bytes is defined most-significant first; the value of a byte sequence is
// the usual base-256 fold.
// ---------------------------------------------------------------------------

pub open spec fn pow256(n: nat) -> nat
    decreases n,
{
    if n == 0 {
        1
    } else {
        256 * pow256((n - 1) as nat)
    }
}

/// The n-byte big-endian encoding of v (low n bytes of v, most significant first).
pub open spec fn be_enc(v: nat, n: nat) -> Seq<u8>
    decreases n,
{
    if n == 0 {
        Seq::empty()
    } else {
        be_enc(v / 256, (n - 1) as nat) + seq![(v % 256) as u8]
    }
}

/// The value of a big-endian byte sequence.
pub open spec fn be_val(b: Seq<u8>) -> nat
    decreases b.len(),
{
    if b.len() == 0 {
        0
    } else {
        (be_val(b.drop_last()) * 256 + b.last()) as nat
    }
}

pub proof fn lemma_be_enc_len(v: nat, n: nat)
    ensures
        be_enc(v, n).len() == n,
    decreases n,
{
    if n > 0 {
        lemma_be_enc_len(v / 256, (n - 1) as nat);
    }
}

pub proof fn lemma_be_val_bound(b: Seq<u8>)
    ensures
        be_val(b) < pow256(b.len()),
    decreases b.len(),
{
    if b.len() > 0 {
        lemma_be_val_bound(b.drop_last());
        assert(be_val(b.drop_last()) * 256 + 255 < pow256(b.len())) by (nonlinear_arith)
            requires
                be_val(b.drop_last()) < pow256((b.len() - 1) as nat),
                pow256(b.len()) == 256 * pow256((b.len() - 1) as nat),
        ;
    }
}

pub proof fn lemma_be_round_trip(v: nat, n: nat)
    requires
        v < pow256(n),
    ensures
        be_val(be_enc(v, n)) == v,
    decreases n,
{
    if n == 0 {
    } else {
        let q = v / 256;
        assert(q < pow256((n - 1) as nat)) by (nonlinear_arith)
            requires
                v < pow256(n),
                pow256(n) == 256 * pow256((n - 1) as nat),
                q == v / 256,
        ;
        lemma_be_round_trip(q, (n - 1) as nat);
        lemma_be_enc_len(q, (n - 1) as nat);
        assert(be_enc(v, n).drop_last() =~= be_enc(q, (n - 1) as nat));
        assert(be_enc(v, n).last() == (v % 256) as u8);
        assert(q * 256 + v % 256 == v) by (nonlinear_arith)
            requires
                q == v / 256,
                v >= 0,
        ;
    }
}

pub proof fn lemma_pow256_values()
    ensures
        pow256(1) == 0x100,
        pow256(2) == 0x10000,
        pow256(3) == 0x1000000,
        pow256(4) == 0x100000000,
        pow256(8) == 0x10000000000000000,
{
    reveal_with_fuel(pow256, 9);
}

/// Reads the n-byte big-endian integer at `index`.
pub fn be_read(bytes: &Vec<u8>, index: usize, n: usize) -> (v: u64)
    requires
        index + n <= bytes@.len(),
        n <= 8,
    ensures
        v as nat == be_val(bytes@.subrange(index as int, index + n)),
    decreases n,
{
    if n == 0 {
        proof {
            assert(bytes@.subrange(index as int, index as int) =~= Seq::<u8>::empty());
        }
        0
    } else {
        let total = bytes.len();
        let hi = be_read(bytes, index, n - 1);
        let lo = bytes[index + (n - 1)];
        proof {
            let whole = bytes@.subrange(index as int, index + n);
            let front = bytes@.subrange(index as int, index + (n - 1));
            assert(whole.drop_last() =~= front);
            assert(whole.last() == lo);
            lemma_be_val_bound(front);
            lemma_pow256_values();
            assert(pow256(front.len()) <= pow256(7)) by {
                lemma_pow256_le(front.len(), 7);
            }
            reveal_with_fuel(pow256, 9);
            assert(hi < 0x100000000000000);
        }
        hi * 256 + (lo as u64)
    }
}

pub proof fn lemma_pow256_le(a: nat, b: nat)
    requires
        a <= b,
    ensures
        pow256(a) <= pow256(b),
    decreases b,
{
    if a < b && b > 0 {
        lemma_pow256_le(a, (b - 1) as nat);
        assert(pow256(b) == 256 * pow256((b - 1) as nat));
        assert(pow256(a) <= pow256((b - 1) as nat));
        assert(pow256((b - 1) as nat) <= 256 * pow256((b - 1) as nat)) by (nonlinear_arith)
            requires
                pow256((b - 1) as nat) >= 0,
        ;
    }
}

/// Writes v as an n-byte big-endian integer.
pub fn be_write(v: u64, n: usize) -> (out: Vec<u8>)
    requires
        n <= 8,
    ensures
        out@ == be_enc(v as nat, n as nat),
        out@.len() == n,
    decreases n,
{
    if n == 0 {
        let out: Vec<u8> = Vec::new();
        proof {
            assert(out@ =~= be_enc(v as nat, 0));
        }
        out
    } else {
        let mut out = be_write(v / 256, n - 1);
        out.push((v % 256) as u8);
        proof {
            assert(out@ =~= be_enc(v as nat, n as nat));
            lemma_be_enc_len(v as nat, n as nat);
        }
        out
    }
}

// ---------------------------------------------------------------------------
// u8
// ---------------------------------------------------------------------------

impl ReadField for u8 {
    open spec fn spec_read(b: Seq<u8>) -> Decoded<u8> {
        if b.len() < 1 {
            Decoded::NeedMoreData
        } else {
            Decoded::Value(b[0], 1)
        }
    }

    proof fn lemma_read_len(b: Seq<u8>) {
    }

    fn read(bytes: &Vec<u8>, index: usize) -> (r: Decoded<u8>) {
        if bytes.len() - index < 1 {
            Decoded::NeedMoreData
        } else {
            Decoded::Value(bytes[index], 1)
        }
    }
}

impl WriteField for u8 {
    open spec fn spec_write(m: u8) -> Seq<u8> {
        seq![m]
    }

    open spec fn wf_model(m: u8) -> bool {
        true
    }

    fn write(&self) -> (out: Vec<u8>) {
        let mut out: Vec<u8> = Vec::new();
        out.push(*self);
        proof {
            assert(out@ =~= seq![*self]);
        }
        out
    }
}

impl WireField for u8 {
    proof fn lemma_round_trip(m: u8, rest: Seq<u8>) {
        let w = Self::spec_write(m);
        assert((w + rest)[0] == m);
        assert(Self::spec_read(w + rest) == Decoded::<u8>::Value(m, 1));
    }
}

// ---------------------------------------------------------------------------
// u16, u32, u64
// ---------------------------------------------------------------------------

impl ReadField for u16 {
    open spec fn spec_read(b: Seq<u8>) -> Decoded<u16> {
        if b.len() < 2 {
            Decoded::NeedMoreData
        } else {
            Decoded::Value(be_val(b.take(2)) as u16, 2)
        }
    }

    proof fn lemma_read_len(b: Seq<u8>) {
    }

    fn read(bytes: &Vec<u8>, index: usize) -> (r: Decoded<u16>) {
        if bytes.len() - index < 2 {
            Decoded::NeedMoreData
        } else {
            let v = be_read(bytes, index, 2);
            proof {
                let b = bytes@.skip(index as int);
                assert(bytes@.subrange(index as int, index + 2) =~= b.take(2));
                lemma_be_val_bound(b.take(2));
                lemma_pow256_values();
            }
            Decoded::Value(v as u16, 2)
        }
    }
}

impl WriteField for u16 {
    open spec fn spec_write(m: u16) -> Seq<u8> {
        be_enc(m as nat, 2)
    }

    open spec fn wf_model(m: u16) -> bool {
        true
    }

    fn write(&self) -> (out: Vec<u8>) {
        be_write(*self as u64, 2)
    }
}

impl WireField for u16 {
    proof fn lemma_round_trip(m: u16, rest: Seq<u8>) {
        lemma_pow256_values();
        lemma_be_rt_general(m as nat, 2, rest);
    }
}

impl ReadField for u32 {
    open spec fn spec_read(b: Seq<u8>) -> Decoded<u32> {
        if b.len() < 4 {
            Decoded::NeedMoreData
        } else {
            Decoded::Value(be_val(b.take(4)) as u32, 4)
        }
    }

    proof fn lemma_read_len(b: Seq<u8>) {
    }

    fn read(bytes: &Vec<u8>, index: usize) -> (r: Decoded<u32>) {
        if bytes.len() - index < 4 {
            Decoded::NeedMoreData
        } else {
            let v = be_read(bytes, index, 4);
            proof {
                let b = bytes@.skip(index as int);
                assert(bytes@.subrange(index as int, index + 4) =~= b.take(4));
                lemma_be_val_bound(b.take(4));
                lemma_pow256_values();
            }
            Decoded::Value(v as u32, 4)
        }
    }
}

impl WriteField for u32 {
    open spec fn spec_write(m: u32) -> Seq<u8> {
        be_enc(m as nat, 4)
    }

    open spec fn wf_model(m: u32) -> bool {
        true
    }

    fn write(&self) -> (out: Vec<u8>) {
        be_write(*self as u64, 4)
    }
}

impl WireField for u32 {
    proof fn lemma_round_trip(m: u32, rest: Seq<u8>) {
        lemma_pow256_values();
        lemma_be_rt_general(m as nat, 4, rest);
    }
}

impl ReadField for u64 {
    open spec fn spec_read(b: Seq<u8>) -> Decoded<u64> {
        if b.len() < 8 {
            Decoded::NeedMoreData
        } else {
            Decoded::Value(be_val(b.take(8)) as u64, 8)
        }
    }

    proof fn lemma_read_len(b: Seq<u8>) {
    }

    fn read(bytes: &Vec<u8>, index: usize) -> (r: Decoded<u64>) {
        if bytes.len() - index < 8 {
            Decoded::NeedMoreData
        } else {
            let v = be_read(bytes, index, 8);
            proof {
                let b = bytes@.skip(index as int);
                assert(bytes@.subrange(index as int, index + 8) =~= b.take(8));
                lemma_be_val_bound(b.take(8));
                lemma_pow256_values();
            }
            Decoded::Value(v, 8)
        }
    }
}

impl WriteField for u64 {
    open spec fn spec_write(m: u64) -> Seq<u8> {
        be_enc(m as nat, 8)
    }

    open spec fn wf_model(m: u64) -> bool {
        true
    }

    fn write(&self) -> (out: Vec<u8>) {
        be_write(*self, 8)
    }
}

impl WireField for u64 {
    proof fn lemma_round_trip(m: u64, rest: Seq<u8>) {
        lemma_pow256_values();
        lemma_be_rt_general(m as nat, 8, rest);
    }
}

// ---------------------------------------------------------------------------
// VarInt: 1-5 byte variable-length signed 32-bit integer. Each byte carries 7
// payload bits, least-significant group first; the high bit of a byte marks a
// continuation. Signed values are encoded through their two's-complement bit
// pattern, so negative values always take five bytes. A fifth byte whose top
// four bits are set is malformed.
// ---------------------------------------------------------------------------

#[derive(Copy, Clone, Debug)]
pub struct VarInt(pub i32);

impl View for VarInt {
    type V = i32;

    open spec fn view(&self) -> i32 {
        self.0
    }
}

/// The two's-complement bit pattern of v, as an unsigned value.
pub open spec fn i32_to_u32(v: i32) -> u32 {
    if v >= 0 {
        v as u32
    } else {
        (v + 0x100000000) as u32
    }
}

/// The signed value whose two's-complement bit pattern is x.
pub open spec fn u32_to_i32(x: u32) -> i32 {
    if x < 0x80000000 {
        x as i32
    } else {
        (x - 0x100000000) as i32
    }
}

pub proof fn lemma_i32_u32_inverse(v: i32)
    ensures
        u32_to_i32(i32_to_u32(v)) == v,
{
}

fn i32_to_u32_exec(v: i32) -> (x: u32)
    ensures
        x == i32_to_u32(v),
{
    if v >= 0 {
        v as u32
    } else {
        ((v as i64) + 0x100000000i64) as u32
    }
}

fn u32_to_i32_exec(x: u32) -> (v: i32)
    ensures
        v == u32_to_i32(x),
{
    if x < 0x80000000 {
        x as i32
    } else {
        ((x as i64) - 0x100000000i64) as i32
    }
}

pub open spec fn pow128(i: nat) -> nat
    decreases i,
{
    if i == 0 {
        1
    } else {
        128 * pow128((i - 1) as nat)
    }
}

pub proof fn lemma_pow128_values()
    ensures
        pow128(0) == 1,
        pow128(1) == 128,
        pow128(2) == 0x4000,
        pow128(3) == 0x200000,
        pow128(4) == 0x10000000,
        pow128(5) == 0x800000000,
{
    reveal_with_fuel(pow128, 6);
}

/// The VarInt encoding of an unsigned 32-bit pattern: 7-bit groups, least
/// significant first, continuation bit on every byte but the last.
pub open spec fn varint_enc_u(x: nat) -> Seq<u8>
    decreases x,
{
    if x < 128 {
        seq![x as u8]
    } else {
        seq![(128 + x % 128) as u8] + varint_enc_u(x / 128)
    }
}

pub open spec fn varint_enc(v: i32) -> Seq<u8> {
    varint_enc_u(i32_to_u32(v) as nat)
}

/// One step of the VarInt reader: at byte position i, with the value of the
/// first i payload groups already accumulated in acc.
pub open spec fn varint_dec_rec(b: Seq<u8>, i: nat, acc: nat) -> Decoded<i32>
    decreases 5 - i,
{
    if i >= 5 {
        Decoded::Malformed
    } else if b.len() <= i {
        Decoded::NeedMoreData
    } else {
        let byte = b[i as int];
        if i == 4 && byte >= 16 {
            Decoded::Malformed
        } else {
            let acc2 = (acc + (byte % 128) * pow128(i)) as nat;
            if byte < 128 {
                Decoded::Value(u32_to_i32(acc2 as u32), (i + 1) as usize)
            } else {
                varint_dec_rec(b, (i + 1) as nat, acc2)
            }
        }
    }
}

pub open spec fn varint_dec(b: Seq<u8>) -> Decoded<i32> {
    varint_dec_rec(b, 0, 0)
}

pub proof fn lemma_varint_dec_rec_len(b: Seq<u8>, i: nat, acc: nat)
    ensures
        varint_dec_rec(b, i, acc) matches Decoded::Value(m, n) ==> i + 1 <= n <= b.len(),
    decreases 5 - i,
{
    if i < 5 && b.len() > i {
        let byte = b[i as int];
        if !(i == 4 && byte >= 16) && byte >= 128 {
            lemma_varint_dec_rec_len(b, (i + 1) as nat, (acc + (byte % 128) * pow128(i)) as nat);
        }
    }
}

/// A malformed VarInt is only ever detected at its fifth byte, so the buffer
/// holds at least five bytes.
pub proof fn lemma_varint_dec_malformed_len(b: Seq<u8>, i: nat, acc: nat)
    requires
        i <= 4,
        varint_dec_rec(b, i, acc) is Malformed,
    ensures
        b.len() >= 5,
    decreases 5 - i,
{
    let byte = b[i as int];
    if i == 4 && byte >= 16 {
    } else {
        lemma_varint_dec_malformed_len(b, (i + 1) as nat, (acc + (byte % 128) * pow128(i)) as nat);
    }
}

/// A read that ran out of bytes consumes, on any extension of the buffer,
/// more than the original buffer held.
pub proof fn lemma_varint_dec_more(b: Seq<u8>, ext: Seq<u8>, i: nat, acc: nat)
    requires
        varint_dec_rec(b, i, acc) is NeedMoreData,
    ensures
        varint_dec_rec(b + ext, i, acc) matches Decoded::Value(m, n) ==> n > b.len(),
    decreases 5 - i,
{
    if i < 5 {
        if b.len() <= i {
            lemma_varint_dec_rec_len(b + ext, i, acc);
        } else {
            let byte = b[i as int];
            assert((b + ext)[i as int] == byte);
            if !(i == 4 && byte >= 16) && byte >= 128 {
                lemma_varint_dec_more(b, ext, (i + 1) as nat, (acc + (byte % 128) * pow128(
                    i,
                )) as nat);
            }
        }
    }
}

pub proof fn lemma_varint_enc_u_len(x: nat)
    ensures
        1 <= varint_enc_u(x).len(),
        x < 0x800000000 ==> varint_enc_u(x).len() <= 5,
    decreases x,
{
    lemma_pow128_values();
    lemma_varint_enc_len_bound(x, 5);
    if x >= 128 {
        lemma_varint_enc_u_len(x / 128);
    }
}

pub proof fn lemma_varint_enc_len_bound(x: nat, k: nat)
    requires
        k >= 1,
    ensures
        x < pow128(k) ==> varint_enc_u(x).len() <= k,
    decreases k,
{
    lemma_pow128_values();
    if x >= 128 && k >= 2 && x < pow128(k) {
        assert(x / 128 < pow128((k - 1) as nat)) by (nonlinear_arith)
            requires
                x < pow128(k),
                pow128(k) == 128 * pow128((k - 1) as nat),
        ;
        lemma_varint_enc_len_bound(x / 128, (k - 1) as nat);
    }
    if x >= 128 && k == 1 {
        assert(pow128(1) == 128);
    }
}

/// Decoding an encoded VarInt bit pattern from position i of a buffer, with
/// acc holding the value of the groups before position i.
pub proof fn lemma_varint_dec_enc(b: Seq<u8>, i: nat, acc: nat, x: nat, rest: Seq<u8>)
    requires
        i <= 4,
        acc < pow128(i),
        acc + x * pow128(i) < 0x100000000,
        b.len() >= i,
        b.skip(i as int) == varint_enc_u(x) + rest,
    ensures
        varint_dec_rec(b, i, acc) == Decoded::<i32>::Value(
            u32_to_i32(((acc + x * pow128(i)) as nat) as u32),
            (i + varint_enc_u(x).len()) as usize,
        ),
    decreases x,
{
    lemma_pow128_values();
    let enc = varint_enc_u(x);
    lemma_varint_enc_u_len(x);
    assert(b.skip(i as int).len() == b.len() - i);
    assert(b.len() > i);
    assert(b[i as int] == b.skip(i as int)[0]);
    if x < 128 {
        let byte = x as u8;
        assert(enc == seq![byte]);
        assert(b[i as int] == byte);
        if i == 4 {
            assert(x < 16) by (nonlinear_arith)
                requires
                    acc + x * pow128(4) < 0x100000000,
                    pow128(4) == 0x10000000,
                    acc >= 0,
            ;
        }
        assert((byte % 128) == x);
        assert(varint_dec_rec(b, i, acc) == Decoded::<i32>::Value(
            u32_to_i32(((acc + x * pow128(i)) as nat) as u32),
            (i + 1) as usize,
        ));
    } else {
        let byte = (128 + x % 128) as u8;
        assert(enc == seq![byte] + varint_enc_u(x / 128));
        assert(b[i as int] == byte);
        assert(i < 4) by (nonlinear_arith)
            requires
                acc + x * pow128(i) < 0x100000000,
                x >= 128,
                acc >= 0,
                i <= 4,
                pow128(4) == 0x10000000,
                i == 4 ==> pow128(i) == pow128(4),
        ;
        assert(byte >= 128);
        let low = (byte % 128) as nat;
        assert(low == x % 128);
        let acc2 = (acc + low * pow128(i)) as nat;
        assert(acc2 < pow128((i + 1) as nat)) by (nonlinear_arith)
            requires
                acc < pow128(i),
                low <= 127,
                acc2 == acc + low * pow128(i),
                pow128((i + 1) as nat) == 128 * pow128(i),
                pow128(i) >= 1,
        ;
        assert(pow128((i + 1) as nat) == 128 * pow128(i));
        assert(acc2 + (x / 128) * pow128((i + 1) as nat) == acc + x * pow128(i)) by (nonlinear_arith)
            requires
                acc2 == acc + (x % 128) * pow128(i),
                low == x % 128,
                pow128((i + 1) as nat) == 128 * pow128(i),
                x >= 0,
        ;
        assert(b.skip(i + 1 as int) =~= b.skip(i as int).skip(1));
        assert(b.skip(i as int).skip(1) =~= varint_enc_u(x / 128) + rest);
        lemma_varint_dec_enc(b, (i + 1) as nat, acc2, x / 128, rest);
        assert(varint_dec_rec(b, i, acc) == varint_dec_rec(b, (i + 1) as nat, acc2));
        lemma_varint_enc_u_len(x / 128);
        assert(enc.len() == 1 + varint_enc_u(x / 128).len());
    }
}

/// A decode that did not ask for more bytes gives the same outcome on any
/// extension of the buffer.
pub proof fn lemma_varint_dec_mono(b: Seq<u8>, ext: Seq<u8>, i: nat, acc: nat)
    requires
        !(varint_dec_rec(b, i, acc) is NeedMoreData),
    ensures
        varint_dec_rec(b + ext, i, acc) == varint_dec_rec(b, i, acc),
    decreases 5 - i,
{
    if i < 5 {
        assert(b.len() > i);
        assert((b + ext)[i as int] == b[i as int]);
        let byte = b[i as int];
        if !(i == 4 && byte >= 16) && byte >= 128 {
            lemma_varint_dec_mono(b, ext, (i + 1) as nat, (acc + (byte % 128) * pow128(i)) as nat);
        }
    }
}

fn varint_read_at(bytes: &Vec<u8>, index: usize, i: usize, acc: u32, mult: u32) -> (r: Decoded<
    VarInt,
>)
    requires
        index <= bytes@.len(),
        i <= 4,
        mult == pow128(i as nat),
        acc < mult,
    ensures
        dec_models(r, varint_dec_rec(bytes@.skip(index as int), i as nat, acc as nat)),
    decreases 5 - i,
{
    proof {
        lemma_pow128_values();
    }
    let total = bytes.len();
    if total - index <= i {
        Decoded::NeedMoreData
    } else {
        let byte = bytes[index + i];
        proof {
            assert(bytes@.skip(index as int)[i as int] == bytes@[index + i]);
        }
        if i == 4 && byte >= 16 {
            Decoded::Malformed
        } else {
            let low = byte % 128;
            proof {
                assert(i == 4 ==> low < 16);
                assert((low as nat) * (mult as nat) <= 127 * pow128(3) && acc < pow128(3) || i
                    == 4) by (nonlinear_arith)
                    requires
                        i <= 4,
                        low <= 127,
                        mult == pow128(i as nat),
                        acc < mult,
                        i <= 3 ==> mult <= pow128(3),
                        pow128(3) == 0x200000,
                    ;
                if i <= 3 {
                    assert(mult <= 0x200000) by {
                        lemma_pow128_le(i as nat, 3);
                    }
                    assert((low as nat) * (mult as nat) <= 127 * 0x200000) by (nonlinear_arith)
                        requires
                            low <= 127,
                            mult <= 0x200000,
                            low >= 0,
                            mult >= 0,
                    ;
                } else {
                    assert(mult == 0x10000000);
                    assert((low as nat) * (mult as nat) <= 15 * 0x10000000) by (nonlinear_arith)
                        requires
                            low <= 15,
                            mult == 0x10000000,
                    ;
                }
            }
            let acc2 = acc + (low as u32) * mult;
            if byte < 128 {
                Decoded::Value(VarInt(u32_to_i32_exec(acc2)), i + 1)
            } else {
                proof {
                    assert(i < 4);
                    assert((acc2 as nat) < pow128((i + 1) as nat)) by (nonlinear_arith)
                        requires
                            acc < mult,
                            low <= 127,
                            acc2 == acc + low * mult,
                            mult == pow128(i as nat),
                            pow128((i + 1) as nat) == 128 * pow128(i as nat),
                    ;
                    lemma_pow128_le((i + 1) as nat, 4);
                }
                varint_read_at(bytes, index, i + 1, acc2, mult * 128)
            }
        }
    }
}

pub proof fn lemma_pow128_le(a: nat, b: nat)
    requires
        a <= b,
    ensures
        pow128(a) <= pow128(b),
    decreases b,
{
    if a < b && b > 0 {
        lemma_pow128_le(a, (b - 1) as nat);
        assert(pow128((b - 1) as nat) <= 128 * pow128((b - 1) as nat)) by (nonlinear_arith)
            requires
                pow128((b - 1) as nat) >= 0,
        ;
    }
}

pub(crate) fn varint_write_u(x: u32) -> (out: Vec<u8>)
    ensures
        out@ == varint_enc_u(x as nat),
    decreases x,
{
    if x < 128 {
        let mut out: Vec<u8> = Vec::new();
        out.push(x as u8);
        proof {
            assert(out@ =~= seq![x as u8]);
        }
        out
    } else {
        let first = 128 + (x % 128) as u8;
        let mut out: Vec<u8> = Vec::new();
        out.push(first);
        let mut tail = varint_write_u(x / 128);
        out.append(&mut tail);
        proof {
            assert(out@ =~= seq![first] + varint_enc_u((x / 128) as nat));
        }
        out
    }
}

impl ReadField for VarInt {
    open spec fn spec_read(b: Seq<u8>) -> Decoded<i32> {
        varint_dec_rec(b, 0, 0)
    }

    proof fn lemma_read_len(b: Seq<u8>) {
        lemma_varint_dec_rec_len(b, 0, 0);
    }

    fn read(bytes: &Vec<u8>, index: usize) -> (r: Decoded<VarInt>) {
        proof {
            lemma_pow128_values();
        }
        varint_read_at(bytes, index, 0, 0, 1)
    }
}

impl WriteField for VarInt {
    open spec fn spec_write(m: i32) -> Seq<u8> {
        varint_enc(m)
    }

    open spec fn wf_model(m: i32) -> bool {
        true
    }

    fn write(&self) -> (out: Vec<u8>) {
        varint_write_u(i32_to_u32_exec(self.0))
    }
}

impl WireField for VarInt {
    proof fn lemma_round_trip(m: i32, rest: Seq<u8>) {
        let x = i32_to_u32(m) as nat;
        let enc = varint_enc_u(x);
        lemma_pow128_values();
        lemma_varint_enc_u_len(x);
        assert((enc + rest).skip(0) =~= enc + rest);
        lemma_varint_dec_enc(enc + rest, 0, 0, x, rest);
        lemma_i32_u32_inverse(m);
        assert(x * 1 == x) by (nonlinear_arith);
    }
}

/// Round trip for the signed 32-bit VarInt codec: reading back a written
/// value yields the value and consumes its encoding, which is one to five
/// bytes long. This holds for every i32, negative values included.
pub proof fn lemma_varint_round_trip(v: i32, rest: Seq<u8>)
    ensures
        1 <= varint_enc(v).len() <= 5,
        varint_dec(varint_enc(v) + rest) == Decoded::<i32>::Value(
            v,
            varint_enc(v).len() as usize,
        ),
{
    lemma_pow128_values();
    lemma_varint_enc_u_len(i32_to_u32(v) as nat);
    VarInt::lemma_round_trip(v, rest);
}

// ---------------------------------------------------------------------------
// Length-prefixed strings and byte arrays
// ---------------------------------------------------------------------------

/// Relies on String::from_utf8: it returns Ok exactly when the bytes are
/// valid UTF-8, and the returned string decodes those very bytes.
#[verifier::external_body]
fn bytes_to_string(v: Vec<u8>) -> (r: Option<String>)
    ensures
        r matches Some(s) ==> valid_utf8(v@) && s@ == decode_utf8(v@),
        r is None ==> !valid_utf8(v@),
{
    match String::from_utf8(v) {
        Ok(s) => Some(s),
        Err(_) => None,
    }
}

/// A string framed by a VarInt byte count; used by the Java protocol.
#[derive(Clone, Debug)]
pub struct VarIntLengthPrefixedString(pub String);

impl View for VarIntLengthPrefixedString {
    type V = Seq<char>;

    open spec fn view(&self) -> Seq<char> {
        self.0@
    }
}

impl ReadField for VarIntLengthPrefixedString {
    open spec fn spec_read(b: Seq<u8>) -> Decoded<Seq<char>> {
        match varint_dec(b) {
            Decoded::Value(l, n1) => if l < 0 || l > 65536 {
                Decoded::Malformed
            } else if b.len() < n1 + l {
                Decoded::NeedMoreData
            } else {
                let content = b.subrange(n1 as int, n1 + l);
                if valid_utf8(content) {
                    Decoded::Value(decode_utf8(content), (n1 + l) as usize)
                } else {
                    Decoded::Malformed
                }
            },
            Decoded::NeedMoreData => Decoded::NeedMoreData,
            Decoded::Malformed => Decoded::Malformed,
        }
    }

    proof fn lemma_read_len(b: Seq<u8>) {
        lemma_varint_dec_rec_len(b, 0, 0);
    }

    fn read(bytes: &Vec<u8>, index: usize) -> (r: Decoded<VarIntLengthPrefixedString>) {
        let ghost b = bytes@.skip(index as int);
        match VarInt::read(bytes, index) {
            Decoded::Value(l, n1) => {
                proof {
                    lemma_varint_dec_rec_len(b, 0, 0);
                }
                if l.0 < 0 || l.0 > 65536 {
                    Decoded::Malformed
                } else {
                    let lu = l.0 as usize;
                    if bytes.len() - index - n1 < lu {
                        Decoded::NeedMoreData
                    } else {
                        let start = index + n1;
                        let content = slice_to_vec(slice_subrange(bytes.as_slice(), start, start
                            + lu));
                        proof {
                            assert(content@ =~= b.subrange(n1 as int, n1 + l.0));
                        }
                        match bytes_to_string(content) {
                            Some(s) => Decoded::Value(
                                VarIntLengthPrefixedString(s),
                                n1 + lu,
                            ),
                            None => Decoded::Malformed,
                        }
                    }
                }
            },
            Decoded::NeedMoreData => Decoded::NeedMoreData,
            Decoded::Malformed => Decoded::Malformed,
        }
    }
}

impl WriteField for VarIntLengthPrefixedString {
    open spec fn spec_write(m: Seq<char>) -> Seq<u8> {
        varint_enc_u((encode_utf8(m).len() % 0x100000000) as nat) + encode_utf8(m)
    }

    open spec fn wf_model(m: Seq<char>) -> bool {
        encode_utf8(m).len() <= 65536
    }

    fn write(&self) -> (out: Vec<u8>) {
        let mut content = self.0.as_str().as_bytes_vec();
        let l32 = ((content.len() as u64) % 0x100000000u64) as u32;
        let mut out = varint_write_u(l32);
        out.append(&mut content);
        out
    }
}

impl WireField for VarIntLengthPrefixedString {
    proof fn lemma_round_trip(m: Seq<char>, rest: Seq<u8>) {
        let content = encode_utf8(m);
        let l = content.len();
        let enc = varint_enc_u(l as nat);
        let whole = Self::spec_write(m) + rest;
        lemma_pow128_values();
        lemma_varint_enc_u_len(l as nat);
        assert(whole.skip(0) =~= enc + (content + rest));
        lemma_varint_dec_enc(whole, 0, 0, l as nat, content + rest);
        assert(l * 1 == l) by (nonlinear_arith);
        assert(u32_to_i32((l as nat) as u32) == l);
        let n1 = enc.len();
        assert(whole.subrange(n1 as int, (n1 + l) as int) =~= content);
        encode_utf8_valid_utf8(m);
        encode_utf8_decode_utf8(m);
    }
}

/// A byte array framed by a VarInt byte count; used by the Java protocol.
#[derive(Clone, Debug)]
pub struct VarIntLengthPrefixedByteArray(pub Vec<u8>);

impl View for VarIntLengthPrefixedByteArray {
    type V = Seq<u8>;

    open spec fn view(&self) -> Seq<u8> {
        self.0@
    }
}

impl ReadField for VarIntLengthPrefixedByteArray {
    open spec fn spec_read(b: Seq<u8>) -> Decoded<Seq<u8>> {
        match varint_dec(b) {
            Decoded::Value(l, n1) => if l < 0 {
                Decoded::Malformed
            } else if b.len() < n1 + l {
                Decoded::NeedMoreData
            } else {
                Decoded::Value(b.subrange(n1 as int, n1 + l), (n1 + l) as usize)
            },
            Decoded::NeedMoreData => Decoded::NeedMoreData,
            Decoded::Malformed => Decoded::Malformed,
        }
    }

    proof fn lemma_read_len(b: Seq<u8>) {
        lemma_varint_dec_rec_len(b, 0, 0);
    }

    fn read(bytes: &Vec<u8>, index: usize) -> (r: Decoded<VarIntLengthPrefixedByteArray>) {
        let ghost b = bytes@.skip(index as int);
        match VarInt::read(bytes, index) {
            Decoded::Value(l, n1) => {
                proof {
                    lemma_varint_dec_rec_len(b, 0, 0);
                }
                if l.0 < 0 {
                    Decoded::Malformed
                } else {
                    let lu = l.0 as usize;
                    if bytes.len() - index - n1 < lu {
                        Decoded::NeedMoreData
                    } else {
                        let start = index + n1;
                        let content = slice_to_vec(slice_subrange(bytes.as_slice(), start, start
                            + lu));
                        proof {
                            assert(content@ =~= b.subrange(n1 as int, n1 + l.0));
                        }
                        Decoded::Value(VarIntLengthPrefixedByteArray(content), n1 + lu)
                    }
                }
            },
            Decoded::NeedMoreData => Decoded::NeedMoreData,
            Decoded::Malformed => Decoded::Malformed,
        }
    }
}

impl WriteField for VarIntLengthPrefixedByteArray {
    open spec fn spec_write(m: Seq<u8>) -> Seq<u8> {
        varint_enc_u((m.len() % 0x100000000) as nat) + m
    }

    open spec fn wf_model(m: Seq<u8>) -> bool {
        m.len() <= 65536
    }

    fn write(&self) -> (out: Vec<u8>) {
        let l32 = ((self.0.len() as u64) % 0x100000000u64) as u32;
        let mut out = varint_write_u(l32);
        let mut content = self.0.clone();
        out.append(&mut content);
        out
    }
}

impl WireField for VarIntLengthPrefixedByteArray {
    proof fn lemma_round_trip(m: Seq<u8>, rest: Seq<u8>) {
        let l = m.len();
        let enc = varint_enc_u(l as nat);
        let whole = Self::spec_write(m) + rest;
        lemma_pow128_values();
        lemma_varint_enc_u_len(l as nat);
        assert(whole.skip(0) =~= enc + (m + rest));
        lemma_varint_dec_enc(whole, 0, 0, l as nat, m + rest);
        assert(l * 1 == l) by (nonlinear_arith);
        assert(u32_to_i32((l as nat) as u32) == l);
        let n1 = enc.len();
        assert(whole.subrange(n1 as int, (n1 + l) as int) =~= m);
    }
}

/// A string framed by a big-endian unsigned 16 byte count; used by the
/// Bedrock protocol.
#[derive(Clone, Debug)]
pub struct ShortLengthPrefixedString(pub String);

impl View for ShortLengthPrefixedString {
    type V = Seq<char>;

    open spec fn view(&self) -> Seq<char> {
        self.0@
    }
}

impl ReadField for ShortLengthPrefixedString {
    open spec fn spec_read(b: Seq<u8>) -> Decoded<Seq<char>> {
        if b.len() < 2 {
            Decoded::NeedMoreData
        } else {
            let l = be_val(b.take(2));
            if b.len() < 2 + l {
                Decoded::NeedMoreData
            } else {
                let content = b.subrange(2, (2 + l) as int);
                if valid_utf8(content) {
                    Decoded::Value(decode_utf8(content), (2 + l) as usize)
                } else {
                    Decoded::Malformed
                }
            }
        }
    }

    proof fn lemma_read_len(b: Seq<u8>) {
    }

    fn read(bytes: &Vec<u8>, index: usize) -> (r: Decoded<ShortLengthPrefixedString>) {
        let ghost b = bytes@.skip(index as int);
        if bytes.len() - index < 2 {
            return Decoded::NeedMoreData;
        }
        let l = be_read(bytes, index, 2) as usize;
        proof {
            assert(bytes@.subrange(index as int, index + 2) =~= b.take(2));
            lemma_be_val_bound(b.take(2));
            lemma_pow256_values();
        }
        if bytes.len() - index - 2 < l {
            return Decoded::NeedMoreData;
        }
        let start = index + 2;
        let content = slice_to_vec(slice_subrange(bytes.as_slice(), start, start + l));
        proof {
            assert(content@ =~= b.subrange(2, 2 + l));
        }
        match bytes_to_string(content) {
            Some(s) => Decoded::Value(ShortLengthPrefixedString(s), 2 + l),
            None => Decoded::Malformed,
        }
    }
}

impl WriteField for ShortLengthPrefixedString {
    open spec fn spec_write(m: Seq<char>) -> Seq<u8> {
        be_enc(encode_utf8(m).len(), 2) + encode_utf8(m)
    }

    open spec fn wf_model(m: Seq<char>) -> bool {
        encode_utf8(m).len() <= 65535
    }

    fn write(&self) -> (out: Vec<u8>) {
        let mut content = self.0.as_str().as_bytes_vec();
        let mut out = be_write(content.len() as u64, 2);
        out.append(&mut content);
        out
    }
}

impl WireField for ShortLengthPrefixedString {
    proof fn lemma_round_trip(m: Seq<char>, rest: Seq<u8>) {
        let content = encode_utf8(m);
        let l = content.len();
        let whole = Self::spec_write(m) + rest;
        lemma_pow256_values();
        lemma_be_rt_general(l as nat, 2, content + rest);
        assert(whole =~= be_enc(l as nat, 2) + (content + rest));
        lemma_be_enc_len(l as nat, 2);
        assert(whole.take(2) =~= (be_enc(l as nat, 2) + (content + rest)).take(2));
        assert(whole.subrange(2, (2 + l) as int) =~= content);
        encode_utf8_valid_utf8(m);
        encode_utf8_decode_utf8(m);
    }
}

// ---------------------------------------------------------------------------
// RakNet constants: the 16-byte offline-message magic and a 46-byte zero pad
// ---------------------------------------------------------------------------

/// The fixed 16-byte constant that identifies RakNet offline packets.
pub open spec fn magic_bytes() -> Seq<u8> {
    seq![
        0x00u8,
        0xffu8,
        0xffu8,
        0x00u8,
        0xfeu8,
        0xfeu8,
        0xfeu8,
        0xfeu8,
        0xfdu8,
        0xfdu8,
        0xfdu8,
        0xfdu8,
        0x12u8,
        0x34u8,
        0x56u8,
        0x78u8,
    ]
}

pub open spec fn zeros(n: nat) -> Seq<u8> {
    Seq::new(n, |i: int| 0u8)
}

/// Builds a vector of n zero bytes.
fn zero_vec(n: usize) -> (out: Vec<u8>)
    ensures
        out@ == zeros(n as nat),
{
    let mut out: Vec<u8> = Vec::new();
    let mut j: usize = 0;
    while j < n
        invariant
            j <= n,
            out@ == zeros(j as nat),
        decreases n - j,
    {
        out.push(0);
        j = j + 1;
        proof {
            assert(out@ =~= zeros(j as nat));
        }
    }
    out
}

/// The RakNet magic constant, as a value.
pub fn raknet_magic() -> (m: RakNetMagic)
    ensures
        m@ == magic_bytes(),
{
    let mut v: Vec<u8> = Vec::new();
    v.push(0x00);
    v.push(0xff);
    v.push(0xff);
    v.push(0x00);
    v.push(0xfe);
    v.push(0xfe);
    v.push(0xfe);
    v.push(0xfe);
    v.push(0xfd);
    v.push(0xfd);
    v.push(0xfd);
    v.push(0xfd);
    v.push(0x12);
    v.push(0x34);
    v.push(0x56);
    v.push(0x78);
    proof {
        assert(v@ =~= magic_bytes());
    }
    RakNetMagic(v)
}

/// Carrier for the RakNet magic. The reader consumes 16 bytes without
/// validating them and yields the canonical constant; the writer always
/// emits the constant.
#[derive(Clone, Debug)]
pub struct RakNetMagic(pub Vec<u8>);

impl View for RakNetMagic {
    type V = Seq<u8>;

    open spec fn view(&self) -> Seq<u8> {
        self.0@
    }
}

impl ReadField for RakNetMagic {
    open spec fn spec_read(b: Seq<u8>) -> Decoded<Seq<u8>> {
        if b.len() < 16 {
            Decoded::NeedMoreData
        } else {
            Decoded::Value(magic_bytes(), 16)
        }
    }

    proof fn lemma_read_len(b: Seq<u8>) {
    }

    fn read(bytes: &Vec<u8>, index: usize) -> (r: Decoded<RakNetMagic>) {
        if bytes.len() - index < 16 {
            Decoded::NeedMoreData
        } else {
            Decoded::Value(raknet_magic(), 16)
        }
    }
}

impl WriteField for RakNetMagic {
    open spec fn spec_write(m: Seq<u8>) -> Seq<u8> {
        magic_bytes()
    }

    open spec fn wf_model(m: Seq<u8>) -> bool {
        m == magic_bytes()
    }

    fn write(&self) -> (out: Vec<u8>) {
        let m = raknet_magic();
        m.0
    }
}

impl WireField for RakNetMagic {
    proof fn lemma_round_trip(m: Seq<u8>, rest: Seq<u8>) {
        assert(magic_bytes().len() == 16);
        assert((magic_bytes() + rest).len() >= 16);
    }
}

/// It's just 46 zeros. No more, no less. The reader ignores the contents,
/// the writer emits zeros.
#[derive(Clone, Debug)]
pub struct FortySixZeros(pub Vec<u8>);

impl View for FortySixZeros {
    type V = Seq<u8>;

    open spec fn view(&self) -> Seq<u8> {
        self.0@
    }
}

impl ReadField for FortySixZeros {
    open spec fn spec_read(b: Seq<u8>) -> Decoded<Seq<u8>> {
        if b.len() < 46 {
            Decoded::NeedMoreData
        } else {
            Decoded::Value(zeros(46), 46)
        }
    }

    proof fn lemma_read_len(b: Seq<u8>) {
    }

    fn read(bytes: &Vec<u8>, index: usize) -> (r: Decoded<FortySixZeros>) {
        if bytes.len() - index < 46 {
            Decoded::NeedMoreData
        } else {
            Decoded::Value(FortySixZeros(zero_vec(46)), 46)
        }
    }
}

impl WriteField for FortySixZeros {
    open spec fn spec_write(m: Seq<u8>) -> Seq<u8> {
        zeros(46)
    }

    open spec fn wf_model(m: Seq<u8>) -> bool {
        m == zeros(46)
    }

    fn write(&self) -> (out: Vec<u8>) {
        zero_vec(46)
    }
}

impl WireField for FortySixZeros {
    proof fn lemma_round_trip(m: Seq<u8>, rest: Seq<u8>) {
        assert(zeros(46).len() == 46);
    }
}

// ---------------------------------------------------------------------------
// Signed 32-bit big-endian integer
// ---------------------------------------------------------------------------

impl ReadField for i32 {
    open spec fn spec_read(b: Seq<u8>) -> Decoded<i32> {
        if b.len() < 4 {
            Decoded::NeedMoreData
        } else {
            Decoded::Value(u32_to_i32(be_val(b.take(4)) as u32), 4)
        }
    }

    proof fn lemma_read_len(b: Seq<u8>) {
    }

    fn read(bytes: &Vec<u8>, index: usize) -> (r: Decoded<i32>) {
        if bytes.len() - index < 4 {
            Decoded::NeedMoreData
        } else {
            let v = be_read(bytes, index, 4);
            proof {
                let b = bytes@.skip(index as int);
                assert(bytes@.subrange(index as int, index + 4) =~= b.take(4));
                lemma_be_val_bound(b.take(4));
                lemma_pow256_values();
            }
            Decoded::Value(u32_to_i32_exec(v as u32), 4)
        }
    }
}

impl WriteField for i32 {
    open spec fn spec_write(m: i32) -> Seq<u8> {
        be_enc(i32_to_u32(m) as nat, 4)
    }

    open spec fn wf_model(m: i32) -> bool {
        true
    }

    fn write(&self) -> (out: Vec<u8>) {
        be_write(i32_to_u32_exec(*self) as u64, 4)
    }
}

impl WireField for i32 {
    proof fn lemma_round_trip(m: i32, rest: Seq<u8>) {
        lemma_pow256_values();
        lemma_be_rt_general(i32_to_u32(m) as nat, 4, rest);
        lemma_i32_u32_inverse(m);
    }
}

// ---------------------------------------------------------------------------
// Socket addresses: a discriminator byte (4 or 6) followed by the address
// fields. The IPv6 family field is written as the constant 23 and ignored on
// read.
// ---------------------------------------------------------------------------

#[derive(Clone, Copy, Debug, PartialEq, Eq, Structural)]
pub enum Address {
    V4 { o0: u8, o1: u8, o2: u8, o3: u8, port: u16 },
    V6 {
        port: u16,
        flow: u32,
        g0: u16,
        g1: u16,
        g2: u16,
        g3: u16,
        g4: u16,
        g5: u16,
        g6: u16,
        g7: u16,
        scope: u32,
    },
}

impl View for Address {
    type V = Address;

    open spec fn view(&self) -> Address {
        *self
    }
}

impl Default for Address {
    fn default() -> (r: Address)
        ensures
            r == (Address::V4 { o0: 0, o1: 0, o2: 0, o3: 0, port: 80 }),
    {
        Address::V4 { o0: 0, o1: 0, o2: 0, o3: 0, port: 80 }
    }
}

impl ReadField for Address {
    open spec fn spec_read(b: Seq<u8>) -> Decoded<Address> {
        if b.len() < 1 {
            Decoded::NeedMoreData
        } else if b[0] == 4 {
            if b.len() < 7 {
                Decoded::NeedMoreData
            } else {
                Decoded::Value(
                    Address::V4 {
                        o0: b[1],
                        o1: b[2],
                        o2: b[3],
                        o3: b[4],
                        port: be_val(b.subrange(5, 7)) as u16,
                    },
                    7,
                )
            }
        } else if b[0] == 6 {
            if b.len() < 29 {
                Decoded::NeedMoreData
            } else {
                Decoded::Value(
                    Address::V6 {
                        port: be_val(b.subrange(3, 5)) as u16,
                        flow: be_val(b.subrange(5, 9)) as u32,
                        g0: be_val(b.subrange(9, 11)) as u16,
                        g1: be_val(b.subrange(11, 13)) as u16,
                        g2: be_val(b.subrange(13, 15)) as u16,
                        g3: be_val(b.subrange(15, 17)) as u16,
                        g4: be_val(b.subrange(17, 19)) as u16,
                        g5: be_val(b.subrange(19, 21)) as u16,
                        g6: be_val(b.subrange(21, 23)) as u16,
                        g7: be_val(b.subrange(23, 25)) as u16,
                        scope: be_val(b.subrange(25, 29)) as u32,
                    },
                    29,
                )
            }
        } else {
            Decoded::Malformed
        }
    }

    proof fn lemma_read_len(b: Seq<u8>) {
    }

    fn read(bytes: &Vec<u8>, index: usize) -> (r: Decoded<Address>) {
        let ghost b = bytes@.skip(index as int);
        proof {
            lemma_pow256_values();
        }
        if bytes.len() - index < 1 {
            return Decoded::NeedMoreData;
        }
        let disc = bytes[index];
        if disc == 4 {
            if bytes.len() - index < 7 {
                return Decoded::NeedMoreData;
            }
            let port = be_read(bytes, index + 5, 2);
            proof {
                assert(bytes@.subrange(index + 5, index + 7) =~= b.subrange(5, 7));
                lemma_be_val_bound(b.subrange(5, 7));
                assert(b[1] == bytes@[index + 1]);
                assert(b[2] == bytes@[index + 2]);
                assert(b[3] == bytes@[index + 3]);
                assert(b[4] == bytes@[index + 4]);
            }
            Decoded::Value(
                Address::V4 {
                    o0: bytes[index + 1],
                    o1: bytes[index + 2],
                    o2: bytes[index + 3],
                    o3: bytes[index + 4],
                    port: port as u16,
                },
                7,
            )
        } else if disc == 6 {
            if bytes.len() - index < 29 {
                return Decoded::NeedMoreData;
            }
            let port = be_read(bytes, index + 3, 2);
            let flow = be_read(bytes, index + 5, 4);
            let g0 = be_read(bytes, index + 9, 2);
            let g1 = be_read(bytes, index + 11, 2);
            let g2 = be_read(bytes, index + 13, 2);
            let g3 = be_read(bytes, index + 15, 2);
            let g4 = be_read(bytes, index + 17, 2);
            let g5 = be_read(bytes, index + 19, 2);
            let g6 = be_read(bytes, index + 21, 2);
            let g7 = be_read(bytes, index + 23, 2);
            let scope = be_read(bytes, index + 25, 4);
            proof {
                assert(bytes@.subrange(index + 3, index + 5) =~= b.subrange(3, 5));
                assert(bytes@.subrange(index + 5, index + 9) =~= b.subrange(5, 9));
                assert(bytes@.subrange(index + 9, index + 11) =~= b.subrange(9, 11));
                assert(bytes@.subrange(index + 11, index + 13) =~= b.subrange(11, 13));
                assert(bytes@.subrange(index + 13, index + 15) =~= b.subrange(13, 15));
                assert(bytes@.subrange(index + 15, index + 17) =~= b.subrange(15, 17));
                assert(bytes@.subrange(index + 17, index + 19) =~= b.subrange(17, 19));
                assert(bytes@.subrange(index + 19, index + 21) =~= b.subrange(19, 21));
                assert(bytes@.subrange(index + 21, index + 23) =~= b.subrange(21, 23));
                assert(bytes@.subrange(index + 23, index + 25) =~= b.subrange(23, 25));
                assert(bytes@.subrange(index + 25, index + 29) =~= b.subrange(25, 29));
                lemma_be_val_bound(b.subrange(3, 5));
                lemma_be_val_bound(b.subrange(5, 9));
                lemma_be_val_bound(b.subrange(9, 11));
                lemma_be_val_bound(b.subrange(11, 13));
                lemma_be_val_bound(b.subrange(13, 15));
                lemma_be_val_bound(b.subrange(15, 17));
                lemma_be_val_bound(b.subrange(17, 19));
                lemma_be_val_bound(b.subrange(19, 21));
                lemma_be_val_bound(b.subrange(21, 23));
                lemma_be_val_bound(b.subrange(23, 25));
                lemma_be_val_bound(b.subrange(25, 29));
            }
            Decoded::Value(
                Address::V6 {
                    port: port as u16,
                    flow: flow as u32,
                    g0: g0 as u16,
                    g1: g1 as u16,
                    g2: g2 as u16,
                    g3: g3 as u16,
                    g4: g4 as u16,
                    g5: g5 as u16,
                    g6: g6 as u16,
                    g7: g7 as u16,
                    scope: scope as u32,
                },
                29,
            )
        } else {
            Decoded::Malformed
        }
    }
}

impl WriteField for Address {
    open spec fn spec_write(m: Address) -> Seq<u8> {
        match m {
            Address::V4 { o0, o1, o2, o3, port } => seq![4u8, o0, o1, o2, o3] + be_enc(
                port as nat,
                2,
            ),
            Address::V6 { port, flow, g0, g1, g2, g3, g4, g5, g6, g7, scope } => seq![6u8]
                + be_enc(23, 2) + be_enc(port as nat, 2) + be_enc(flow as nat, 4) + be_enc(
                g0 as nat,
                2,
            ) + be_enc(g1 as nat, 2) + be_enc(g2 as nat, 2) + be_enc(g3 as nat, 2) + be_enc(
                g4 as nat,
                2,
            ) + be_enc(g5 as nat, 2) + be_enc(g6 as nat, 2) + be_enc(g7 as nat, 2) + be_enc(
                scope as nat,
                4,
            ),
        }
    }

    open spec fn wf_model(m: Address) -> bool {
        true
    }

    fn write(&self) -> (out: Vec<u8>) {
        match *self {
            Address::V4 { o0, o1, o2, o3, port } => {
                let mut out: Vec<u8> = Vec::new();
                out.push(4);
                out.push(o0);
                out.push(o1);
                out.push(o2);
                out.push(o3);
                let mut p = be_write(port as u64, 2);
                out.append(&mut p);
                proof {
                    assert(out@ =~= Self::spec_write(*self));
                }
                out
            },
            Address::V6 { port, flow, g0, g1, g2, g3, g4, g5, g6, g7, scope } => {
                let mut out: Vec<u8> = Vec::new();
                out.push(6);
                let mut fam = be_write(23, 2);
                out.append(&mut fam);
                let mut p = be_write(port as u64, 2);
                out.append(&mut p);
                let mut f = be_write(flow as u64, 4);
                out.append(&mut f);
                let mut t = be_write(g0 as u64, 2);
                out.append(&mut t);
                let mut t = be_write(g1 as u64, 2);
                out.append(&mut t);
                let mut t = be_write(g2 as u64, 2);
                out.append(&mut t);
                let mut t = be_write(g3 as u64, 2);
                out.append(&mut t);
                let mut t = be_write(g4 as u64, 2);
                out.append(&mut t);
                let mut t = be_write(g5 as u64, 2);
                out.append(&mut t);
                let mut t = be_write(g6 as u64, 2);
                out.append(&mut t);
                let mut t = be_write(g7 as u64, 2);
                out.append(&mut t);
                let mut s = be_write(scope as u64, 4);
                out.append(&mut s);
                proof {
                    assert(out@ =~= Self::spec_write(*self));
                }
                out
            },
        }
    }
}

impl WireField for Address {
    proof fn lemma_round_trip(m: Address, rest: Seq<u8>) {
        lemma_pow256_values();
        let w = Self::spec_write(m);
        let whole = w + rest;
        match m {
            Address::V4 { o0, o1, o2, o3, port } => {
                lemma_be_enc_len(port as nat, 2);
                assert(whole[0] == 4);
                assert(whole.subrange(5, 7) =~= be_enc(port as nat, 2));
                lemma_be_round_trip(port as nat, 2);
                assert(whole[1] == o0 && whole[2] == o1 && whole[3] == o2 && whole[4] == o3);
            },
            Address::V6 { port, flow, g0, g1, g2, g3, g4, g5, g6, g7, scope } => {
                lemma_be_enc_len(23, 2);
                lemma_be_enc_len(port as nat, 2);
                lemma_be_enc_len(flow as nat, 4);
                lemma_be_enc_len(g0 as nat, 2);
                lemma_be_enc_len(g1 as nat, 2);
                lemma_be_enc_len(g2 as nat, 2);
                lemma_be_enc_len(g3 as nat, 2);
                lemma_be_enc_len(g4 as nat, 2);
                lemma_be_enc_len(g5 as nat, 2);
                lemma_be_enc_len(g6 as nat, 2);
                lemma_be_enc_len(g7 as nat, 2);
                lemma_be_enc_len(scope as nat, 4);
                assert(whole[0] == 6);
                assert(w.len() == 29);
                assert(whole.subrange(3, 5) =~= be_enc(port as nat, 2));
                assert(whole.subrange(5, 9) =~= be_enc(flow as nat, 4));
                assert(whole.subrange(9, 11) =~= be_enc(g0 as nat, 2));
                assert(whole.subrange(11, 13) =~= be_enc(g1 as nat, 2));
                assert(whole.subrange(13, 15) =~= be_enc(g2 as nat, 2));
                assert(whole.subrange(15, 17) =~= be_enc(g3 as nat, 2));
                assert(whole.subrange(17, 19) =~= be_enc(g4 as nat, 2));
                assert(whole.subrange(19, 21) =~= be_enc(g5 as nat, 2));
                assert(whole.subrange(21, 23) =~= be_enc(g6 as nat, 2));
                assert(whole.subrange(23, 25) =~= be_enc(g7 as nat, 2));
                assert(whole.subrange(25, 29) =~= be_enc(scope as nat, 4));
                lemma_be_round_trip(port as nat, 2);
                lemma_be_round_trip(flow as nat, 4);
                lemma_be_round_trip(g0 as nat, 2);
                lemma_be_round_trip(g1 as nat, 2);
                lemma_be_round_trip(g2 as nat, 2);
                lemma_be_round_trip(g3 as nat, 2);
                lemma_be_round_trip(g4 as nat, 2);
                lemma_be_round_trip(g5 as nat, 2);
                lemma_be_round_trip(g6 as nat, 2);
                lemma_be_round_trip(g7 as nat, 2);
                lemma_be_round_trip(scope as nat, 4);
            },
        }
    }
}

// ---------------------------------------------------------------------------
// Sequential composition: a pair of fields is read and written back to back.
// Nested pairs give the field chains that packets are made of.
// ---------------------------------------------------------------------------

impl<A: ReadField, B: ReadField> ReadField for (A, B) {
    open spec fn spec_read(b: Seq<u8>) -> Decoded<(A::V, B::V)> {
        match A::spec_read(b) {
            Decoded::Value(a, n1) => match B::spec_read(b.skip(n1 as int)) {
                Decoded::Value(bb, n2) => Decoded::Value((a, bb), (n1 + n2) as usize),
                Decoded::NeedMoreData => Decoded::NeedMoreData,
                Decoded::Malformed => Decoded::Malformed,
            },
            Decoded::NeedMoreData => Decoded::NeedMoreData,
            Decoded::Malformed => Decoded::Malformed,
        }
    }

    proof fn lemma_read_len(b: Seq<u8>) {
        A::lemma_read_len(b);
        if let Decoded::Value(a, n1) = A::spec_read(b) {
            B::lemma_read_len(b.skip(n1 as int));
        }
    }

    fn read(bytes: &Vec<u8>, index: usize) -> (r: Decoded<(A, B)>) {
        let ghost b = bytes@.skip(index as int);
        let total = bytes.len();
        match A::read(bytes, index) {
            Decoded::Value(a, n1) => {
                proof {
                    A::lemma_read_len(b);
                    assert(bytes@.skip(index + n1) =~= b.skip(n1 as int));
                }
                match B::read(bytes, index + n1) {
                    Decoded::Value(bb, n2) => {
                        proof {
                            B::lemma_read_len(b.skip(n1 as int));
                        }
                        Decoded::Value((a, bb), n1 + n2)
                    },
                    Decoded::NeedMoreData => Decoded::NeedMoreData,
                    Decoded::Malformed => Decoded::Malformed,
                }
            },
            Decoded::NeedMoreData => Decoded::NeedMoreData,
            Decoded::Malformed => Decoded::Malformed,
        }
    }
}

impl<A: WriteField, B: WriteField> WriteField for (A, B) {
    open spec fn spec_write(m: (A::V, B::V)) -> Seq<u8> {
        A::spec_write(m.0) + B::spec_write(m.1)
    }

    open spec fn wf_model(m: (A::V, B::V)) -> bool {
        &&& A::wf_model(m.0)
        &&& B::wf_model(m.1)
        &&& A::spec_write(m.0).len() + B::spec_write(m.1).len() <= 0x400000
    }

    fn write(&self) -> (out: Vec<u8>) {
        let mut out = self.0.write();
        let mut tail = self.1.write();
        out.append(&mut tail);
        out
    }
}

impl<A: WireField, B: WireField> WireField for (A, B) {
    proof fn lemma_round_trip(m: (A::V, B::V), rest: Seq<u8>) {
        let wa = A::spec_write(m.0);
        let wb = B::spec_write(m.1);
        let whole = Self::spec_write(m) + rest;
        assert(whole =~= wa + (wb + rest));
        A::lemma_round_trip(m.0, wb + rest);
        assert((wa + (wb + rest)).skip(wa.len() as int) =~= wb + rest);
        B::lemma_round_trip(m.1, rest);
    }
}

/// The empty field list of a packet with no fields.
impl ReadField for () {
    open spec fn spec_read(b: Seq<u8>) -> Decoded<()> {
        Decoded::Value((), 0)
    }

    proof fn lemma_read_len(b: Seq<u8>) {
    }

    fn read(bytes: &Vec<u8>, index: usize) -> (r: Decoded<()>) {
        Decoded::Value((), 0)
    }
}

impl WriteField for () {
    open spec fn spec_write(m: ()) -> Seq<u8> {
        Seq::empty()
    }

    open spec fn wf_model(m: ()) -> bool {
        true
    }

    fn write(&self) -> (out: Vec<u8>) {
        Vec::new()
    }
}

impl WireField for () {
    proof fn lemma_round_trip(m: (), rest: Seq<u8>) {
        assert(Self::spec_write(m) + rest =~= rest);
    }
}

// ---------------------------------------------------------------------------
// Homogeneous sequence of addresses: a big-endian unsigned 16 count followed
// by that many addresses.
// ---------------------------------------------------------------------------

pub open spec fn addrs_enc(s: Seq<Address>) -> Seq<u8>
    decreases s.len(),
{
    if s.len() == 0 {
        Seq::empty()
    } else {
        Address::spec_write(s[0]) + addrs_enc(s.drop_first())
    }
}

pub open spec fn addrs_dec(b: Seq<u8>, n: nat) -> Decoded<Seq<Address>>
    decreases n,
{
    if n == 0 {
        Decoded::Value(Seq::empty(), 0)
    } else {
        match Address::spec_read(b) {
            Decoded::Value(a, c) => match addrs_dec(b.skip(c as int), (n - 1) as nat) {
                Decoded::Value(rest, c2) => Decoded::Value(seq![a] + rest, (c + c2) as usize),
                Decoded::NeedMoreData => Decoded::NeedMoreData,
                Decoded::Malformed => Decoded::Malformed,
            },
            Decoded::NeedMoreData => Decoded::NeedMoreData,
            Decoded::Malformed => Decoded::Malformed,
        }
    }
}

pub proof fn lemma_addrs_dec_len(b: Seq<u8>, n: nat)
    ensures
        addrs_dec(b, n) matches Decoded::Value(s, c) ==> c <= b.len() && s.len() == n,
    decreases n,
{
    if n > 0 {
        Address::lemma_read_len(b);
        if let Decoded::Value(a, c) = Address::spec_read(b) {
            lemma_addrs_dec_len(b.skip(c as int), (n - 1) as nat);
        }
    }
}

pub proof fn lemma_addrs_enc_len(s: Seq<Address>)
    ensures
        addrs_enc(s).len() <= 29 * s.len(),
    decreases s.len(),
{
    if s.len() > 0 {
        lemma_addrs_enc_len(s.drop_first());
        lemma_be_enc_len(0, 2);
        match s[0] {
            Address::V4 { o0, o1, o2, o3, port } => {
                lemma_be_enc_len(port as nat, 2);
            },
            Address::V6 { port, flow, g0, g1, g2, g3, g4, g5, g6, g7, scope } => {
                lemma_be_enc_len(23, 2);
                lemma_be_enc_len(port as nat, 2);
                lemma_be_enc_len(flow as nat, 4);
                lemma_be_enc_len(g0 as nat, 2);
                lemma_be_enc_len(g1 as nat, 2);
                lemma_be_enc_len(g2 as nat, 2);
                lemma_be_enc_len(g3 as nat, 2);
                lemma_be_enc_len(g4 as nat, 2);
                lemma_be_enc_len(g5 as nat, 2);
                lemma_be_enc_len(g6 as nat, 2);
                lemma_be_enc_len(g7 as nat, 2);
                lemma_be_enc_len(scope as nat, 4);
            },
        }
    }
}

pub proof fn lemma_addrs_enc_snoc(s: Seq<Address>, a: Address)
    ensures
        addrs_enc(s.push(a)) == addrs_enc(s) + Address::spec_write(a),
    decreases s.len(),
{
    if s.len() == 0 {
        let se = s.push(a);
        assert(se.drop_first() =~= Seq::<Address>::empty());
        assert(se[0] == a);
        assert(addrs_enc(se.drop_first()) == Seq::<u8>::empty());
        assert(addrs_enc(se) == Address::spec_write(a) + Seq::<u8>::empty());
        assert(addrs_enc(s) == Seq::<u8>::empty());
        assert(addrs_enc(se) =~= addrs_enc(s) + Address::spec_write(a));
    } else {
        assert(s.push(a).drop_first() =~= s.drop_first().push(a));
        assert(s.push(a)[0] == s[0]);
        lemma_addrs_enc_snoc(s.drop_first(), a);
        assert(addrs_enc(s.push(a)) == Address::spec_write(s[0]) + addrs_enc(
            s.drop_first().push(a),
        ));
        assert(addrs_enc(s.push(a)) =~= addrs_enc(s) + Address::spec_write(a));
    }
}

#[verifier::rlimit(60)]
pub proof fn lemma_addrs_round_trip(s: Seq<Address>, rest: Seq<u8>)
    requires
        s.len() <= 65535,
    ensures
        addrs_dec(addrs_enc(s) + rest, s.len()) == Decoded::<Seq<Address>>::Value(
            s,
            addrs_enc(s).len() as usize,
        ),
    decreases s.len(),
{
    lemma_addrs_enc_len(s);
    if s.len() > 0 {
        let head = s[0];
        let tail = s.drop_first();
        let wh = Address::spec_write(head);
        let whole = addrs_enc(s) + rest;
        assert(whole =~= wh + (addrs_enc(tail) + rest));
        Address::lemma_round_trip(head, addrs_enc(tail) + rest);
        assert(whole.skip(wh.len() as int) =~= addrs_enc(tail) + rest);
        lemma_addrs_round_trip(tail, rest);
        lemma_addrs_enc_len(tail);
        assert(seq![head] + tail =~= s);
    }
}

fn addrs_read_rec(bytes: &Vec<u8>, index: usize, n: usize) -> (r: Decoded<Vec<Address>>)
    requires
        index <= bytes@.len(),
    ensures
        dec_models(r, addrs_dec(bytes@.skip(index as int), n as nat)),
        r matches Decoded::Value(v, c) ==> c <= bytes@.len() - index,
    decreases n,
{
    let ghost b = bytes@.skip(index as int);
    if n == 0 {
        let out: Vec<Address> = Vec::new();
        proof {
            assert(out@ =~= Seq::<Address>::empty());
        }
        Decoded::Value(out, 0)
    } else {
        let total = bytes.len();
        match Address::read(bytes, index) {
            Decoded::Value(a, c) => {
                proof {
                    Address::lemma_read_len(b);
                    assert(bytes@.skip(index + c) =~= b.skip(c as int));
                }
                match addrs_read_rec(bytes, index + c, n - 1) {
                    Decoded::Value(mut rest, c2) => {
                        let ghost tail_view = rest@;
                        rest.insert(0, a);
                        proof {
                            assert(rest@ =~= seq![a] + tail_view);
                        }
                        Decoded::Value(rest, c + c2)
                    },
                    Decoded::NeedMoreData => Decoded::NeedMoreData,
                    Decoded::Malformed => Decoded::Malformed,
                }
            },
            Decoded::NeedMoreData => Decoded::NeedMoreData,
            Decoded::Malformed => Decoded::Malformed,
        }
    }
}

impl ReadField for Vec<Address> {
    open spec fn spec_read(b: Seq<u8>) -> Decoded<Seq<Address>> {
        if b.len() < 2 {
            Decoded::NeedMoreData
        } else {
            match addrs_dec(b.skip(2), be_val(b.take(2))) {
                Decoded::Value(s, c) => Decoded::Value(s, (2 + c) as usize),
                Decoded::NeedMoreData => Decoded::NeedMoreData,
                Decoded::Malformed => Decoded::Malformed,
            }
        }
    }

    proof fn lemma_read_len(b: Seq<u8>) {
        if b.len() >= 2 {
            lemma_addrs_dec_len(b.skip(2), be_val(b.take(2)));
        }
    }

    fn read(bytes: &Vec<u8>, index: usize) -> (r: Decoded<Vec<Address>>) {
        let ghost b = bytes@.skip(index as int);
        if bytes.len() - index < 2 {
            return Decoded::NeedMoreData;
        }
        let cnt = be_read(bytes, index, 2) as usize;
        proof {
            assert(bytes@.subrange(index as int, index + 2) =~= b.take(2));
            lemma_be_val_bound(b.take(2));
            lemma_pow256_values();
            assert(bytes@.skip(index + 2) =~= b.skip(2));
        }
        match addrs_read_rec(bytes, index + 2, cnt) {
            Decoded::Value(v, c) => Decoded::Value(v, 2 + c),
            Decoded::NeedMoreData => Decoded::NeedMoreData,
            Decoded::Malformed => Decoded::Malformed,
        }
    }
}

impl WriteField for Vec<Address> {
    open spec fn spec_write(m: Seq<Address>) -> Seq<u8> {
        be_enc(m.len(), 2) + addrs_enc(m)
    }

    open spec fn wf_model(m: Seq<Address>) -> bool {
        m.len() <= 65535
    }

    fn write(&self) -> (out: Vec<u8>) {
        let cnt = self.len();
        let mut out = be_write(cnt as u64, 2);
        let mut k: usize = 0;
        while k < cnt
            invariant
                k <= cnt,
                cnt == self@.len(),
                out@ == be_enc(self@.len(), 2) + addrs_enc(self@.take(k as int)),
            decreases cnt - k,
        {
            let mut w = self[k].write();
            out.append(&mut w);
            proof {
                lemma_addrs_enc_snoc(self@.take(k as int), self@[k as int]);
                assert(self@.take(k + 1) =~= self@.take(k as int).push(self@[k as int]));
                assert(out@ =~= be_enc(self@.len(), 2) + addrs_enc(self@.take(k + 1)));
            }
            k = k + 1;
        }
        proof {
            assert(self@.take(cnt as int) =~= self@);
        }
        out
    }
}

impl WireField for Vec<Address> {
    proof fn lemma_round_trip(m: Seq<Address>, rest: Seq<u8>) {
        let whole = Self::spec_write(m) + rest;
        lemma_pow256_values();
        lemma_be_enc_len(m.len(), 2);
        lemma_addrs_enc_len(m);
        assert(whole.take(2) =~= be_enc(m.len(), 2));
        lemma_be_round_trip(m.len(), 2);
        assert(whole.skip(2) =~= addrs_enc(m) + rest);
        lemma_addrs_round_trip(m, rest);
    }
}

// ---------------------------------------------------------------------------
// IntRangeList: a big-endian unsigned 16 count of records, each record a
// one-byte range-or-single flag followed by one or two 24-bit big-endian
// values. Used by acknowledgment and negative-acknowledgment packets.
// ---------------------------------------------------------------------------

#[derive(Clone, Debug)]
pub struct IntRangeList(pub Vec<(u32, u32)>);

impl View for IntRangeList {
    type V = Seq<(u32, u32)>;

    open spec fn view(&self) -> Seq<(u32, u32)> {
        self.0@
    }
}

pub open spec fn range_enc(p: (u32, u32)) -> Seq<u8> {
    if p.0 == p.1 {
        seq![1u8] + be_enc(p.0 as nat, 3)
    } else {
        seq![0u8] + be_enc(p.0 as nat, 3) + be_enc(p.1 as nat, 3)
    }
}

pub open spec fn range_dec(b: Seq<u8>) -> Decoded<(u32, u32)> {
    if b.len() < 1 {
        Decoded::NeedMoreData
    } else if b[0] != 0 {
        if b.len() < 4 {
            Decoded::NeedMoreData
        } else {
            Decoded::Value(
                ((be_val(b.subrange(1, 4)) as u32), (be_val(b.subrange(1, 4)) as u32)),
                4,
            )
        }
    } else {
        if b.len() < 7 {
            Decoded::NeedMoreData
        } else {
            Decoded::Value(
                ((be_val(b.subrange(1, 4)) as u32), (be_val(b.subrange(4, 7)) as u32)),
                7,
            )
        }
    }
}

pub open spec fn ranges_enc(s: Seq<(u32, u32)>) -> Seq<u8>
    decreases s.len(),
{
    if s.len() == 0 {
        Seq::empty()
    } else {
        range_enc(s[0]) + ranges_enc(s.drop_first())
    }
}

pub open spec fn ranges_dec(b: Seq<u8>, n: nat) -> Decoded<Seq<(u32, u32)>>
    decreases n,
{
    if n == 0 {
        Decoded::Value(Seq::empty(), 0)
    } else {
        match range_dec(b) {
            Decoded::Value(p, c) => match ranges_dec(b.skip(c as int), (n - 1) as nat) {
                Decoded::Value(rest, c2) => Decoded::Value(seq![p] + rest, (c + c2) as usize),
                Decoded::NeedMoreData => Decoded::NeedMoreData,
                Decoded::Malformed => Decoded::Malformed,
            },
            Decoded::NeedMoreData => Decoded::NeedMoreData,
            Decoded::Malformed => Decoded::Malformed,
        }
    }
}

pub proof fn lemma_ranges_dec_len(b: Seq<u8>, n: nat)
    ensures
        ranges_dec(b, n) matches Decoded::Value(s, c) ==> c <= b.len() && s.len() == n,
    decreases n,
{
    if n > 0 {
        if let Decoded::Value(p, c) = range_dec(b) {
            lemma_ranges_dec_len(b.skip(c as int), (n - 1) as nat);
        }
    }
}

pub proof fn lemma_ranges_enc_len(s: Seq<(u32, u32)>)
    ensures
        ranges_enc(s).len() <= 7 * s.len(),
    decreases s.len(),
{
    if s.len() > 0 {
        lemma_ranges_enc_len(s.drop_first());
        lemma_be_enc_len(s[0].0 as nat, 3);
        lemma_be_enc_len(s[0].1 as nat, 3);
    }
}

pub proof fn lemma_ranges_enc_snoc(s: Seq<(u32, u32)>, p: (u32, u32))
    ensures
        ranges_enc(s.push(p)) == ranges_enc(s) + range_enc(p),
    decreases s.len(),
{
    if s.len() == 0 {
        let se = s.push(p);
        assert(se.drop_first() =~= Seq::<(u32, u32)>::empty());
        assert(se[0] == p);
        assert(ranges_enc(se.drop_first()) == Seq::<u8>::empty());
        assert(ranges_enc(se) == range_enc(p) + Seq::<u8>::empty());
        assert(ranges_enc(s) == Seq::<u8>::empty());
        assert(ranges_enc(se) =~= ranges_enc(s) + range_enc(p));
    } else {
        assert(s.push(p).drop_first() =~= s.drop_first().push(p));
        assert(s.push(p)[0] == s[0]);
        lemma_ranges_enc_snoc(s.drop_first(), p);
        assert(ranges_enc(s.push(p)) == range_enc(s[0]) + ranges_enc(s.drop_first().push(p)));
        assert(ranges_enc(s.push(p)) =~= ranges_enc(s) + range_enc(p));
    }
}

pub proof fn lemma_range_round_trip(p: (u32, u32), rest: Seq<u8>)
    requires
        p.0 < 0x1000000,
        p.1 < 0x1000000,
    ensures
        range_enc(p).len() <= 7,
        range_dec(range_enc(p) + rest) == Decoded::<(u32, u32)>::Value(
            p,
            range_enc(p).len() as usize,
        ),
{
    lemma_pow256_values();
    reveal_with_fuel(pow256, 4);
    let whole = range_enc(p) + rest;
    lemma_be_enc_len(p.0 as nat, 3);
    lemma_be_enc_len(p.1 as nat, 3);
    if p.0 == p.1 {
        assert(whole[0] == 1);
        assert(whole.subrange(1, 4) =~= be_enc(p.0 as nat, 3));
        lemma_be_round_trip(p.0 as nat, 3);
    } else {
        assert(whole[0] == 0);
        assert(whole.subrange(1, 4) =~= be_enc(p.0 as nat, 3));
        assert(whole.subrange(4, 7) =~= be_enc(p.1 as nat, 3));
        lemma_be_round_trip(p.0 as nat, 3);
        lemma_be_round_trip(p.1 as nat, 3);
    }
}

pub proof fn lemma_ranges_round_trip(s: Seq<(u32, u32)>, rest: Seq<u8>)
    requires
        s.len() <= 65535,
        forall|i: int| 0 <= i < s.len() ==> #[trigger] s[i].0 < 0x1000000 && s[i].1 < 0x1000000,
    ensures
        ranges_dec(ranges_enc(s) + rest, s.len()) == Decoded::<Seq<(u32, u32)>>::Value(
            s,
            ranges_enc(s).len() as usize,
        ),
    decreases s.len(),
{
    lemma_ranges_enc_len(s);
    if s.len() > 0 {
        let head = s[0];
        let tail = s.drop_first();
        let wh = range_enc(head);
        let whole = ranges_enc(s) + rest;
        assert(whole =~= wh + (ranges_enc(tail) + rest));
        lemma_range_round_trip(head, ranges_enc(tail) + rest);
        assert(whole.skip(wh.len() as int) =~= ranges_enc(tail) + rest);
        lemma_ranges_round_trip(tail, rest);
        lemma_ranges_enc_len(tail);
        assert(seq![head] + tail =~= s);
    }
}

/// Reads one range record at `index`.
fn range_read(bytes: &Vec<u8>, index: usize) -> (r: Decoded<(u32, u32)>)
    requires
        index <= bytes@.len(),
    ensures
        dec_models(r, range_dec(bytes@.skip(index as int))),
        r matches Decoded::Value(v, c) ==> c <= bytes@.len() - index,
{
    let ghost b = bytes@.skip(index as int);
    proof {
        lemma_pow256_values();
        reveal_with_fuel(pow256, 4);
    }
    if bytes.len() - index < 1 {
        return Decoded::NeedMoreData;
    }
    let flag = bytes[index];
    if flag != 0 {
        if bytes.len() - index < 4 {
            return Decoded::NeedMoreData;
        }
        let v = be_read(bytes, index + 1, 3);
        proof {
            assert(bytes@.subrange(index + 1, index + 4) =~= b.subrange(1, 4));
            lemma_be_val_bound(b.subrange(1, 4));
        }
        Decoded::Value((v as u32, v as u32), 4)
    } else {
        if bytes.len() - index < 7 {
            return Decoded::NeedMoreData;
        }
        let s = be_read(bytes, index + 1, 3);
        let e = be_read(bytes, index + 4, 3);
        proof {
            assert(bytes@.subrange(index + 1, index + 4) =~= b.subrange(1, 4));
            assert(bytes@.subrange(index + 4, index + 7) =~= b.subrange(4, 7));
            lemma_be_val_bound(b.subrange(1, 4));
            lemma_be_val_bound(b.subrange(4, 7));
        }
        Decoded::Value((s as u32, e as u32), 7)
    }
}

/// Writes one range record.
fn range_write(p: (u32, u32)) -> (out: Vec<u8>)
    ensures
        out@ == range_enc(p),
{
    let mut out: Vec<u8> = Vec::new();
    if p.0 == p.1 {
        out.push(1);
        let mut v = be_write(p.0 as u64, 3);
        out.append(&mut v);
        proof {
            assert(out@ =~= range_enc(p));
        }
    } else {
        out.push(0);
        let mut s = be_write(p.0 as u64, 3);
        out.append(&mut s);
        let mut e = be_write(p.1 as u64, 3);
        out.append(&mut e);
        proof {
            assert(out@ =~= range_enc(p));
        }
    }
    out
}

fn ranges_read_rec(bytes: &Vec<u8>, index: usize, n: usize) -> (r: Decoded<Vec<(u32, u32)>>)
    requires
        index <= bytes@.len(),
    ensures
        dec_models(r, ranges_dec(bytes@.skip(index as int), n as nat)),
        r matches Decoded::Value(v, c) ==> c <= bytes@.len() - index,
    decreases n,
{
    let ghost b = bytes@.skip(index as int);
    if n == 0 {
        let out: Vec<(u32, u32)> = Vec::new();
        proof {
            assert(out@ =~= Seq::<(u32, u32)>::empty());
        }
        Decoded::Value(out, 0)
    } else {
        let total = bytes.len();
        match range_read(bytes, index) {
            Decoded::Value(p, c) => {
                proof {
                    assert(bytes@.skip(index + c) =~= b.skip(c as int));
                }
                match ranges_read_rec(bytes, index + c, n - 1) {
                    Decoded::Value(mut rest, c2) => {
                        let ghost tail_view = rest@;
                        rest.insert(0, p);
                        proof {
                            assert(rest@ =~= seq![p] + tail_view);
                        }
                        Decoded::Value(rest, c + c2)
                    },
                    Decoded::NeedMoreData => Decoded::NeedMoreData,
                    Decoded::Malformed => Decoded::Malformed,
                }
            },
            Decoded::NeedMoreData => Decoded::NeedMoreData,
            Decoded::Malformed => Decoded::Malformed,
        }
    }
}

impl ReadField for IntRangeList {
    open spec fn spec_read(b: Seq<u8>) -> Decoded<Seq<(u32, u32)>> {
        if b.len() < 2 {
            Decoded::NeedMoreData
        } else {
            match ranges_dec(b.skip(2), be_val(b.take(2))) {
                Decoded::Value(s, c) => Decoded::Value(s, (2 + c) as usize),
                Decoded::NeedMoreData => Decoded::NeedMoreData,
                Decoded::Malformed => Decoded::Malformed,
            }
        }
    }

    proof fn lemma_read_len(b: Seq<u8>) {
        if b.len() >= 2 {
            lemma_ranges_dec_len(b.skip(2), be_val(b.take(2)));
        }
    }

    fn read(bytes: &Vec<u8>, index: usize) -> (r: Decoded<IntRangeList>) {
        let ghost b = bytes@.skip(index as int);
        if bytes.len() - index < 2 {
            return Decoded::NeedMoreData;
        }
        let cnt = be_read(bytes, index, 2) as usize;
        proof {
            assert(bytes@.subrange(index as int, index + 2) =~= b.take(2));
            lemma_be_val_bound(b.take(2));
            lemma_pow256_values();
            assert(bytes@.skip(index + 2) =~= b.skip(2));
        }
        match ranges_read_rec(bytes, index + 2, cnt) {
            Decoded::Value(v, c) => Decoded::Value(IntRangeList(v), 2 + c),
            Decoded::NeedMoreData => Decoded::NeedMoreData,
            Decoded::Malformed => Decoded::Malformed,
        }
    }
}

impl WriteField for IntRangeList {
    open spec fn spec_write(m: Seq<(u32, u32)>) -> Seq<u8> {
        be_enc(m.len(), 2) + ranges_enc(m)
    }

    open spec fn wf_model(m: Seq<(u32, u32)>) -> bool {
        &&& m.len() <= 65535
        &&& forall|i: int| 0 <= i < m.len() ==> #[trigger] m[i].0 < 0x1000000 && m[i].1
            < 0x1000000
    }

    fn write(&self) -> (out: Vec<u8>) {
        let cnt = self.0.len();
        let mut out = be_write(cnt as u64, 2);
        let mut k: usize = 0;
        while k < cnt
            invariant
                k <= cnt,
                cnt == self.0@.len(),
                out@ == be_enc(self.0@.len(), 2) + ranges_enc(self.0@.take(k as int)),
            decreases cnt - k,
        {
            let mut w = range_write(self.0[k]);
            out.append(&mut w);
            proof {
                lemma_ranges_enc_snoc(self.0@.take(k as int), self.0@[k as int]);
                assert(self.0@.take(k + 1) =~= self.0@.take(k as int).push(self.0@[k as int]));
                assert(out@ =~= be_enc(self.0@.len(), 2) + ranges_enc(self.0@.take(k + 1)));
            }
            k = k + 1;
        }
        proof {
            assert(self.0@.take(cnt as int) =~= self.0@);
        }
        out
    }
}

impl WireField for IntRangeList {
    proof fn lemma_round_trip(m: Seq<(u32, u32)>, rest: Seq<u8>) {
        let whole = Self::spec_write(m) + rest;
        lemma_pow256_values();
        lemma_be_enc_len(m.len(), 2);
        lemma_ranges_enc_len(m);
        assert(whole.take(2) =~= be_enc(m.len(), 2));
        lemma_be_round_trip(m.len(), 2);
        assert(whole.skip(2) =~= ranges_enc(m) + rest);
        lemma_ranges_round_trip(m, rest);
    }
}

/// Round trip for VarInt-length-prefixed strings: reading back a written
/// string yields the string and consumes the length prefix plus the string's
/// UTF-8 bytes, for every string of fewer than 2^16 content bytes.
pub proof fn lemma_varint_string_round_trip(s: Seq<char>, rest: Seq<u8>)
    requires
        encode_utf8(s).len() < 0x10000,
    ensures
        ({
            let enc = VarIntLengthPrefixedString::spec_write(s);
            &&& enc.len() == varint_enc_u(encode_utf8(s).len()).len() + encode_utf8(s).len()
            &&& VarIntLengthPrefixedString::spec_read(enc + rest) == Decoded::<Seq<char>>::Value(
                s,
                enc.len() as usize,
            )
        }),
{
    VarIntLengthPrefixedString::lemma_round_trip(s, rest);
}

/// Round trip for an n-byte big-endian field read from the front of a longer
/// byte sequence.
pub proof fn lemma_be_rt_general(v: nat, n: nat, rest: Seq<u8>)
    requires
        v < pow256(n),
        n <= 8,
    ensures
        (be_enc(v, n) + rest).len() >= n,
        (be_enc(v, n) + rest).take(n as int) == be_enc(v, n),
        be_val((be_enc(v, n) + rest).take(n as int)) == v,
{
    lemma_be_enc_len(v, n);
    assert((be_enc(v, n) + rest).take(n as int) =~= be_enc(v, n));
    lemma_be_round_trip(v, n);
}

} // verus!
