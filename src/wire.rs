//! Fixed-width big-endian integer layouts, and the byte-cursor operations of
//! the `bytes` crate that read and write them.
use vstd::prelude::*;
use bytes::{Buf, BufMut};

verus! {

/// 256 to the power `n`: the number of values that `n` bytes can hold.
pub open spec fn pow256(n: nat) -> nat
    decreases n,
{
    if n == 0 {
        1
    } else {
        256 * pow256((n - 1) as nat)
    }
}

/// The number of values of each integer width in use.
pub proof fn lemma_pow256_widths()
    ensures
        pow256(1) == 0x100,
        pow256(2) == 0x1_0000,
        pow256(4) == 0x1_0000_0000,
        pow256(8) == 0x1_0000_0000_0000_0000,
        pow256(16) == 0x1_0000_0000_0000_0000_0000_0000_0000_0000,
{
    reveal_with_fuel(pow256, 17);
}

/// The `width` bytes that hold the low `width` bytes of `n`, most significant first.
pub open spec fn be_bytes(n: nat, width: nat) -> Seq<u8>
    decreases width,
{
    if width == 0 {
        Seq::empty()
    } else {
        be_bytes(n / 256, (width - 1) as nat).push((n % 256) as u8)
    }
}

/// The number that `s` holds, most significant byte first.
pub open spec fn be_value(s: Seq<u8>) -> nat
    decreases s.len(),
{
    if s.len() == 0 {
        0
    } else {
        be_value(s.drop_last()) * 256 + s.last() as nat
    }
}

/// The `width` bytes of the two's-complement form of `n`, most significant first.
pub open spec fn signed_be_bytes(n: int, width: nat) -> Seq<u8> {
    be_bytes((if n < 0 { n + pow256(width) } else { n }) as nat, width)
}

/// The signed number that `s` holds in two's complement, most significant byte first.
pub open spec fn signed_be_value(s: Seq<u8>) -> int {
    let v = be_value(s);
    if 2 * v >= pow256(s.len()) {
        v - pow256(s.len())
    } else {
        v as int
    }
}

/// Whether every byte of `s` is zero.
pub open spec fn all_zero(s: Seq<u8>) -> bool {
    forall|i: int| 0 <= i < s.len() ==> s[i] == 0
}

/// `n` zero bytes.
pub open spec fn zeros(n: nat) -> Seq<u8> {
    Seq::new(n, |i: int| 0u8)
}

/// The big-endian form of a number has the width asked for.
pub proof fn lemma_be_bytes_len(n: nat, width: nat)
    ensures
        be_bytes(n, width).len() == width,
    decreases width,
{
    if width > 0 {
        lemma_be_bytes_len(n / 256, (width - 1) as nat);
    }
}

/// A number read from `s` fits in `s.len()` bytes.
pub proof fn lemma_be_value_bound(s: Seq<u8>)
    ensures
        be_value(s) < pow256(s.len()),
    decreases s.len(),
{
    if s.len() > 0 {
        let t = s.drop_last();
        lemma_be_value_bound(t);
        let a = be_value(t);
        let p = pow256(t.len());
        let b = s.last() as nat;
        assert(a * 256 + b < 256 * p) by (nonlinear_arith)
            requires
                a < p,
                b < 256,
        ;
    }
}

/// Decoding the bytes of a number that fits in `width` bytes gives the number back.
pub proof fn lemma_be_round_trip(n: nat, width: nat)
    requires
        n < pow256(width),
    ensures
        be_bytes(n, width).len() == width,
        be_value(be_bytes(n, width)) == n,
    decreases width,
{
    lemma_be_bytes_len(n, width);
    if width > 0 {
        let q = n / 256;
        let p = pow256((width - 1) as nat);
        assert(q < p) by (nonlinear_arith)
            requires
                n < 256 * p,
                q == n / 256,
        ;
        lemma_be_round_trip(q, (width - 1) as nat);
        let s = be_bytes(n, width);
        assert(s.drop_last() =~= be_bytes(q, (width - 1) as nat));
        assert(q * 256 + n % 256 == n) by (nonlinear_arith)
            requires
                q == n / 256,
        ;
    }
}

/// Two's-complement decoding gives back a number in the range of `width` bytes.
pub proof fn lemma_signed_be_round_trip(n: int, width: nat)
    requires
        width > 0,
        -pow256(width) <= 2 * n < pow256(width),
    ensures
        signed_be_bytes(n, width).len() == width,
        signed_be_value(signed_be_bytes(n, width)) == n,
{
    let m = (if n < 0 { n + pow256(width) } else { n }) as nat;
    lemma_be_round_trip(m, width);
}

/// The two's-complement form of a number has the width asked for.
pub proof fn lemma_signed_be_len(n: int, width: nat)
    ensures
        signed_be_bytes(n, width).len() == width,
{
    lemma_be_bytes_len((if n < 0 { n + pow256(width) } else { n }) as nat, width);
}

/// A two's-complement number of `s.len()` bytes lies in the signed range of that width.
pub proof fn lemma_signed_be_value_bound(s: Seq<u8>)
    ensures
        -pow256(s.len()) <= 2 * signed_be_value(s) < pow256(s.len()),
{
    lemma_be_value_bound(s);
}

/// The zero bytes of any width hold the number zero, and only they do.
pub proof fn lemma_be_zero(n: nat, width: nat)
    requires
        n < pow256(width),
    ensures
        all_zero(be_bytes(n, width)) <==> n == 0,
    decreases width,
{
    lemma_be_round_trip(n, width);
    if width > 0 {
        let q = n / 256;
        let p = pow256((width - 1) as nat);
        assert(q < p) by (nonlinear_arith)
            requires
                n < 256 * p,
                q == n / 256,
        ;
        lemma_be_zero(q, (width - 1) as nat);
        let s = be_bytes(n, width);
        let t = be_bytes(q, (width - 1) as nat);
        lemma_be_bytes_len(q, (width - 1) as nat);
        assert(s == t.push((n % 256) as u8));
        if all_zero(s) {
            assert forall|i: int| 0 <= i < t.len() implies t[i] == 0 by {
                assert(s[i] == t[i]);
            }
            assert(s[width - 1] == (n % 256) as u8);
            assert(q * 256 + n % 256 == n) by (nonlinear_arith)
                requires
                    q == n / 256,
            ;
        }
        if n == 0 {
            assert(q == 0);
            assert forall|i: int| 0 <= i < s.len() implies s[i] == 0 by {
                if i < t.len() {
                    assert(s[i] == t[i]);
                }
            }
        }
    }
}

/// Relies on bytes' `Buf::get_u8` for `&[u8]`: the first 1 byte read as unsigned.
#[verifier::external_body]
pub(crate) fn get_u8(reader: &mut &[u8]) -> (r: u8)
    requires
        old(reader)@.len() >= 1,
    ensures
        r == be_value(old(reader)@.take(1)),
        final(reader)@ == old(reader)@.skip(1),
{
    reader.get_u8()
}

/// Relies on bytes' `Buf::get_u16` for `&[u8]`: the first 2 bytes read as unsigned, big-endian.
#[verifier::external_body]
pub(crate) fn get_u16(reader: &mut &[u8]) -> (r: u16)
    requires
        old(reader)@.len() >= 2,
    ensures
        r == be_value(old(reader)@.take(2)),
        final(reader)@ == old(reader)@.skip(2),
{
    reader.get_u16()
}

/// Relies on bytes' `Buf::get_u32` for `&[u8]`: the first 4 bytes read as unsigned, big-endian.
#[verifier::external_body]
pub(crate) fn get_u32(reader: &mut &[u8]) -> (r: u32)
    requires
        old(reader)@.len() >= 4,
    ensures
        r == be_value(old(reader)@.take(4)),
        final(reader)@ == old(reader)@.skip(4),
{
    reader.get_u32()
}

/// Relies on bytes' `Buf::get_u64` for `&[u8]`: the first 8 bytes read as unsigned, big-endian.
#[verifier::external_body]
pub(crate) fn get_u64(reader: &mut &[u8]) -> (r: u64)
    requires
        old(reader)@.len() >= 8,
    ensures
        r == be_value(old(reader)@.take(8)),
        final(reader)@ == old(reader)@.skip(8),
{
    reader.get_u64()
}

/// Relies on bytes' `Buf::get_u128` for `&[u8]`: the first 16 bytes read as unsigned, big-endian.
#[verifier::external_body]
pub(crate) fn get_u128(reader: &mut &[u8]) -> (r: u128)
    requires
        old(reader)@.len() >= 16,
    ensures
        r == be_value(old(reader)@.take(16)),
        final(reader)@ == old(reader)@.skip(16),
{
    reader.get_u128()
}

/// Relies on bytes' `Buf::get_i8` for `&[u8]`: the first 1 byte read as signed, two's complement.
#[verifier::external_body]
pub(crate) fn get_i8(reader: &mut &[u8]) -> (r: i8)
    requires
        old(reader)@.len() >= 1,
    ensures
        r == signed_be_value(old(reader)@.take(1)),
        final(reader)@ == old(reader)@.skip(1),
{
    reader.get_i8()
}

/// Relies on bytes' `Buf::get_i16` for `&[u8]`: the first 2 bytes read as signed, two's complement, big-endian.
#[verifier::external_body]
pub(crate) fn get_i16(reader: &mut &[u8]) -> (r: i16)
    requires
        old(reader)@.len() >= 2,
    ensures
        r == signed_be_value(old(reader)@.take(2)),
        final(reader)@ == old(reader)@.skip(2),
{
    reader.get_i16()
}

/// Relies on bytes' `Buf::get_i32` for `&[u8]`: the first 4 bytes read as signed, two's complement, big-endian.
#[verifier::external_body]
pub(crate) fn get_i32(reader: &mut &[u8]) -> (r: i32)
    requires
        old(reader)@.len() >= 4,
    ensures
        r == signed_be_value(old(reader)@.take(4)),
        final(reader)@ == old(reader)@.skip(4),
{
    reader.get_i32()
}

/// Relies on bytes' `Buf::get_i64` for `&[u8]`: the first 8 bytes read as signed, two's complement, big-endian.
#[verifier::external_body]
pub(crate) fn get_i64(reader: &mut &[u8]) -> (r: i64)
    requires
        old(reader)@.len() >= 8,
    ensures
        r == signed_be_value(old(reader)@.take(8)),
        final(reader)@ == old(reader)@.skip(8),
{
    reader.get_i64()
}

/// Relies on bytes' `Buf::get_i128` for `&[u8]`: the first 16 bytes read as signed, two's complement, big-endian.
#[verifier::external_body]
pub(crate) fn get_i128(reader: &mut &[u8]) -> (r: i128)
    requires
        old(reader)@.len() >= 16,
    ensures
        r == signed_be_value(old(reader)@.take(16)),
        final(reader)@ == old(reader)@.skip(16),
{
    reader.get_i128()
}

/// Relies on bytes' `BufMut::put_u8` for `Vec<u8>`: 1 byte appended, unsigned.
#[verifier::external_body]
pub(crate) fn put_u8(writer: &mut Vec<u8>, n: u8)
    requires
        old(writer)@.len() + 1 <= isize::MAX,
    ensures
        final(writer)@ == old(writer)@ + be_bytes(n as nat, 1),
{
    writer.put_u8(n)
}

/// Relies on bytes' `BufMut::put_u16` for `Vec<u8>`: 2 bytes appended, unsigned, big-endian.
#[verifier::external_body]
pub(crate) fn put_u16(writer: &mut Vec<u8>, n: u16)
    requires
        old(writer)@.len() + 2 <= isize::MAX,
    ensures
        final(writer)@ == old(writer)@ + be_bytes(n as nat, 2),
{
    writer.put_u16(n)
}

/// Relies on bytes' `BufMut::put_u32` for `Vec<u8>`: 4 bytes appended, unsigned, big-endian.
#[verifier::external_body]
pub(crate) fn put_u32(writer: &mut Vec<u8>, n: u32)
    requires
        old(writer)@.len() + 4 <= isize::MAX,
    ensures
        final(writer)@ == old(writer)@ + be_bytes(n as nat, 4),
{
    writer.put_u32(n)
}

/// Relies on bytes' `BufMut::put_u64` for `Vec<u8>`: 8 bytes appended, unsigned, big-endian.
#[verifier::external_body]
pub(crate) fn put_u64(writer: &mut Vec<u8>, n: u64)
    requires
        old(writer)@.len() + 8 <= isize::MAX,
    ensures
        final(writer)@ == old(writer)@ + be_bytes(n as nat, 8),
{
    writer.put_u64(n)
}

/// Relies on bytes' `BufMut::put_u128` for `Vec<u8>`: 16 bytes appended, unsigned, big-endian.
#[verifier::external_body]
pub(crate) fn put_u128(writer: &mut Vec<u8>, n: u128)
    requires
        old(writer)@.len() + 16 <= isize::MAX,
    ensures
        final(writer)@ == old(writer)@ + be_bytes(n as nat, 16),
{
    writer.put_u128(n)
}

/// Relies on bytes' `BufMut::put_i8` for `Vec<u8>`: 1 byte appended, signed, two's complement.
#[verifier::external_body]
pub(crate) fn put_i8(writer: &mut Vec<u8>, n: i8)
    requires
        old(writer)@.len() + 1 <= isize::MAX,
    ensures
        final(writer)@ == old(writer)@ + signed_be_bytes(n as int, 1),
{
    writer.put_i8(n)
}

/// Relies on bytes' `BufMut::put_i16` for `Vec<u8>`: 2 bytes appended, signed, two's complement, big-endian.
#[verifier::external_body]
pub(crate) fn put_i16(writer: &mut Vec<u8>, n: i16)
    requires
        old(writer)@.len() + 2 <= isize::MAX,
    ensures
        final(writer)@ == old(writer)@ + signed_be_bytes(n as int, 2),
{
    writer.put_i16(n)
}

/// Relies on bytes' `BufMut::put_i32` for `Vec<u8>`: 4 bytes appended, signed, two's complement, big-endian.
#[verifier::external_body]
pub(crate) fn put_i32(writer: &mut Vec<u8>, n: i32)
    requires
        old(writer)@.len() + 4 <= isize::MAX,
    ensures
        final(writer)@ == old(writer)@ + signed_be_bytes(n as int, 4),
{
    writer.put_i32(n)
}

/// Relies on bytes' `BufMut::put_i64` for `Vec<u8>`: 8 bytes appended, signed, two's complement, big-endian.
#[verifier::external_body]
pub(crate) fn put_i64(writer: &mut Vec<u8>, n: i64)
    requires
        old(writer)@.len() + 8 <= isize::MAX,
    ensures
        final(writer)@ == old(writer)@ + signed_be_bytes(n as int, 8),
{
    writer.put_i64(n)
}

/// Relies on bytes' `BufMut::put_i128` for `Vec<u8>`: 16 bytes appended, signed, two's complement, big-endian.
#[verifier::external_body]
pub(crate) fn put_i128(writer: &mut Vec<u8>, n: i128)
    requires
        old(writer)@.len() + 16 <= isize::MAX,
    ensures
        final(writer)@ == old(writer)@ + signed_be_bytes(n as int, 16),
{
    writer.put_i128(n)
}

/// Relies on bytes' `BufMut::put_slice` for `Vec<u8>`: the bytes appended in order.
#[verifier::external_body]
pub(crate) fn put_slice(writer: &mut Vec<u8>, src: &[u8])
    requires
        old(writer)@.len() + src@.len() <= isize::MAX,
    ensures
        final(writer)@ == old(writer)@ + src@,
{
    writer.put_slice(src)
}

/// Relies on bytes' `BufMut::put_bytes` for `Vec<u8>`: `cnt` copies of `val` appended.
#[verifier::external_body]
pub(crate) fn put_bytes(writer: &mut Vec<u8>, val: u8, cnt: usize)
    requires
        old(writer)@.len() + cnt <= isize::MAX,
    ensures
        final(writer)@ == old(writer)@ + Seq::new(cnt as nat, |i: int| val),
{
    writer.put_bytes(val, cnt)
}

/// Relies on bytes' `Buf::advance` for `&[u8]`: the slice moved past its first `cnt` bytes.
#[verifier::external_body]
pub(crate) fn advance(reader: &mut &[u8], cnt: usize)
    requires
        old(reader)@.len() >= cnt,
    ensures
        final(reader)@ == old(reader)@.skip(cnt as int),
{
    reader.advance(cnt)
}

} // verus!
