//! Binary codec: bounds-checked big-endian reads over a byte slice at an
//! explicit offset, and writes appended to a growing byte vector.
//!
//! Every read fails with [`DecodeError::OutOfBounds`] when the buffer is
//! shorter than the field being read; nothing here panics on malformed
//! input.

use vstd::prelude::*;
use vstd::slice::{slice_subrange, slice_to_vec};
use vstd::utf8::{decode_utf8, encode_utf8, valid_utf8};

use crate::endpoint::{Endpoint, IpAddress};
use crate::error::DecodeError;

verus! {

/// 256 raised to `n`: the number of values an `n`-byte field can hold.
pub open spec fn pow256(n: nat) -> nat
    decreases n,
{
    if n == 0 {
        1
    } else {
        256 * pow256((n - 1) as nat)
    }
}

/// The low `n` bytes of `v`, big-endian (most significant byte first).
/// Values that do not fit in `n` bytes are truncated to `v % pow256(n)`.
pub open spec fn be_bytes(v: nat, n: nat) -> Seq<u8>
    decreases n,
{
    if n == 0 {
        Seq::empty()
    } else {
        be_bytes(v / 256, (n - 1) as nat) + seq![(v % 256) as u8]
    }
}

/// The value of a big-endian byte sequence.
pub open spec fn be_val(s: Seq<u8>) -> nat
    decreases s.len(),
{
    if s.len() == 0 {
        0
    } else {
        be_val(s.drop_last()) * 256 + s.last() as nat
    }
}

pub proof fn lemma_pow256_pos(n: nat)
    ensures
        pow256(n) >= 1,
    decreases n,
{
    if n > 0 {
        lemma_pow256_pos((n - 1) as nat);
    }
}

pub proof fn lemma_pow256_monotone(m: nat, n: nat)
    requires
        m <= n,
    ensures
        pow256(m) <= pow256(n),
    decreases n,
{
    if m < n {
        lemma_pow256_monotone(m, (n - 1) as nat);
        lemma_pow256_pos((n - 1) as nat);
    }
}

pub proof fn lemma_pow256_16()
    ensures
        pow256(16) == 0x100000000000000000000000000000000,
{
    reveal_with_fuel(pow256, 17);
}

pub proof fn lemma_be_bytes_len(v: nat, n: nat)
    ensures
        be_bytes(v, n).len() == n,
    decreases n,
{
    if n > 0 {
        lemma_be_bytes_len(v / 256, (n - 1) as nat);
    }
}

pub proof fn lemma_be_val_bound(s: Seq<u8>)
    ensures
        be_val(s) < pow256(s.len()),
    decreases s.len(),
{
    if s.len() > 0 {
        lemma_be_val_bound(s.drop_last());
    }
}

/// Reading back the big-endian bytes of `v` yields `v` truncated to `n`
/// bytes: out-of-range values are cut down deterministically.
pub proof fn lemma_be_val_of_be_bytes_trunc(v: nat, n: nat)
    ensures
        be_val(be_bytes(v, n)) == v % pow256(n),
    decreases n,
{
    if n == 0 {
        assert(v % 1 == 0) by (nonlinear_arith);
    } else {
        let q = v / 256;
        let p = pow256((n - 1) as nat);
        lemma_be_val_of_be_bytes_trunc(q, (n - 1) as nat);
        lemma_be_bytes_len(q, (n - 1) as nat);
        assert(be_bytes(v, n).drop_last() =~= be_bytes(q, (n - 1) as nat));
        lemma_pow256_pos((n - 1) as nat);
        vstd::arithmetic::div_mod::lemma_mod_breakdown(v as int, 256, p as int);
    }
}

/// Reading back the big-endian bytes of `v` yields `v` again, for any
/// value that fits in `n` bytes.
pub proof fn lemma_be_val_of_be_bytes(v: nat, n: nat)
    requires
        v < pow256(n),
    ensures
        be_val(be_bytes(v, n)) == v,
{
    lemma_be_val_of_be_bytes_trunc(v, n);
    vstd::arithmetic::div_mod::lemma_small_mod(v, pow256(n));
}

/// 24-bit integer round-trip: reading back the three bytes written for
/// `v` yields `v` for every value below `2^24`, and `v % 2^24` — the
/// deterministic truncation policy — for every value at or above it.
pub proof fn lemma_u24_round_trip(v: u32)
    ensures
        be_val(be_bytes(v as nat, 3)) == v % 0x1000000,
        v < 0x1000000 ==> be_val(be_bytes(v as nat, 3)) == v,
{
    lemma_be_val_of_be_bytes_trunc(v as nat, 3);
    assert(pow256(3) == 0x1000000) by {
        reveal_with_fuel(pow256, 4);
    }
}

/// Appends the low `n` bytes of `v`, big-endian.
pub fn push_be(buf: &mut Vec<u8>, v: u128, n: usize)
    ensures
        final(buf)@ == old(buf)@ + be_bytes(v as nat, n as nat),
    decreases n,
{
    if n == 0 {
        assert(buf@ =~= old(buf)@ + be_bytes(v as nat, 0));
    } else {
        push_be(buf, v / 256, n - 1);
        buf.push((v % 256) as u8);
        assert(buf@ =~= old(buf)@ + be_bytes(v as nat, n as nat));
    }
}

/// Reads `n` big-endian bytes starting at `start` as an unsigned value.
pub fn read_be(buf: &[u8], start: usize, n: usize) -> (r: u128)
    requires
        n <= 16,
        start + n <= buf@.len(),
    ensures
        r as nat == be_val(buf@.subrange(start as int, start as int + n as int)),
    decreases n,
{
    if n == 0 {
        assert(buf@.subrange(start as int, start as int) =~= Seq::<u8>::empty());
        0
    } else {
        let len = buf.len();
        let hi = read_be(buf, start, n - 1);
        let b = buf[start + (n - 1)];
        proof {
            let s = buf@.subrange(start as int, start as int + n as int);
            assert(s.drop_last() =~= buf@.subrange(start as int, start as int + n as int - 1));
            lemma_be_val_bound(s.drop_last());
            lemma_pow256_monotone((n - 1) as nat, 15);
            lemma_pow256_16();
            assert(pow256(15) * 256 == pow256(16)) by {
                reveal_with_fuel(pow256, 17);
            }
        }
        hi * 256 + (b as u128)
    }
}

/// The canonical 16-byte magic cookie that authenticates an offline
/// control packet as protocol-native.
pub open spec fn spec_magic() -> Seq<u8> {
    seq![
        0x00u8, 0xffu8, 0xffu8, 0x00u8, 0xfeu8, 0xfeu8, 0xfeu8, 0xfeu8,
        0xfdu8, 0xfdu8, 0xfdu8, 0xfdu8, 0x12u8, 0x34u8, 0x56u8, 0x78u8,
    ]
}

/// Appends the magic cookie verbatim.
pub fn push_magic(buf: &mut Vec<u8>)
    ensures
        final(buf)@ == old(buf)@ + spec_magic(),
{
    buf.push(0x00);
    buf.push(0xff);
    buf.push(0xff);
    buf.push(0x00);
    buf.push(0xfe);
    buf.push(0xfe);
    buf.push(0xfe);
    buf.push(0xfe);
    buf.push(0xfd);
    buf.push(0xfd);
    buf.push(0xfd);
    buf.push(0xfd);
    buf.push(0x12);
    buf.push(0x34);
    buf.push(0x56);
    buf.push(0x78);
    assert(buf@ =~= old(buf)@ + spec_magic());
}

/// True exactly when the 16 bytes at `start` are the magic cookie; false
/// (rather than a panic) when the buffer is too short.
pub fn read_magic(buf: &[u8], start: usize) -> (r: bool)
    ensures
        r <==> (start + 16 <= buf@.len() && buf@.subrange(start as int, start as int + 16)
            == spec_magic()),
{
    if buf.len() < 16 || start > buf.len() - 16 {
        return false;
    }
    let ok = buf[start] == 0x00 && buf[start + 1] == 0xff && buf[start + 2] == 0xff && buf[start
        + 3] == 0x00 && buf[start + 4] == 0xfe && buf[start + 5] == 0xfe && buf[start + 6] == 0xfe
        && buf[start + 7] == 0xfe && buf[start + 8] == 0xfd && buf[start + 9] == 0xfd && buf[start
        + 10] == 0xfd && buf[start + 11] == 0xfd && buf[start + 12] == 0x12 && buf[start + 13]
        == 0x34 && buf[start + 14] == 0x56 && buf[start + 15] == 0x78;
    proof {
        let s = buf@.subrange(start as int, start as int + 16);
        if ok {
            assert(s =~= spec_magic());
        } else {
            assert(s != spec_magic()) by {
                if s == spec_magic() {
                    assert(s[0] == 0x00 && s[1] == 0xff && s[2] == 0xff && s[3] == 0x00 && s[4]
                        == 0xfe && s[5] == 0xfe && s[6] == 0xfe && s[7] == 0xfe && s[8] == 0xfd
                        && s[9] == 0xfd && s[10] == 0xfd && s[11] == 0xfd && s[12] == 0x12 && s[13]
                        == 0x34 && s[14] == 0x56 && s[15] == 0x78);
                }
            }
        }
    }
    ok
}

/// Appends a whole byte slice.
pub fn push_slice(buf: &mut Vec<u8>, other: &[u8])
    ensures
        final(buf)@ == old(buf)@ + other@,
{
    buf.extend_from_slice(other);
}

/// Appends a 16-bit unsigned value, big-endian.
pub fn push_u16(buf: &mut Vec<u8>, v: u16)
    ensures
        final(buf)@ == old(buf)@ + be_bytes(v as nat, 2),
{
    push_be(buf, v as u128, 2);
}

/// Appends the low 24 bits of `v` as 3 bytes, big-endian. Values at or
/// above `2^24` are truncated to `v % 2^24`, deterministically.
pub fn push_u24(buf: &mut Vec<u8>, v: u32)
    ensures
        final(buf)@ == old(buf)@ + be_bytes(v as nat, 3),
{
    push_be(buf, v as u128, 3);
}

/// Appends a 32-bit unsigned value, big-endian.
pub fn push_u32(buf: &mut Vec<u8>, v: u32)
    ensures
        final(buf)@ == old(buf)@ + be_bytes(v as nat, 4),
{
    push_be(buf, v as u128, 4);
}

/// Appends a 64-bit unsigned value, big-endian.
pub fn push_u64(buf: &mut Vec<u8>, v: u64)
    ensures
        final(buf)@ == old(buf)@ + be_bytes(v as nat, 8),
{
    push_be(buf, v as u128, 8);
}

/// Appends a 128-bit unsigned value, big-endian.
pub fn push_u128(buf: &mut Vec<u8>, v: u128)
    ensures
        final(buf)@ == old(buf)@ + be_bytes(v as nat, 16),
{
    push_be(buf, v, 16);
}

/// Reads a big-endian 16-bit unsigned value at `start`.
pub fn read_u16(buf: &[u8], start: usize) -> (r: Result<u16, DecodeError>)
    ensures
        r is Ok <==> start + 2 <= buf@.len(),
        r is Ok ==> r->Ok_0 as nat == be_val(buf@.subrange(start as int, start as int + 2)),
        r is Err ==> r == Err::<u16, DecodeError>(DecodeError::OutOfBounds),
{
    if buf.len() < 2 || start > buf.len() - 2 {
        return Err(DecodeError::OutOfBounds);
    }
    let v = read_be(buf, start, 2);
    proof {
        lemma_be_val_bound(buf@.subrange(start as int, start as int + 2));
        reveal_with_fuel(pow256, 3);
    }
    Ok(v as u16)
}

/// Reads a 24-bit unsigned value at `start`: 3 bytes, big-endian,
/// reconstructed by zero-extending to 32 bits.
pub fn read_u24(buf: &[u8], start: usize) -> (r: Result<u32, DecodeError>)
    ensures
        r is Ok <==> start + 3 <= buf@.len(),
        r is Ok ==> r->Ok_0 as nat == be_val(buf@.subrange(start as int, start as int + 3)),
        r is Ok ==> r->Ok_0 < 0x1000000,
        r is Err ==> r == Err::<u32, DecodeError>(DecodeError::OutOfBounds),
{
    if buf.len() < 3 || start > buf.len() - 3 {
        return Err(DecodeError::OutOfBounds);
    }
    let v = read_be(buf, start, 3);
    proof {
        lemma_be_val_bound(buf@.subrange(start as int, start as int + 3));
        reveal_with_fuel(pow256, 4);
    }
    Ok(v as u32)
}

/// Reads a big-endian 32-bit unsigned value at `start`.
pub fn read_u32(buf: &[u8], start: usize) -> (r: Result<u32, DecodeError>)
    ensures
        r is Ok <==> start + 4 <= buf@.len(),
        r is Ok ==> r->Ok_0 as nat == be_val(buf@.subrange(start as int, start as int + 4)),
        r is Err ==> r == Err::<u32, DecodeError>(DecodeError::OutOfBounds),
{
    if buf.len() < 4 || start > buf.len() - 4 {
        return Err(DecodeError::OutOfBounds);
    }
    let v = read_be(buf, start, 4);
    proof {
        lemma_be_val_bound(buf@.subrange(start as int, start as int + 4));
        reveal_with_fuel(pow256, 5);
    }
    Ok(v as u32)
}

/// Reads a big-endian 64-bit unsigned value at `start`.
pub fn read_u64(buf: &[u8], start: usize) -> (r: Result<u64, DecodeError>)
    ensures
        r is Ok <==> start + 8 <= buf@.len(),
        r is Ok ==> r->Ok_0 as nat == be_val(buf@.subrange(start as int, start as int + 8)),
        r is Err ==> r == Err::<u64, DecodeError>(DecodeError::OutOfBounds),
{
    if buf.len() < 8 || start > buf.len() - 8 {
        return Err(DecodeError::OutOfBounds);
    }
    let v = read_be(buf, start, 8);
    proof {
        lemma_be_val_bound(buf@.subrange(start as int, start as int + 8));
        reveal_with_fuel(pow256, 9);
    }
    Ok(v as u64)
}

/// Reads a big-endian 128-bit unsigned value at `start`.
pub fn read_u128(buf: &[u8], start: usize) -> (r: Result<u128, DecodeError>)
    ensures
        r is Ok <==> start + 16 <= buf@.len(),
        r is Ok ==> r->Ok_0 as nat == be_val(buf@.subrange(start as int, start as int + 16)),
        r is Err ==> r == Err::<u128, DecodeError>(DecodeError::OutOfBounds),
{
    if buf.len() < 16 || start > buf.len() - 16 {
        return Err(DecodeError::OutOfBounds);
    }
    Ok(read_be(buf, start, 16))
}

/// The two's-complement byte pattern of a signed 8-bit value.
pub open spec fn i8_as_u8(v: i8) -> u8 {
    if v >= 0 {
        v as u8
    } else {
        (v + 0x100) as u8
    }
}

/// The two's-complement byte pattern of a signed 16-bit value.
pub open spec fn i16_as_u16(v: i16) -> u16 {
    if v >= 0 {
        v as u16
    } else {
        (v + 0x10000) as u16
    }
}

/// The signed 16-bit value whose two's-complement pattern is `v`.
pub open spec fn u16_as_i16(v: u16) -> i16 {
    if v < 0x8000 {
        v as i16
    } else {
        (v - 0x10000) as i16
    }
}

/// The two's-complement byte pattern of a signed 32-bit value.
pub open spec fn i32_as_u32(v: i32) -> u32 {
    if v >= 0 {
        v as u32
    } else {
        (v + 0x100000000) as u32
    }
}

/// The signed 32-bit value whose two's-complement pattern is `v`.
pub open spec fn u32_as_i32(v: u32) -> i32 {
    if v < 0x80000000 {
        v as i32
    } else {
        (v - 0x100000000) as i32
    }
}

/// The two's-complement byte pattern of a signed 64-bit value.
pub open spec fn i64_as_u64(v: i64) -> u64 {
    if v >= 0 {
        v as u64
    } else {
        (v + 0x10000000000000000) as u64
    }
}

/// The signed 64-bit value whose two's-complement pattern is `v`.
pub open spec fn u64_as_i64(v: u64) -> i64 {
    if v < 0x8000000000000000 {
        v as i64
    } else {
        (v - 0x10000000000000000) as i64
    }
}

/// The two's-complement byte pattern of a signed 128-bit value.
pub open spec fn i128_as_u128(v: i128) -> u128 {
    if v >= 0 {
        v as u128
    } else {
        (v + 0x100000000000000000000000000000000) as u128
    }
}

/// The signed 128-bit value whose two's-complement pattern is `v`.
pub open spec fn u128_as_i128(v: u128) -> i128 {
    if v < 0x80000000000000000000000000000000 {
        v as i128
    } else {
        (v - 0x100000000000000000000000000000000) as i128
    }
}

/// Appends a signed 8-bit value as its two's-complement byte.
pub fn push_i8(buf: &mut Vec<u8>, v: i8)
    ensures
        final(buf)@ == old(buf)@ + seq![i8_as_u8(v)],
{
    let u: u8 = if v >= 0 {
        v as u8
    } else {
        ((v as i16) + 0x100) as u8
    };
    buf.push(u);
    assert(buf@ =~= old(buf)@ + seq![i8_as_u8(v)]);
}

/// Appends a signed 16-bit value, big-endian two's complement.
pub fn push_i16(buf: &mut Vec<u8>, v: i16)
    ensures
        final(buf)@ == old(buf)@ + be_bytes(i16_as_u16(v) as nat, 2),
{
    let u: u16 = if v >= 0 {
        v as u16
    } else {
        ((v as i32) + 0x10000) as u16
    };
    push_u16(buf, u);
}

/// Appends a signed 32-bit value, big-endian two's complement.
pub fn push_i32(buf: &mut Vec<u8>, v: i32)
    ensures
        final(buf)@ == old(buf)@ + be_bytes(i32_as_u32(v) as nat, 4),
{
    let u: u32 = if v >= 0 {
        v as u32
    } else {
        ((v as i64) + 0x100000000) as u32
    };
    push_u32(buf, u);
}

/// Appends a signed 64-bit value, big-endian two's complement.
pub fn push_i64(buf: &mut Vec<u8>, v: i64)
    ensures
        final(buf)@ == old(buf)@ + be_bytes(i64_as_u64(v) as nat, 8),
{
    let u: u64 = if v >= 0 {
        v as u64
    } else {
        ((v as i128) + 0x10000000000000000) as u64
    };
    push_u64(buf, u);
}

/// Appends a signed 128-bit value, big-endian two's complement.
pub fn push_i128(buf: &mut Vec<u8>, v: i128)
    ensures
        final(buf)@ == old(buf)@ + be_bytes(i128_as_u128(v) as nat, 16),
{
    let u: u128 = if v >= 0 {
        v as u128
    } else {
        let m: u128 = (-(v + 1)) as u128;
        u128::MAX - m
    };
    push_u128(buf, u);
}

/// Reads a big-endian signed 16-bit value at `start`.
pub fn read_i16(buf: &[u8], start: usize) -> (r: Result<i16, DecodeError>)
    ensures
        r is Ok <==> start + 2 <= buf@.len(),
        r is Ok ==> r->Ok_0 == u16_as_i16(
            be_val(buf@.subrange(start as int, start as int + 2)) as u16,
        ),
{
    let u = match read_u16(buf, start) {
        Ok(u) => u,
        Err(e) => {
            return Err(e);
        },
    };
    proof {
        lemma_be_val_bound(buf@.subrange(start as int, start as int + 2));
        reveal_with_fuel(pow256, 3);
    }
    if u < 0x8000 {
        Ok(u as i16)
    } else {
        let d: i32 = (u as i32) - 0x10000;
        Ok(d as i16)
    }
}

/// Reads a big-endian signed 32-bit value at `start`.
pub fn read_i32(buf: &[u8], start: usize) -> (r: Result<i32, DecodeError>)
    ensures
        r is Ok <==> start + 4 <= buf@.len(),
        r is Ok ==> r->Ok_0 == u32_as_i32(
            be_val(buf@.subrange(start as int, start as int + 4)) as u32,
        ),
{
    let u = match read_u32(buf, start) {
        Ok(u) => u,
        Err(e) => {
            return Err(e);
        },
    };
    proof {
        lemma_be_val_bound(buf@.subrange(start as int, start as int + 4));
        reveal_with_fuel(pow256, 5);
    }
    if u < 0x80000000 {
        Ok(u as i32)
    } else {
        let d: i64 = (u as i64) - 0x100000000;
        Ok(d as i32)
    }
}

/// Reads a big-endian signed 64-bit value at `start`.
pub fn read_i64(buf: &[u8], start: usize) -> (r: Result<i64, DecodeError>)
    ensures
        r is Ok <==> start + 8 <= buf@.len(),
        r is Ok ==> r->Ok_0 == u64_as_i64(
            be_val(buf@.subrange(start as int, start as int + 8)) as u64,
        ),
{
    let u = match read_u64(buf, start) {
        Ok(u) => u,
        Err(e) => {
            return Err(e);
        },
    };
    proof {
        lemma_be_val_bound(buf@.subrange(start as int, start as int + 8));
        reveal_with_fuel(pow256, 9);
    }
    if u < 0x8000000000000000 {
        Ok(u as i64)
    } else {
        let d: i128 = (u as i128) - 0x10000000000000000;
        Ok(d as i64)
    }
}

/// Reads a big-endian signed 128-bit value at `start`.
pub fn read_i128(buf: &[u8], start: usize) -> (r: Result<i128, DecodeError>)
    ensures
        r is Ok <==> start + 16 <= buf@.len(),
        r is Ok ==> r->Ok_0 == u128_as_i128(
            be_val(buf@.subrange(start as int, start as int + 16)) as u128,
        ),
{
    let u = match read_u128(buf, start) {
        Ok(u) => u,
        Err(e) => {
            return Err(e);
        },
    };
    proof {
        lemma_be_val_bound(buf@.subrange(start as int, start as int + 16));
        lemma_pow256_16();
    }
    if u < 0x80000000000000000000000000000000 {
        Ok(u as i128)
    } else {
        let m: u128 = u128::MAX - u;
        Ok(-(m as i128) - 1)
    }
}

/// Relies on String::from_utf8: succeeds exactly when the bytes are
/// valid UTF-8, and then returns the string those bytes spell.
#[verifier::external_body]
fn string_from_utf8(bytes: Vec<u8>) -> (r: Result<String, DecodeError>)
    ensures
        r is Ok <==> valid_utf8(bytes@),
        r is Ok ==> r->Ok_0@ == decode_utf8(bytes@),
{
    match String::from_utf8(bytes) {
        Ok(s) => Ok(s),
        Err(_) => Err(DecodeError::InvalidUtf8),
    }
}

/// Appends a string: a 16-bit length prefix (byte count) followed by the
/// UTF-8 bytes. Fails, leaving the buffer unchanged, when the string's
/// byte length does not fit the prefix.
pub fn push_string(buf: &mut Vec<u8>, s: &str) -> (r: Result<(), DecodeError>)
    ensures
        r is Ok <==> encode_utf8(s@).len() <= 0xffff,
        r is Ok ==> final(buf)@ == old(buf)@ + be_bytes(encode_utf8(s@).len(), 2) + encode_utf8(
            s@,
        ),
        r is Err ==> final(buf)@ == old(buf)@,
{
    let bytes = s.as_bytes();
    let n = bytes.len();
    if n > 0xffff {
        return Err(DecodeError::StringTooLong);
    }
    push_u16(buf, n as u16);
    push_slice(buf, bytes);
    assert(buf@ =~= old(buf)@ + be_bytes(encode_utf8(s@).len(), 2) + encode_utf8(s@));
    Ok(())
}

/// Reads a string written by [`push_string`]: a 16-bit length prefix and
/// that many UTF-8 bytes. Fails on a short buffer or invalid UTF-8.
pub fn read_string(buf: &[u8], start: usize) -> (r: Result<String, DecodeError>)
    ensures
        r is Ok <==> (start + 2 <= buf@.len() && {
            let n = be_val(buf@.subrange(start as int, start as int + 2));
            &&& start + 2 + n <= buf@.len()
            &&& valid_utf8(buf@.subrange(start as int + 2, start as int + 2 + n))
        }),
        r is Ok ==> r->Ok_0@ == decode_utf8(
            buf@.subrange(
                start as int + 2,
                start as int + 2 + be_val(
                    buf@.subrange(start as int, start as int + 2),
                ) as int,
            ),
        ),
{
    let n = match read_u16(buf, start) {
        Ok(n) => n,
        Err(e) => {
            return Err(e);
        },
    };
    let n = n as usize;
    if n > buf.len() - (start + 2) {
        return Err(DecodeError::OutOfBounds);
    }
    let body = slice_subrange(buf, start + 2, start + 2 + n);
    let bytes = slice_to_vec(body);
    string_from_utf8(bytes)
}

/// The wire form of an IPv4 endpoint: the family byte 4, the
/// one's complement of each octet (a legacy obfuscation quirk that must
/// be reproduced bit-exactly), then the port, big-endian. Only defined
/// for IPv4; the codec rejects IPv6 endpoints.
pub open spec fn spec_encode_address(ep: Endpoint) -> Seq<u8> {
    match ep.ip {
        IpAddress::V4(a, b, c, d) => seq![
            4u8,
            (255 - a) as u8,
            (255 - b) as u8,
            (255 - c) as u8,
            (255 - d) as u8,
        ] + be_bytes(ep.port as nat, 2),
        IpAddress::V6(..) => Seq::empty(),
    }
}

/// The endpoint encoded at `start` of `b`, if the seven bytes are there
/// and the family byte marks IPv4.
pub open spec fn spec_decode_address(b: Seq<u8>, start: int) -> Option<Endpoint> {
    if 0 <= start && start + 7 <= b.len() && b[start] == 4 {
        Some(
            Endpoint {
                ip: IpAddress::V4(
                    (255 - b[start + 1]) as u8,
                    (255 - b[start + 2]) as u8,
                    (255 - b[start + 3]) as u8,
                    (255 - b[start + 4]) as u8,
                ),
                port: be_val(b.subrange(start + 5, start + 7)) as u16,
            },
        )
    } else {
        None
    }
}

/// Appends an IPv4 endpoint in the protocol's historical address scheme;
/// an IPv6 endpoint is rejected, leaving the buffer unchanged.
pub fn push_address(buf: &mut Vec<u8>, ep: Endpoint) -> (r: Result<(), DecodeError>)
    ensures
        r is Ok <==> ep.ip is V4,
        r is Ok ==> final(buf)@ == old(buf)@ + spec_encode_address(ep),
        r is Err ==> final(buf)@ == old(buf)@,
        r is Err ==> r == Err::<(), DecodeError>(DecodeError::UnsupportedAddressFamily),
{
    match ep.ip {
        IpAddress::V4(a, b, c, d) => {
            buf.push(4);
            buf.push(255 - a);
            buf.push(255 - b);
            buf.push(255 - c);
            buf.push(255 - d);
            push_u16(buf, ep.port);
            assert(buf@ =~= old(buf)@ + spec_encode_address(ep));
            Ok(())
        },
        IpAddress::V6(..) => Err(DecodeError::UnsupportedAddressFamily),
    }
}

/// Reads an endpoint written by [`push_address`]: complements each of
/// the four octets back, then reads the port. Fails on a short buffer or
/// a family byte other than the IPv4 marker.
pub fn read_address(buf: &[u8], start: usize) -> (r: Result<Endpoint, DecodeError>)
    ensures
        r is Ok <==> spec_decode_address(buf@, start as int) is Some,
        r is Ok ==> Some(r->Ok_0) == spec_decode_address(buf@, start as int),
        r is Err ==> r->Err_0 == (if start + 7 <= buf@.len() {
            DecodeError::UnsupportedAddressFamily
        } else {
            DecodeError::OutOfBounds
        }),
{
    if buf.len() < 7 || start > buf.len() - 7 {
        return Err(DecodeError::OutOfBounds);
    }
    if buf[start] != 4 {
        return Err(DecodeError::UnsupportedAddressFamily);
    }
    let a = 255 - buf[start + 1];
    let b = 255 - buf[start + 2];
    let c = 255 - buf[start + 3];
    let d = 255 - buf[start + 4];
    let port = read_be(buf, start + 5, 2);
    proof {
        lemma_be_val_bound(buf@.subrange(start as int + 5, start as int + 7));
        reveal_with_fuel(pow256, 3);
    }
    Ok(Endpoint { ip: IpAddress::V4(a, b, c, d), port: port as u16 })
}

/// Address codec involution: decoding an encoded IPv4 endpoint yields
/// that endpoint again; complementing each octet twice is the identity.
pub proof fn lemma_address_codec_involution(ep: Endpoint)
    requires
        ep.ip is V4,
    ensures
        spec_decode_address(spec_encode_address(ep), 0) == Some(ep),
{
    let s = spec_encode_address(ep);
    lemma_be_bytes_len(ep.port as nat, 2);
    assert(s.subrange(5, 7) =~= be_bytes(ep.port as nat, 2));
    reveal_with_fuel(pow256, 3);
    lemma_be_val_of_be_bytes(ep.port as nat, 2);
}

} // verus!
