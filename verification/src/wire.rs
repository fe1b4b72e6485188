//! The byte formats that messages are made of: integers, variable-length
//! integers and byte strings.

use vstd::prelude::*;
use vstd::slice::{slice_subrange, slice_to_vec};

use crate::error::DecodeError;

verus! {

/// The `n` bytes of `v` in little-endian order.
pub open spec fn le_bytes(v: nat, n: nat) -> Seq<u8>
    decreases n,
{
    if n == 0 {
        Seq::empty()
    } else {
        seq![(v % 256) as u8] + le_bytes(v / 256, (n - 1) as nat)
    }
}

/// The number that the bytes `s` spell in little-endian order.
pub open spec fn le_value(s: Seq<u8>) -> nat
    decreases s.len(),
{
    if s.len() == 0 {
        0
    } else {
        s[0] as nat + 256 * le_value(s.drop_first())
    }
}

/// The little-endian number in the `n` bytes of `s` at `at`.
pub open spec fn le_at(s: Seq<u8>, at: int, n: int) -> nat {
    le_value(s.subrange(at, at + n))
}

/// The two bytes of `v` in big-endian order.
pub open spec fn be16_bytes(v: u16) -> Seq<u8> {
    seq![(v / 256) as u8, (v % 256) as u8]
}

/// The big-endian number in the two bytes of `s` at `at`.
pub open spec fn be16_at(s: Seq<u8>, at: int) -> u16 {
    (s[at] * 256 + s[at + 1]) as u16
}

/// `v` as a variable-length integer, in its shortest form.
pub open spec fn varint_bytes(v: nat) -> Seq<u8> {
    if v < 0xFD {
        seq![v as u8]
    } else if v <= 0xFFFF {
        seq![0xFDu8] + le_bytes(v, 2)
    } else if v <= 0xFFFF_FFFF {
        seq![0xFEu8] + le_bytes(v, 4)
    } else {
        seq![0xFFu8] + le_bytes(v, 8)
    }
}

/// A byte string after its length.
pub open spec fn var_bytes(s: Seq<u8>) -> Seq<u8> {
    varint_bytes(s.len()) + s
}

/// How many bytes follow the first byte `tag` of a variable-length integer.
pub open spec fn varint_extra(tag: u8) -> int {
    if tag < 0xFD {
        0
    } else if tag == 0xFD {
        2
    } else if tag == 0xFE {
        4
    } else {
        8
    }
}

/// The smallest number that is written with the first byte `tag`.
pub open spec fn varint_least(tag: u8) -> nat {
    if tag < 0xFD {
        0
    } else if tag == 0xFD {
        0xFD
    } else if tag == 0xFE {
        0x1_0000
    } else {
        0x1_0000_0000
    }
}

/// The variable-length integer at the front of `s`, with the number of bytes
/// that it takes.
pub open spec fn varint_of(s: Seq<u8>) -> Result<(u64, nat), DecodeError> {
    if s.len() == 0 || s.len() < 1 + varint_extra(s[0]) {
        Err(DecodeError::UnexpectedEof)
    } else if s[0] < 0xFD {
        Ok((s[0] as u64, 1))
    } else {
        let value = le_at(s, 1, varint_extra(s[0]));
        if value < varint_least(s[0]) {
            Err(DecodeError::NonMinimalVarInt)
        } else {
            Ok((value as u64, (1 + varint_extra(s[0])) as nat))
        }
    }
}

/// The byte string with its length at the front of `s`, and the number of
/// bytes that both take.
pub open spec fn bytes_of(s: Seq<u8>) -> Result<(Seq<u8>, nat), DecodeError> {
    match varint_of(s) {
        Err(e) => Err(e),
        Ok((n, width)) => if s.len() < width + n {
            Err(DecodeError::UnexpectedEof)
        } else {
            Ok((s.subrange(width as int, width + n), (width + n) as nat))
        },
    }
}

/// 256 to the power of `n`.
pub open spec fn pow256(n: nat) -> nat
    decreases n,
{
    if n == 0 {
        1
    } else {
        256 * pow256((n - 1) as nat)
    }
}

/// `le_bytes(v, n)` has `n` bytes, and they spell `v` where `v` fits.
pub proof fn lemma_le_bytes(v: nat, n: nat)
    ensures
        le_bytes(v, n).len() == n,
        v < pow256(n) ==> le_value(le_bytes(v, n)) == v,
    decreases n,
{
    if n > 0 {
        let rest = le_bytes(v / 256, (n - 1) as nat);
        lemma_le_bytes(v / 256, (n - 1) as nat);
        assert(le_bytes(v, n).drop_first() =~= rest);
    }
}

/// The number that `s` spells fits in `s.len()` bytes, and its bytes are `s`.
pub proof fn lemma_le_value(s: Seq<u8>)
    ensures
        le_value(s) < pow256(s.len()),
        le_bytes(le_value(s), s.len()) == s,
    decreases s.len(),
{
    if s.len() > 0 {
        let rest = s.drop_first();
        lemma_le_value(rest);
        let v = le_value(s);
        assert(v % 256 == s[0] as nat);
        assert(v / 256 == le_value(rest));
        assert(le_bytes(v, s.len()) =~= s);
    }
}

/// The powers of 256 that bound the integers of 2, 4 and 8 bytes.
pub proof fn lemma_pow256()
    ensures
        pow256(2) == 0x1_0000,
        pow256(4) == 0x1_0000_0000,
        pow256(8) == 0x1_0000_0000_0000_0000,
{
    reveal_with_fuel(pow256, 9);
}

/// `le_value` written out for 2, 4 and 8 bytes.
pub proof fn lemma_le_value_digits(s: Seq<u8>)
    ensures
        s.len() == 2 ==> le_value(s) == s[0] + 0x100 * s[1],
        s.len() == 4 ==> le_value(s) == s[0] + 0x100 * s[1] + 0x1_0000 * s[2] + 0x100_0000 * s[3],
        s.len() == 8 ==> le_value(s) == s[0] + 0x100 * s[1] + 0x1_0000 * s[2] + 0x100_0000 * s[3]
            + 0x1_0000_0000 * s[4] + 0x100_0000_0000 * s[5] + 0x1_0000_0000_0000 * s[6]
            + 0x100_0000_0000_0000 * s[7],
{
    reveal_with_fuel(le_value, 9);
}

/// The little-endian number in the two bytes of `data` at `at`.
pub fn read_u16(data: &[u8], at: usize) -> (r: u16)
    requires
        at + 2 <= data@.len(),
    ensures
        r == le_at(data@, at as int, 2),
{
    proof {
        lemma_le_value_digits(data@.subrange(at as int, at + 2));
    }
    data[at] as u16 + 0x100 * data[at + 1] as u16
}

/// The little-endian number in the four bytes of `data` at `at`.
pub fn read_u32(data: &[u8], at: usize) -> (r: u32)
    requires
        at + 4 <= data@.len(),
    ensures
        r == le_at(data@, at as int, 4),
{
    proof {
        lemma_le_value_digits(data@.subrange(at as int, at + 4));
    }
    data[at] as u32 + 0x100 * data[at + 1] as u32 + 0x1_0000 * data[at + 2] as u32 + 0x100_0000
        * data[at + 3] as u32
}

/// The little-endian number in the eight bytes of `data` at `at`.
pub fn read_u64(data: &[u8], at: usize) -> (r: u64)
    requires
        at + 8 <= data@.len(),
    ensures
        r == le_at(data@, at as int, 8),
{
    proof {
        lemma_le_value_digits(data@.subrange(at as int, at + 8));
    }
    data[at] as u64 + 0x100 * data[at + 1] as u64 + 0x1_0000 * data[at + 2] as u64 + 0x100_0000
        * data[at + 3] as u64 + 0x1_0000_0000 * data[at + 4] as u64 + 0x100_0000_0000 * data[at
        + 5] as u64 + 0x1_0000_0000_0000 * data[at + 6] as u64 + 0x100_0000_0000_0000 * data[at
        + 7] as u64
}

/// The big-endian number in the two bytes of `data` at `at`.
pub fn read_be16(data: &[u8], at: usize) -> (r: u16)
    requires
        at + 2 <= data@.len(),
    ensures
        r == be16_at(data@, at as int),
{
    data[at] as u16 * 256 + data[at + 1] as u16
}

/// Decodes the variable-length integer at the front of `data`, and says how
/// many bytes it takes.
pub fn read_varint(data: &[u8]) -> (r: Result<(u64, usize), DecodeError>)
    ensures
        r matches Ok(p) ==> varint_of(data@) == Ok::<(u64, nat), DecodeError>((p.0, p.1 as nat)),
        r matches Err(e) ==> varint_of(data@) == Err::<(u64, nat), DecodeError>(e),
{
    if data.len() == 0 {
        return Err(DecodeError::UnexpectedEof);
    }
    let tag: u8 = data[0];
    if tag < 0xFD {
        return Ok((tag as u64, 1));
    }
    let extra: usize = if tag == 0xFD {
        2
    } else if tag == 0xFE {
        4
    } else {
        8
    };
    if data.len() - 1 < extra {
        return Err(DecodeError::UnexpectedEof);
    }
    let (value, least): (u64, u64) = if tag == 0xFD {
        (read_u16(data, 1) as u64, 0xFD)
    } else if tag == 0xFE {
        (read_u32(data, 1) as u64, 0x1_0000)
    } else {
        (read_u64(data, 1), 0x1_0000_0000)
    };
    if value < least {
        Err(DecodeError::NonMinimalVarInt)
    } else {
        Ok((value, 1 + extra))
    }
}

/// Decodes the byte string with its length at the front of `data`, and says
/// how many bytes both take.
pub fn read_var_bytes(data: &[u8]) -> (r: Result<(Vec<u8>, usize), DecodeError>)
    ensures
        match r {
            Ok(p) => bytes_of(data@) == Ok::<(Seq<u8>, nat), DecodeError>((p.0@, p.1 as nat)),
            Err(e) => bytes_of(data@) == Err::<(Seq<u8>, nat), DecodeError>(e),
        },
        r matches Ok(p) ==> p.1 <= data@.len(),
{
    let (n, width): (u64, usize) = match read_varint(data) {
        Err(e) => return Err(e),
        Ok(p) => p,
    };
    if ((data.len() - width) as u64) < n {
        return Err(DecodeError::UnexpectedEof);
    }
    let end: usize = width + n as usize;
    Ok((slice_to_vec(slice_subrange(data, width, end)), end))
}

} // verus!
