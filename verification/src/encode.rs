//! The way back: writing values in the encodings that the parser reads, and
//! the proof that reading gives back what was written.

use crate::parser::{
    le_u16, le_u32, le_u64, le_value, packed_i64_len, packed_i64_value, pow256, signed,
    simple_u64_is_long, simple_u64_short,
};
use vstd::prelude::*;

verus! {

/// The `width` low bytes of `v`, low byte first.
pub open spec fn le_bytes(v: nat, width: nat) -> Seq<u8>
    decreases width,
{
    if width == 0 {
        Seq::empty()
    } else {
        seq![(v % 256) as u8] + le_bytes(v / 256, (width - 1) as nat)
    }
}

/// The unsigned value with the same bits as `v` in `2 * half` values.
pub open spec fn unsigned(v: int, half: int) -> nat {
    if v >= 0 {
        v as nat
    } else {
        (v + 2 * half) as nat
    }
}

/// Number of bytes that `v` needs.
pub open spec fn byte_len(v: nat) -> nat
    decreases v,
{
    if v == 0 {
        0
    } else {
        1 + byte_len(v / 256)
    }
}

/// The magnitude of a value.
pub open spec fn magnitude(v: int) -> nat {
    if v >= 0 {
        v as nat
    } else {
        (-v) as nat
    }
}

/// The flag byte of a packed integer: sign, count of following bytes, and
/// the lowest four bits of the magnitude.
pub open spec fn packed_flags(v: int) -> int {
    (if v < 0 {
        1int
    } else {
        0int
    }) + 2 * byte_len(magnitude(v) / 16) + 16 * (magnitude(v) % 16)
}

/// A value as a packed integer; for magnitudes below 2 to the power 60.
pub open spec fn packed_i64_bytes(v: int) -> Seq<u8> {
    seq![packed_flags(v) as u8] + le_bytes(magnitude(v) / 16, byte_len(magnitude(v) / 16))
}

proof fn lemma_le_bytes_len(v: nat, width: nat)
    ensures
        le_bytes(v, width).len() == width,
    decreases width,
{
    if width > 0 {
        lemma_le_bytes_len(v / 256, (width - 1) as nat);
    }
}

proof fn lemma_pow256_pos(n: int)
    ensures
        pow256(n) >= 1,
    decreases n,
{
    if n > 0 {
        lemma_pow256_pos(n - 1);
    }
}

proof fn lemma_le_value_bytes(v: nat, width: nat)
    requires
        v < pow256(width as int),
    ensures
        le_value(le_bytes(v, width)) == v,
    decreases width,
{
    if width > 0 {
        let b = le_bytes(v, width);
        let tail = le_bytes(v / 256, (width - 1) as nat);
        assert(b.skip(1) =~= tail);
        assert(b[0] == (v % 256) as u8);
        lemma_pow256_pos(width - 1);
        assert(v / 256 < pow256(width - 1)) by {
            assert(pow256(width as int) == 256 * pow256(width - 1));
        }
        lemma_le_value_bytes(v / 256, (width - 1) as nat);
    }
}

proof fn lemma_byte_len(v: nat, limit: nat)
    requires
        v < pow256(limit as int),
    ensures
        byte_len(v) <= limit,
        v < pow256(byte_len(v) as int),
    decreases v,
{
    if v > 0 {
        lemma_pow256_pos(limit as int - 1);
        if limit == 0 {
            assert(pow256(0) == 1);
        } else {
            assert(pow256(limit as int) == 256 * pow256(limit - 1));
            lemma_byte_len(v / 256, (limit - 1) as nat);
            let k = byte_len(v / 256);
            assert(pow256(k as int + 1) == 256 * pow256(k as int));
        }
    }
}

/// Two bytes written by [`write_u16`] read back as the value.
pub proof fn lemma_u16_round_trip(v: u16, rest: Seq<u8>)
    ensures
        (le_bytes(v as nat, 2) + rest).len() >= 2,
        le_u16(le_bytes(v as nat, 2) + rest) == v,
        (le_bytes(v as nat, 2) + rest).skip(2) == rest,
{
    reveal_with_fuel(le_bytes, 3);
    let b = le_bytes(v as nat, 2);
    lemma_le_bytes_len(v as nat, 2);
    assert((b + rest).skip(2) =~= rest);
    assert((b + rest)[0] == b[0] && (b + rest)[1] == b[1]);
}

/// Four bytes written by [`write_u32`] read back as the value.
pub proof fn lemma_u32_round_trip(v: u32, rest: Seq<u8>)
    ensures
        (le_bytes(v as nat, 4) + rest).len() >= 4,
        le_u32(le_bytes(v as nat, 4) + rest) == v,
        (le_bytes(v as nat, 4) + rest).skip(4) == rest,
{
    reveal_with_fuel(le_bytes, 5);
    let b = le_bytes(v as nat, 4);
    lemma_le_bytes_len(v as nat, 4);
    assert((b + rest).skip(4) =~= rest);
    assert((b + rest)[0] == b[0] && (b + rest)[1] == b[1] && (b + rest)[2] == b[2] && (b
        + rest)[3] == b[3]);
}

/// Eight bytes written by [`write_u64`] read back as the value.
pub proof fn lemma_u64_round_trip(v: u64, rest: Seq<u8>)
    ensures
        (le_bytes(v as nat, 8) + rest).len() >= 8,
        le_u64(le_bytes(v as nat, 8) + rest) == v,
        (le_bytes(v as nat, 8) + rest).skip(8) == rest,
{
    reveal_with_fuel(le_bytes, 9);
    let b = le_bytes(v as nat, 8);
    lemma_le_bytes_len(v as nat, 8);
    assert((b + rest).skip(8) =~= rest);
    assert((b + rest)[0] == b[0] && (b + rest)[1] == b[1] && (b + rest)[2] == b[2] && (b
        + rest)[3] == b[3] && (b + rest)[4] == b[4] && (b + rest)[5] == b[5] && (b + rest)[6]
        == b[6] && (b + rest)[7] == b[7]);
}

/// A signed value written as its two's complement reads back as itself.
pub proof fn lemma_signed_round_trip(v: int, half: int)
    requires
        half > 0,
        -half <= v < half,
    ensures
        0 <= unsigned(v, half) < 2 * half,
        signed(unsigned(v, half) as int, half) == v,
{
}

/// A packed integer written by [`write_packed_i64`] reads back as the
/// value: the flag byte announces the bytes that follow, and flag and bytes
/// together stand for the value.
pub proof fn lemma_packed_i64_round_trip(v: i64, rest: Seq<u8>)
    requires
        magnitude(v as int) < 0x1000_0000_0000_0000,
    ensures
        ({
            let b = packed_i64_bytes(v as int) + rest;
            let n = packed_i64_len(b[0]);
            &&& 0 <= packed_flags(v as int) < 256
            &&& b.len() >= 1 + n
            &&& packed_i64_value(b[0], b.subrange(1, 1 + n)) == v
            &&& b.skip(1 + n) == rest
        }),
{
    let m = magnitude(v as int);
    let high = m / 16;
    let k = byte_len(high);
    assert(high < pow256(7)) by {
        reveal_with_fuel(pow256, 8);
    }
    lemma_byte_len(high, 7);
    lemma_le_value_bytes(high, k);
    lemma_le_bytes_len(high, k);
    let flags = packed_flags(v as int);
    let tail = le_bytes(high, k);
    let b = packed_i64_bytes(v as int) + rest;
    assert(b[0] == flags as u8);
    assert(b.subrange(1, 1 + k as int) =~= tail);
    assert(b.skip(1 + k as int) =~= rest);
}

/// A date at or above the limit of the short form, written as one word,
/// reads back with the fixed high part over its low twelve bits.
pub proof fn lemma_simple_u64_short_round_trip(word: u16, rest: Seq<u8>)
    requires
        word % 0x1000 >= 0x81f,
    ensures
        !simple_u64_is_long(le_u16(le_bytes(word as nat, 2) + rest)),
        simple_u64_short(le_u16(le_bytes(word as nat, 2) + rest)) == 0x11000 + word % 0x1000,
        (le_bytes(word as nat, 2) + rest).skip(2) == rest,
{
    lemma_u16_round_trip(word, rest);
}

/// Appends the `width` low bytes of `v`, low byte first.
fn write_le(out: &mut Vec<u8>, v: u64, width: usize)
    requires
        width <= 8,
    ensures
        final(out)@ == old(out)@ + le_bytes(v as nat, width as nat),
{
    let mut left = v;
    let mut i: usize = 0;
    proof {
        assert(old(out)@ + le_bytes(left as nat, 0) =~= old(out)@);
    }
    while i < width
        invariant
            0 <= i <= width <= 8,
            out@ + le_bytes(left as nat, (width - i) as nat) == old(out)@ + le_bytes(
                v as nat,
                width as nat,
            ),
        decreases width - i,
    {
        let byte = (left % 256) as u8;
        proof {
            let tail = le_bytes((left / 256) as nat, (width - i - 1) as nat);
            assert(le_bytes(left as nat, (width - i) as nat) == seq![byte] + tail);
            assert(out@.push(byte) + tail =~= out@ + (seq![byte] + tail));
        }
        out.push(byte);
        left = left / 256;
        i = i + 1;
    }
    proof {
        assert(out@ + le_bytes(left as nat, 0) =~= out@);
    }
}

pub fn write_u8(out: &mut Vec<u8>, v: u8)
    ensures
        final(out)@ == old(out)@.push(v),
{
    out.push(v);
}

pub fn write_u16(out: &mut Vec<u8>, v: u16)
    ensures
        final(out)@ == old(out)@ + le_bytes(v as nat, 2),
{
    write_le(out, v as u64, 2);
}

pub fn write_u32(out: &mut Vec<u8>, v: u32)
    ensures
        final(out)@ == old(out)@ + le_bytes(v as nat, 4),
{
    write_le(out, v as u64, 4);
}

pub fn write_u64(out: &mut Vec<u8>, v: u64)
    ensures
        final(out)@ == old(out)@ + le_bytes(v as nat, 8),
{
    write_le(out, v, 8);
}

pub fn write_i8(out: &mut Vec<u8>, v: i8)
    ensures
        final(out)@ == old(out)@.push(unsigned(v as int, 0x80) as u8),
{
    let byte: u8 = if v >= 0 {
        v as u8
    } else {
        ((v - i8::MIN) as u8) + 0x80
    };
    out.push(byte);
}

pub fn write_i16(out: &mut Vec<u8>, v: i16)
    ensures
        final(out)@ == old(out)@ + le_bytes(unsigned(v as int, 0x8000), 2),
{
    let word: u16 = if v >= 0 {
        v as u16
    } else {
        ((v - i16::MIN) as u16) + 0x8000
    };
    write_le(out, word as u64, 2);
}

pub fn write_i32(out: &mut Vec<u8>, v: i32)
    ensures
        final(out)@ == old(out)@ + le_bytes(unsigned(v as int, 0x8000_0000), 4),
{
    let word: u32 = if v >= 0 {
        v as u32
    } else {
        ((v - i32::MIN) as u32) + 0x8000_0000
    };
    write_le(out, word as u64, 4);
}

pub fn write_i64(out: &mut Vec<u8>, v: i64)
    ensures
        final(out)@ == old(out)@ + le_bytes(unsigned(v as int, 0x8000_0000_0000_0000), 8),
{
    let word: u64 = if v >= 0 {
        v as u64
    } else {
        ((v - i64::MIN) as u64) + 0x8000_0000_0000_0000
    };
    write_le(out, word, 8);
}

pub fn write_bool(out: &mut Vec<u8>, v: bool)
    ensures
        final(out)@ == old(out)@.push(if v {
            1u8
        } else {
            0u8
        }),
{
    out.push(if v {
        1
    } else {
        0
    });
}

/// Number of bytes that `v` needs.
fn count_bytes(v: u64) -> (n: usize)
    ensures
        n == byte_len(v as nat),
        n <= 8,
{
    let mut left = v;
    let mut n: usize = 0;
    proof {
        reveal_with_fuel(pow256, 9);
        lemma_byte_len(v as nat, 8);
    }
    while left > 0
        invariant
            n + byte_len(left as nat) == byte_len(v as nat),
            byte_len(v as nat) <= 8,
        decreases left,
    {
        left = left / 256;
        n = n + 1;
    }
    n
}

/// Writes a value as a packed integer in as few bytes as it needs. Returns
/// false, and writes nothing, for a magnitude of 2 to the power 60 or more.
pub fn write_packed_i64(out: &mut Vec<u8>, v: i64) -> (ok: bool)
    ensures
        ok == (magnitude(v as int) < 0x1000_0000_0000_0000),
        ok ==> final(out)@ == old(out)@ + packed_i64_bytes(v as int),
        !ok ==> final(out)@ == old(out)@,
{
    if v <= -0x1000_0000_0000_0000 || v >= 0x1000_0000_0000_0000 {
        return false;
    }
    let sign: u64 = if v < 0 {
        1
    } else {
        0
    };
    let m: u64 = if v < 0 {
        (-v) as u64
    } else {
        v as u64
    };
    let high = m / 16;
    let k = count_bytes(high);
    proof {
        assert(high < pow256(7)) by {
            reveal_with_fuel(pow256, 8);
        }
        lemma_byte_len(high as nat, 7);
    }
    let flags: u8 = (sign + 2 * (k as u64) + 16 * (m % 16)) as u8;
    let ghost before = out@;
    out.push(flags);
    write_le(out, high, k);
    proof {
        assert(before.push(flags) + le_bytes(high as nat, k as nat) =~= before + packed_i64_bytes(
            v as int,
        ));
    }
    true
}

} // verus!
