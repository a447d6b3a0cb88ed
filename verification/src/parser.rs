//! Reader for the payload of a game packet: little-endian integers, the packed
//! and flag-gated encodings of the wire format, and length-prefixed lists.

use crate::definitions::{
    MoveOptionData, SkillMoveOptionData, SkillOptionData, TripodIndex, TripodLevel,
};
use crate::opcode::Opcode;
use std::marker::PhantomData;
use vstd::prelude::*;
use vstd::slice::slice_subrange;

verus! {

/// Why a payload could not be read.
#[derive(Debug, Copy, Clone, PartialEq, Eq, Structural)]
pub enum ParseError {
    /// Fewer bytes are left than the value needs.
    OutOfBytes,
    /// A string holds an unpaired surrogate.
    InvalidUtf16,
    /// A length prefix is negative or does not fit the machine's word.
    BadLength,
}

/// The value of two bytes, low byte first.
pub open spec fn le_u16(b: Seq<u8>) -> int
    recommends
        b.len() >= 2,
{
    b[0] + 0x100 * b[1]
}

/// The value of four bytes, low byte first.
pub open spec fn le_u32(b: Seq<u8>) -> int
    recommends
        b.len() >= 4,
{
    b[0] + 0x100 * b[1] + 0x1_0000 * b[2] + 0x100_0000 * b[3]
}

/// The value of eight bytes, low byte first.
pub open spec fn le_u64(b: Seq<u8>) -> int
    recommends
        b.len() >= 8,
{
    b[0] + 0x100 * b[1] + 0x1_0000 * b[2] + 0x100_0000 * b[3] + 0x1_0000_0000 * b[4]
        + 0x100_0000_0000 * b[5] + 0x1_0000_0000_0000 * b[6] + 0x100_0000_0000_0000 * b[7]
}

/// The value of any number of bytes, low byte first.
pub open spec fn le_value(b: Seq<u8>) -> nat
    decreases b.len(),
{
    if b.len() == 0 {
        0
    } else {
        b[0] as nat + 0x100 * le_value(b.skip(1))
    }
}

/// Two's complement reading of an unsigned value of `2 * half` possible values.
pub open spec fn signed(v: int, half: int) -> int {
    if v < half {
        v
    } else {
        v - 2 * half
    }
}

/// The value that a packed integer stands for: the flag byte holds the sign in
/// bit 0, the count of following bytes in bits 1 to 3 and the lowest four bits
/// of the magnitude in bits 4 to 7; the following bytes hold the rest of the
/// magnitude, low byte first.
pub open spec fn packed_i64_value(flags: u8, tail: Seq<u8>) -> int {
    let magnitude = 16 * le_value(tail) + flags as int / 16;
    if flags as int % 2 == 1 {
        -magnitude
    } else {
        magnitude
    }
}

/// Number of bytes that follow the flag byte of a packed integer.
pub open spec fn packed_i64_len(flags: u8) -> int {
    (flags as int / 2) % 8
}

/// Whether a peeked 16-bit word announces a full 64-bit date rather than a
/// short one.
pub open spec fn simple_u64_is_long(word: int) -> bool {
    word % 0x1000 < 0x81f
}

/// The value of a short date: the low twelve bits under a fixed high part.
pub open spec fn simple_u64_short(word: int) -> int {
    0x11000 + word % 0x1000
}

/// Whether bit `i` of a flag byte is set.
#[verifier::opaque]
pub open spec fn flag_bit(flag: u8, i: int) -> bool {
    (flag as int / pow2_small(i)) % 2 == 1
}

/// Two to the power `i`, for the bit positions of a byte.
pub open spec fn pow2_small(i: int) -> int {
    if i <= 0 {
        1
    } else if i == 1 {
        2
    } else if i == 2 {
        4
    } else if i == 3 {
        8
    } else if i == 4 {
        16
    } else if i == 5 {
        32
    } else if i == 6 {
        64
    } else {
        128
    }
}

/// Cursor over the bytes of a payload that are still unread.
pub struct Parser<'a>(&'a [u8]);

impl<'a> View for Parser<'a> {
    type V = Seq<u8>;

    /// The bytes that are still unread.
    closed spec fn view(&self) -> Seq<u8> {
        self.0@
    }
}

impl<'a> Parser<'a> {
    pub fn new(data: &'a [u8]) -> (parser: Self)
        ensures
            parser@ == data@,
    {
        Parser(data)
    }

    pub fn raw(&self) -> (rest: &[u8])
        ensures
            rest@ == self@,
    {
        self.0
    }

    /// Number of unread bytes.
    pub fn remaining(&self) -> (n: usize)
        ensures
            n == self@.len(),
    {
        self.0.len()
    }

    /// Moves past `count` bytes, which must be there.
    pub fn advance(&mut self, count: usize)
        requires
            count <= old(self)@.len(),
        ensures
            final(self)@ == old(self)@.skip(count as int),
    {
        self.0 = slice_subrange(self.0, count, self.0.len());
    }

    /// Moves past `count` bytes, or fails and stays where fewer are left.
    pub fn skip(&mut self, count: usize) -> (r: Result<(), ParseError>)
        ensures
            match r {
                Ok(()) => count <= old(self)@.len() && final(self)@ == old(self)@.skip(count as int),
                Err(e) => e == ParseError::OutOfBytes && count > old(self)@.len() && final(self)@
                    == old(self)@,
            },
    {
        if self.0.len() < count {
            return Err(ParseError::OutOfBytes);
        }
        self.advance(count);
        Ok(())
    }

    pub fn read_u8(&mut self) -> (r: Result<u8, ParseError>)
        ensures
            match r {
                Ok(v) => old(self)@.len() >= 1 && v == old(self)@[0] && final(self)@ == old(
                    self,
                )@.skip(1),
                Err(e) => e == ParseError::OutOfBytes && old(self)@.len() < 1 && final(self)@
                    == old(self)@,
            },
    {
        if self.0.len() < 1 {
            return Err(ParseError::OutOfBytes);
        }
        let ret = self.0[0];
        self.advance(1);
        Ok(ret)
    }

    pub fn read_u16(&mut self) -> (r: Result<u16, ParseError>)
        ensures
            match r {
                Ok(v) => old(self)@.len() >= 2 && v == le_u16(old(self)@) && final(self)@ == old(
                    self,
                )@.skip(2),
                Err(e) => e == ParseError::OutOfBytes && old(self)@.len() < 2 && final(self)@
                    == old(self)@,
            },
    {
        if self.0.len() < 2 {
            return Err(ParseError::OutOfBytes);
        }
        let ret = self.0[0] as u16 + 0x100 * (self.0[1] as u16);
        self.advance(2);
        Ok(ret)
    }

    pub fn read_u32(&mut self) -> (r: Result<u32, ParseError>)
        ensures
            match r {
                Ok(v) => old(self)@.len() >= 4 && v == le_u32(old(self)@) && final(self)@ == old(
                    self,
                )@.skip(4),
                Err(e) => e == ParseError::OutOfBytes && old(self)@.len() < 4 && final(self)@
                    == old(self)@,
            },
    {
        if self.0.len() < 4 {
            return Err(ParseError::OutOfBytes);
        }
        let b = self.0;
        let ret = b[0] as u32 + 0x100 * (b[1] as u32) + 0x1_0000 * (b[2] as u32) + 0x100_0000 * (
        b[3] as u32);
        self.advance(4);
        Ok(ret)
    }

    pub fn read_u64(&mut self) -> (r: Result<u64, ParseError>)
        ensures
            match r {
                Ok(v) => old(self)@.len() >= 8 && v == le_u64(old(self)@) && final(self)@ == old(
                    self,
                )@.skip(8),
                Err(e) => e == ParseError::OutOfBytes && old(self)@.len() < 8 && final(self)@
                    == old(self)@,
            },
    {
        if self.0.len() < 8 {
            return Err(ParseError::OutOfBytes);
        }
        let b = self.0;
        let lo = b[0] as u64 + 0x100 * (b[1] as u64) + 0x1_0000 * (b[2] as u64) + 0x100_0000 * (
        b[3] as u64);
        let hi = b[4] as u64 + 0x100 * (b[5] as u64) + 0x1_0000 * (b[6] as u64) + 0x100_0000 * (
        b[7] as u64);
        let ret = lo + 0x1_0000_0000 * hi;
        self.advance(8);
        Ok(ret)
    }

    pub fn read_i8(&mut self) -> (r: Result<i8, ParseError>)
        ensures
            match r {
                Ok(v) => old(self)@.len() >= 1 && v == signed(old(self)@[0] as int, 0x80)
                    && final(self)@ == old(self)@.skip(1),
                Err(e) => e == ParseError::OutOfBytes && old(self)@.len() < 1 && final(self)@
                    == old(self)@,
            },
    {
        let v = self.read_u8()?;
        if v < 0x80 {
            Ok(v as i8)
        } else {
            Ok((v - 0x80) as i8 + i8::MIN)
        }
    }

    pub fn read_i16(&mut self) -> (r: Result<i16, ParseError>)
        ensures
            match r {
                Ok(v) => old(self)@.len() >= 2 && v == signed(le_u16(old(self)@), 0x8000)
                    && final(self)@ == old(self)@.skip(2),
                Err(e) => e == ParseError::OutOfBytes && old(self)@.len() < 2 && final(self)@
                    == old(self)@,
            },
    {
        let v = self.read_u16()?;
        if v < 0x8000 {
            Ok(v as i16)
        } else {
            Ok((v - 0x8000) as i16 + i16::MIN)
        }
    }

    pub fn read_i32(&mut self) -> (r: Result<i32, ParseError>)
        ensures
            match r {
                Ok(v) => old(self)@.len() >= 4 && v == signed(le_u32(old(self)@), 0x8000_0000)
                    && final(self)@ == old(self)@.skip(4),
                Err(e) => e == ParseError::OutOfBytes && old(self)@.len() < 4 && final(self)@
                    == old(self)@,
            },
    {
        let v = self.read_u32()?;
        if v < 0x8000_0000 {
            Ok(v as i32)
        } else {
            Ok((v - 0x8000_0000) as i32 + i32::MIN)
        }
    }

    pub fn read_i64(&mut self) -> (r: Result<i64, ParseError>)
        ensures
            match r {
                Ok(v) => old(self)@.len() >= 8 && v == signed(
                    le_u64(old(self)@),
                    0x8000_0000_0000_0000,
                ) && final(self)@ == old(self)@.skip(8),
                Err(e) => e == ParseError::OutOfBytes && old(self)@.len() < 8 && final(self)@
                    == old(self)@,
            },
    {
        let v = self.read_u64()?;
        if v < 0x8000_0000_0000_0000 {
            Ok(v as i64)
        } else {
            Ok((v - 0x8000_0000_0000_0000) as i64 + i64::MIN)
        }
    }

    /// Reads the four bytes of a single-precision number and returns its bit
    /// pattern, low byte first.
    pub fn read_f32(&mut self) -> (r: Result<u32, ParseError>)
        ensures
            match r {
                Ok(v) => old(self)@.len() >= 4 && v == le_u32(old(self)@) && final(self)@ == old(
                    self,
                )@.skip(4),
                Err(e) => e == ParseError::OutOfBytes && old(self)@.len() < 4 && final(self)@
                    == old(self)@,
            },
    {
        self.read_u32()
    }

    /// Reads one byte as a truth value: 1 is true, anything else false.
    pub fn read_bool(&mut self) -> (r: Result<bool, ParseError>)
        ensures
            match r {
                Ok(v) => old(self)@.len() >= 1 && v == (old(self)@[0] == 1) && final(self)@
                    == old(self)@.skip(1),
                Err(e) => e == ParseError::OutOfBytes && old(self)@.len() < 1 && final(self)@
                    == old(self)@,
            },
    {
        Ok(self.read_u8()? == 1)
    }

    /// Reads a packed integer: a flag byte and up to seven bytes after it.
    pub fn read_packed_i64(&mut self) -> (r: Result<i64, ParseError>)
        ensures
            match r {
                Ok(v) => {
                    let n = packed_i64_len(old(self)@[0]);
                    &&& old(self)@.len() >= 1 + n
                    &&& v == packed_i64_value(old(self)@[0], old(self)@.subrange(1, 1 + n))
                    &&& final(self)@ == old(self)@.skip(1 + n as int)
                },
                Err(e) => e == ParseError::OutOfBytes && final(self)@ == old(self)@ && (old(
                    self,
                )@.len() < 1 || old(self)@.len() < 1 + packed_i64_len(old(self)@[0])),
            },
    {
        if self.0.len() < 1 {
            return Err(ParseError::OutOfBytes);
        }
        let flags = self.0[0];
        let len: usize = ((flags / 2) % 8) as usize;
        if self.0.len() < 1 + len {
            return Err(ParseError::OutOfBytes);
        }
        let ghost tail = self@.subrange(1, 1 + len as int);
        let mut ret: i64 = 0;
        let mut scale: i64 = 1;
        let mut i: usize = len;
        proof {
            assert(tail.subrange(len as int, len as int) =~= Seq::<u8>::empty());
        }
        while i > 0
            invariant
                0 <= i <= len <= 7,
                self@.len() >= 1 + len,
                tail == self@.subrange(1, 1 + len as int),
                ret == le_value(tail.subrange(i as int, len as int)),
                scale == pow256(len - i),
                0 <= ret < scale,
            decreases i,
        {
            i = i - 1;
            let byte = self.0[1 + i];
            proof {
                let cur = tail.subrange(i as int, len as int);
                assert(cur[0] == byte);
                assert(cur.skip(1) =~= tail.subrange(i + 1, len as int));
                lemma_pow256(len - i - 1);
                lemma_pow256_bound(len - i);
            }
            ret = byte as i64 + 0x100 * ret;
            scale = 0x100 * scale;
        }
        proof {
            assert(tail.subrange(0, len as int) =~= tail);
            lemma_pow256_bound(len as int);
        }
        let magnitude = 16 * ret + (flags / 16) as i64;
        self.advance(1 + len);
        if flags % 2 == 1 {
            Ok(-magnitude)
        } else {
            Ok(magnitude)
        }
    }

    /// Reads a date: where the low twelve bits of the next 16-bit word are
    /// below 0x81f a full 64-bit value follows, otherwise the word alone is
    /// read and widened.
    pub fn read_simple_u64(&mut self) -> (r: Result<u64, ParseError>)
        ensures
            match r {
                Ok(v) => {
                    &&& old(self)@.len() >= 2
                    &&& if simple_u64_is_long(le_u16(old(self)@)) {
                        &&& old(self)@.len() >= 8
                        &&& v == le_u64(old(self)@)
                        &&& final(self)@ == old(self)@.skip(8)
                    } else {
                        &&& v == simple_u64_short(le_u16(old(self)@))
                        &&& final(self)@ == old(self)@.skip(2)
                    }
                },
                Err(e) => e == ParseError::OutOfBytes && final(self)@ == old(self)@ && (old(
                    self,
                )@.len() < 2 || (simple_u64_is_long(le_u16(old(self)@)) && old(self)@.len() < 8)),
            },
    {
        if self.0.len() < 2 {
            return Err(ParseError::OutOfBytes);
        }
        let word = self.0[0] as u16 + 0x100 * (self.0[1] as u16);
        if word % 0x1000 < 0x81f {
            self.read_u64()
        } else {
            self.advance(2);
            Ok(0x11000 + (word % 0x1000) as u64)
        }
    }

    /// Reads and discards a flag byte and what it announces: for each of the
    /// bits 0 to 5 in turn, four bytes where the bit is set, and then, where
    /// bit 6 is set, a 16-bit count and that many bytes.
    pub fn read_throwaway_flags(&mut self) -> (r: Result<(), ParseError>)
        ensures
            match r {
                Ok(()) => {
                    &&& old(self)@.len() >= 1
                    &&& throwaway_span(old(self)@[0], old(self)@.skip(1), 0) matches Some(n)
                    &&& 1 + n <= old(self)@.len()
                    &&& final(self)@ == old(self)@.skip(1 + n)
                },
                Err(e) => e == ParseError::OutOfBytes && final(self)@ == old(self)@ && (old(
                    self,
                )@.len() < 1 || throwaway_span(old(self)@[0], old(self)@.skip(1), 0) is None),
            },
    {
        let saved = self.0;
        if self.0.len() < 1 {
            return Err(ParseError::OutOfBytes);
        }
        let flag = self.0[0];
        self.advance(1);
        let ghost start = self@;
        let ghost mut used: int = 0;
        let mut i: u8 = 0;
        proof {
            assert(start.skip(0) =~= start);
        }
        while i < 6
            invariant
                0 <= i <= 6,
                saved@ == old(self)@,
                old(self)@.len() >= 1,
                flag == old(self)@[0],
                start == old(self)@.skip(1),
                0 <= used <= start.len(),
                self@ == start.skip(used),
                throwaway_span(flag, start, 0) == shift_span(
                    throwaway_span(flag, self@, i as int),
                    used,
                ),
            decreases 6 - i,
        {
            let ghost before = self@;
            match self.throwaway_round(flag, i) {
                Ok(()) => {
                    proof {
                        let n = round_span(flag, before, i as int)->0;
                        assert(start.skip(used).skip(n) =~= start.skip(used + n));
                        used = used + n;
                    }
                },
                Err(e) => {
                    self.0 = saved;
                    return Err(e);
                },
            }
            i = i + 1;
        }
        proof {
            assert(old(self)@.skip(1).skip(used) =~= old(self)@.skip(1 + used));
        }
        Ok(())
    }

    /// One round of the throwaway flags: four bytes where bit `i` is set, and
    /// a counted run of bytes where bit 6 is set.
    fn throwaway_round(&mut self, flag: u8, i: u8) -> (r: Result<(), ParseError>)
        requires
            i < 6,
        ensures
            match r {
                Ok(()) => {
                    &&& round_span(flag, old(self)@, i as int) matches Some(n)
                    &&& 0 <= n <= old(self)@.len()
                    &&& final(self)@ == old(self)@.skip(n)
                },
                Err(e) => e == ParseError::OutOfBytes && round_span(flag, old(self)@, i as int)
                    is None,
            },
    {
        let ghost a: int = if flag_bit(flag, i as int) { 4 } else { 0 };
        if bit_is_set(flag, i) {
            if self.0.len() < 4 {
                return Err(ParseError::OutOfBytes);
            }
            self.advance(4);
        }
        proof {
            assert(old(self)@.skip(0) =~= old(self)@);
            assert(self@ == old(self)@.skip(a));
        }
        if bit_is_set(flag, 6) {
            if self.0.len() < 2 {
                return Err(ParseError::OutOfBytes);
            }
            let count = (self.0[0] as u16 + 0x100 * (self.0[1] as u16)) as usize;
            if self.0.len() - 2 < count {
                return Err(ParseError::OutOfBytes);
            }
            self.advance(2 + count);
            proof {
                assert(old(self)@.skip(a).skip(2 + count) =~= old(self)@.skip(a + 2 + count));
            }
        }
        Ok(())
    }

    /// Reads and discards a flag byte and, for each set bit `i` below 7,
    /// `sizes[i]` bytes.
    pub fn read_packed_values(&mut self, sizes: &[usize]) -> (r: Result<(), ParseError>)
        requires
            sizes@.len() >= 7,
        ensures
            match r {
                Ok(()) => {
                    let n = packed_values_len(old(self)@[0], sizes@, 7);
                    &&& old(self)@.len() >= 1 + n
                    &&& final(self)@ == old(self)@.skip(1 + n as int)
                },
                Err(e) => e == ParseError::OutOfBytes && final(self)@ == old(self)@ && (old(
                    self,
                )@.len() < 1 || old(self)@.len() < 1 + packed_values_len(
                    old(self)@[0],
                    sizes@,
                    7,
                )),
            },
    {
        if self.0.len() < 1 {
            return Err(ParseError::OutOfBytes);
        }
        let flag = self.0[0];
        let room = self.0.len() - 1;
        let mut total: usize = 0;
        let mut i: u8 = 0;
        while i < 7
            invariant
                0 <= i <= 7,
                sizes@.len() >= 7,
                self@ == old(self)@,
                self@.len() >= 1,
                flag == self@[0],
                room == self@.len() - 1,
                total == packed_values_len(flag, sizes@, i as int),
                total <= room,
            decreases 7 - i,
        {
            if bit_is_set(flag, i) {
                let size = sizes[i as usize];
                if size > room - total {
                    proof {
                        lemma_packed_values_len_grows(flag, sizes@, i as int + 1, 7);
                    }
                    return Err(ParseError::OutOfBytes);
                }
                total = total + size;
            }
            i = i + 1;
        }
        self.advance(1 + total);
        Ok(())
    }

    /// Reads a list: a 16-bit count and that many values of `T`.
    pub fn read_list<'bump, T: Event<'bump>>(&mut self, bump: &'bump Arena) -> (r: Result<
        Vec<T::Out>,
        ParseError,
    >)
        ensures
            match r {
                Ok(v) => {
                    let body = old(self)@.skip(2);
                    &&& old(self)@.len() >= 2
                    &&& v@.len() == le_u16(old(self)@)
                    &&& run_end::<T>(body, v@.len()) matches Some(n)
                    &&& final(self)@ == old(self)@.skip(2 + n as int)
                    &&& run_decodes::<T>(body, v@)
                },
                Err(e) => {
                    &&& final(self)@ == old(self)@
                    &&& if old(self)@.len() < 2 {
                        e == ParseError::OutOfBytes
                    } else {
                        &&& run_end::<T>(old(self)@.skip(2), le_u16(old(self)@) as nat) is None
                        &&& e == run_failure::<T>(old(self)@.skip(2), le_u16(old(self)@) as nat)
                    }
                },
            },
    {
        let saved = self.0;
        let len = self.read_u16()?;
        match self.read_run::<T>(bump, len as usize) {
            Ok(v) => {
                proof {
                    let n = run_end::<T>(old(self)@.skip(2), v@.len())->0;
                    assert(old(self)@.skip(2).skip(n as int) =~= old(self)@.skip(2 + n as int));
                }
                Ok(v)
            },
            Err(e) => {
                self.0 = saved;
                Err(e)
            },
        }
    }

    /// Reads `count` values of `T` one after the other.
    pub fn read_run<'bump, T: Event<'bump>>(&mut self, bump: &'bump Arena, count: usize) -> (r:
        Result<Vec<T::Out>, ParseError>)
        ensures
            match r {
                Ok(v) => {
                    &&& v@.len() == count
                    &&& run_end::<T>(old(self)@, count as nat) matches Some(n)
                    &&& n <= old(self)@.len()
                    &&& final(self)@ == old(self)@.skip(n as int)
                    &&& run_decodes::<T>(old(self)@, v@)
                },
                Err(e) => {
                    &&& final(self)@ == old(self)@
                    &&& run_end::<T>(old(self)@, count as nat) is None
                    &&& e == run_failure::<T>(old(self)@, count as nat)
                },
            },
    {
        let saved = self.0;
        let mut v: Vec<T::Out> = Vec::new();
        let ghost mut used: nat = 0;
        let mut i: usize = 0;
        while i < count
            invariant
                0 <= i <= count,
                saved@ == old(self)@,
                v@.len() == i,
                run_end::<T>(old(self)@, i as nat) == Some(used),
                used <= old(self)@.len(),
                self@ == old(self)@.skip(used as int),
                run_decodes::<T>(old(self)@, v@),
            decreases count - i,
        {
            let ghost before = self@;
            match T::parse(self, bump) {
                Ok(out) => {
                    proof {
                        let n = T::span(before)->0;
                        assert(old(self)@.skip(used as int).skip(n as int) =~= old(self)@.skip(
                            (used + n) as int,
                        ));
                        assert(run_end::<T>(old(self)@, (i + 1) as nat) == Some(used + n));
                        assert forall|j: int| 0 <= j < i + 1 implies #[trigger] decodes_at::<T>(
                            old(self)@,
                            v@.push(out),
                            j,
                        ) by {
                            if j < i {
                                assert(decodes_at::<T>(old(self)@, v@, j));
                            }
                        }
                        used = used + n;
                    }
                    v.push(out);
                },
                Err(e) => {
                    proof {
                        assert(run_end::<T>(old(self)@, (i + 1) as nat) is None);
                        lemma_run_end_fails::<T>(old(self)@, (i + 1) as nat, count as nat);
                        lemma_run_failure::<T>(old(self)@, i as nat, count as nat);
                    }
                    self.0 = saved;
                    return Err(e);
                },
            }
            i = i + 1;
        }
        Ok(v)
    }

    /// Reads a length of kind `L` and, where it is at most `max_len`, that
    /// many values of `T`. A longer length leaves the values unread and gives
    /// an empty list.
    pub fn read_counted<'bump, T, L>(&mut self, bump: &'bump Arena, max_len: usize) -> (r: Result<
        Vec<T::Out>,
        ParseError,
    >) where T: Event<'bump>, L: Length<'bump>
        ensures
            match r {
                Ok(v) => {
                    &&& L::span(old(self)@) matches Some(head)
                    &&& head <= old(self)@.len()
                    &&& counted_ok::<T, L>(old(self)@, max_len, v@, final(self)@)
                },
                Err(e) => {
                    &&& final(self)@ == old(self)@
                    &&& L::span(old(self)@) is None || counted_fails::<T, L>(old(self)@, max_len)
                    &&& e == counted_failure::<T, L>(old(self)@)
                },
            },
    {
        let saved = self.0;
        let raw = match L::parse(self, bump) {
            Ok(raw) => raw,
            Err(e) => {
                self.0 = saved;
                return Err(e);
            },
        };
        let ghost head = L::span(old(self)@)->0;
        proof {
            L::lemma_length_at(old(self)@, raw);
        }
        let len = match L::to_len(&raw) {
            Some(len) => len,
            None => {
                self.0 = saved;
                return Err(ParseError::BadLength);
            },
        };
        if len <= max_len {
            match self.read_run::<T>(bump, len) {
                Ok(v) => {
                    proof {
                        let n = run_end::<T>(old(self)@.skip(head as int), len as nat)->0;
                        assert(old(self)@.skip(head as int).skip(n as int) =~= old(self)@.skip(
                            (head + n) as int,
                        ));
                    }
                    Ok(v)
                },
                Err(e) => {
                    self.0 = saved;
                    Err(e)
                },
            }
        } else {
            Ok(Vec::new())
        }
    }

    /// Moves past `len * multiplier` bytes where `len` is at most `max_len`,
    /// and past nothing where it is more.
    pub fn read_bytes<'bump>(
        &mut self,
        _bump: &'bump Arena,
        len: usize,
        multiplier: usize,
        max_len: usize,
    ) -> (r: Result<(), ParseError>)
        ensures
            match r {
                Ok(()) => {
                    let n = bytes_span(len, multiplier, max_len);
                    0 <= n <= old(self)@.len() && final(self)@ == old(self)@.skip(n)
                },
                Err(e) => e == ParseError::OutOfBytes && final(self)@ == old(self)@ && bytes_span(
                    len,
                    multiplier,
                    max_len,
                ) > old(self)@.len(),
            },
    {
        let room = self.0.len();
        if len <= max_len {
            match len.checked_mul(multiplier) {
                Some(count) => self.skip(count),
                None => {
                    assert(len * multiplier > room);
                    Err(ParseError::OutOfBytes)
                },
            }
        } else {
            proof {
                assert(self@.skip(0) =~= self@);
            }
            Ok(())
        }
    }

    /// Reads a truth value and, where it is true, a value of `T`.
    pub fn read_optional<'bump, T: Event<'bump>>(&mut self, bump: &'bump Arena) -> (r: Result<
        Option<T::Out>,
        ParseError,
    >)
        ensures
            match r {
                Ok(Some(out)) => {
                    &&& old(self)@.len() >= 1
                    &&& old(self)@[0] == 1
                    &&& T::span(old(self)@.skip(1)) matches Some(n)
                    &&& 1 + n <= old(self)@.len()
                    &&& T::decodes(old(self)@.skip(1), out)
                    &&& final(self)@ == old(self)@.skip(1 + n as int)
                },
                Ok(None) => old(self)@.len() >= 1 && old(self)@[0] != 1 && final(self)@ == old(
                    self,
                )@.skip(1),
                Err(e) => {
                    &&& final(self)@ == old(self)@
                    &&& if old(self)@.len() < 1 {
                        e == ParseError::OutOfBytes
                    } else {
                        &&& old(self)@[0] == 1
                        &&& T::span(old(self)@.skip(1)) is None
                        &&& e == T::failure(old(self)@.skip(1))
                    }
                },
            },
    {
        let saved = self.0;
        if self.read_bool()? {
            match T::parse(self, bump) {
                Ok(out) => {
                    proof {
                        let n = T::span(old(self)@.skip(1))->0;
                        assert(old(self)@.skip(1).skip(n as int) =~= old(self)@.skip(1 + n as int));
                    }
                    Ok(Some(out))
                },
                Err(e) => {
                    self.0 = saved;
                    Err(e)
                },
            }
        } else {
            Ok(None)
        }
    }

    /// Reads a string: a 16-bit count of UTF-16 code units and the units, low
    /// byte first. The text is stored in the arena.
    pub fn read_str<'bump>(&mut self, bump: &'bump Arena) -> (r: Result<&'bump str, ParseError>)
        ensures
            match r {
                Ok(text) => {
                    let n = le_u16(old(self)@);
                    &&& old(self)@.len() >= 2 + 2 * n
                    &&& utf16_chars(code_units(old(self)@.subrange(2, 2 + 2 * n))) == Some(text@)
                    &&& final(self)@ == old(self)@.skip(2 + 2 * n)
                },
                Err(e) => {
                    &&& final(self)@ == old(self)@
                    &&& e != ParseError::BadLength
                    &&& e == ParseError::OutOfBytes <==> (old(self)@.len() < 2 || old(self)@.len()
                        < 2 + 2 * le_u16(old(self)@))
                    &&& e == ParseError::InvalidUtf16 ==> utf16_chars(
                        code_units(old(self)@.subrange(2, 2 + 2 * le_u16(old(self)@))),
                    ) is None
                },
            },
    {
        if self.0.len() < 2 {
            return Err(ParseError::OutOfBytes);
        }
        let len = (self.0[0] as u16 + 0x100 * (self.0[1] as u16)) as usize;
        if (self.0.len() - 2) / 2 < len {
            return Err(ParseError::OutOfBytes);
        }
        let ghost body = self@.subrange(2, 2 + 2 * len);
        let mut units: Vec<u16> = Vec::new();
        let mut i: usize = 0;
        while i < len
            invariant
                0 <= i <= len,
                self@.len() >= 2 + 2 * len,
                self@.len() <= usize::MAX,
                body == self@.subrange(2, 2 + 2 * len),
                units@.len() == i,
                forall|j: int| 0 <= j < i ==> units@[j] == le_u16(#[trigger] body.skip(2 * j)),
            decreases len - i,
        {
            let unit = self.0[2 + 2 * i] as u16 + 0x100 * (self.0[2 + 2 * i + 1] as u16);
            units.push(unit);
            i = i + 1;
        }
        proof {
            assert(units@ =~= code_units(body));
        }
        match string_from_utf16(units.as_slice()) {
            Some(text) => {
                let stored = bump.alloc_str(text.as_str());
                self.advance(2 + 2 * len);
                Ok(stored)
            },
            None => Err(ParseError::InvalidUtf16),
        }
    }

}

/// 256 to the power `n`.
pub open spec fn pow256(n: int) -> int
    decreases n,
{
    if n <= 0 {
        1
    } else {
        0x100 * pow256(n - 1)
    }
}

proof fn lemma_pow256(n: int)
    requires
        0 <= n,
    ensures
        pow256(n + 1) == 0x100 * pow256(n),
        pow256(n) >= 1,
    decreases n,
{
    if n > 0 {
        lemma_pow256(n - 1);
    }
}

proof fn lemma_pow256_bound(n: int)
    requires
        0 <= n <= 7,
    ensures
        pow256(n) <= 0x100_0000_0000_0000,
{
    reveal_with_fuel(pow256, 9);
}

/// Moves a count of bytes by the bytes read before it.
pub open spec fn shift_span(span: Option<int>, by: int) -> Option<int> {
    match span {
        Some(n) => Some(by + n),
        None => None,
    }
}

/// Number of bytes that round `i` of the throwaway flags takes from `bytes`:
/// four where bit `i` is set, and a 16-bit count with as many bytes where
/// bit 6 is set; `None` where the bytes run out.
pub open spec fn round_span(flag: u8, bytes: Seq<u8>, i: int) -> Option<int> {
    let a: int = if flag_bit(flag, i) { 4 } else { 0 };
    if bytes.len() < a {
        None
    } else if !flag_bit(flag, 6) {
        Some(a)
    } else {
        let mid = bytes.skip(a);
        if mid.len() < 2 || mid.len() < 2 + le_u16(mid) {
            None
        } else {
            Some(a + 2 + le_u16(mid))
        }
    }
}

/// Number of bytes that rounds `i` to 5 of the throwaway flags take from
/// `bytes`, or `None` where the bytes run out.
pub open spec fn throwaway_span(flag: u8, bytes: Seq<u8>, i: int) -> Option<int>
    decreases 6 - i,
{
    if i >= 6 {
        Some(0)
    } else {
        match round_span(flag, bytes, i) {
            Some(n) => shift_span(throwaway_span(flag, bytes.skip(n), i + 1), n),
            None => None,
        }
    }
}

/// Sum of `sizes[j]` over the set bits `j` of `flag` below `upto`.
pub open spec fn packed_values_len(flag: u8, sizes: Seq<usize>, upto: int) -> int
    decreases upto,
{
    if upto <= 0 {
        0
    } else {
        packed_values_len(flag, sizes, upto - 1) + if flag_bit(flag, upto - 1) {
            sizes[upto - 1] as int
        } else {
            0
        }
    }
}

proof fn lemma_packed_values_len_grows(flag: u8, sizes: Seq<usize>, from: int, upto: int)
    requires
        0 <= from <= upto,
    ensures
        packed_values_len(flag, sizes, from) <= packed_values_len(flag, sizes, upto),
    decreases upto - from,
{
    if from < upto {
        lemma_packed_values_len_grows(flag, sizes, from, upto - 1);
    }
}

/// Tests bit `i` of a flag byte.
pub fn bit_is_set(flag: u8, i: u8) -> (b: bool)
    requires
        i < 8,
    ensures
        b == flag_bit(flag, i as int),
{
    let divisor: u8 = match i {
        0 => 1,
        1 => 2,
        2 => 4,
        3 => 8,
        4 => 16,
        5 => 32,
        6 => 64,
        _ => 128,
    };
    proof {
        reveal(flag_bit);
    }
    (flag / divisor) % 2 == 1
}

/// Splits bytes into 16-bit code units, low byte first; an odd last byte is
/// left out.
pub open spec fn code_units(bytes: Seq<u8>) -> Seq<u16> {
    Seq::new(bytes.len() / 2, |j: int| le_u16(bytes.skip(2 * j)) as u16)
}

/// The text that UTF-16 code units stand for, or `None` where a surrogate
/// has no partner.
pub open spec fn utf16_chars(units: Seq<u16>) -> Option<Seq<char>>
    decreases units.len(),
{
    if units.len() == 0 {
        Some(Seq::empty())
    } else if units[0] < 0xD800 || units[0] > 0xDFFF {
        match utf16_chars(units.skip(1)) {
            Some(rest) => Some(seq![units[0] as char] + rest),
            None => None,
        }
    } else if units[0] <= 0xDBFF && units.len() >= 2 && 0xDC00 <= units[1] <= 0xDFFF {
        let scalar = 0x10000 + (units[0] - 0xD800) * 0x400 + (units[1] - 0xDC00);
        match utf16_chars(units.skip(2)) {
            Some(rest) => Some(seq![scalar as char] + rest),
            None => None,
        }
    } else {
        None
    }
}

/// `String::from_utf16` of std: the text of the code units, and nothing
/// where they hold a surrogate without its partner.
#[verifier::external_body]
fn string_from_utf16(units: &[u16]) -> (r: Option<String>)
    ensures
        match r {
            Some(text) => utf16_chars(units@) == Some(text@),
            None => utf16_chars(units@) is None,
        },
{
    String::from_utf16(units).ok()
}

/// Region that the text of one packet is stored in. Everything stored is
/// given up at once by `reset`, which the borrow rules allow only when no
/// stored text is in use any more. No region has an allocation limit.
pub struct Arena {
    bump: bumpalo::Bump,
}

#[verifier::external_type_specification]
#[verifier::external_body]
pub struct ExBump<const MIN_ALIGN: usize>(bumpalo::Bump<MIN_ALIGN>);

/// The allocation limit of a region of bumpalo, where it was given one.
pub uninterp spec fn bump_limit(bump: bumpalo::Bump) -> Option<usize>;

/// `Bump::new` of bumpalo: a fresh region without an allocation limit.
#[verifier::external_body]
fn bump_new() -> (bump: bumpalo::Bump)
    ensures
        bump_limit(bump) is None,
{
    bumpalo::Bump::new()
}

/// `Bump::reset` of bumpalo: gives up what the region stores, keeps its limit, cannot fail.
#[verifier::external_body]
fn bump_reset(bump: &mut bumpalo::Bump)
    ensures
        bump_limit(*final(bump)) == bump_limit(*old(bump)),
    no_unwind
{
    bump.reset()
}

impl Arena {
    pub fn new() -> (arena: Self)
        ensures
            arena.limit() is None,
    {
        Arena { bump: bump_new() }
    }

    /// The allocation limit of the region.
    pub closed spec fn limit(&self) -> Option<usize> {
        bump_limit(self.bump)
    }

    /// Gives up everything stored so far.
    pub fn reset(&mut self)
        ensures
            final(self).limit() == old(self).limit(),
    {
        proof {
            use_type_invariant(&*self);
        }
        bump_reset(&mut self.bump)
    }

    #[verifier::type_invariant]
    spec fn unlimited(&self) -> bool {
        bump_limit(self.bump) is None
    }

    /// Stores a copy of `text`.
    pub fn alloc_str<'bump>(&'bump self, text: &str) -> (stored: &'bump str)
        ensures
            stored@ == text@,
    {
        proof {
            use_type_invariant(self);
        }
        bump_alloc_str(&self.bump, text)
    }
}

/// `Bump::alloc_str` of bumpalo: a copy of the text that lives as long as the
/// region is not reset. It is called on regions without an allocation limit,
/// for which reserving the space fails only where the machine has no memory
/// left.
#[verifier::external_body]
fn bump_alloc_str<'bump>(bump: &'bump bumpalo::Bump, text: &str) -> (stored: &'bump str)
    requires
        bump_limit(*bump) is None,
    ensures
        stored@ == text@,
{
    bump.alloc_str(text)
}

/// A structure that one kind of packet is decoded into.
pub trait Packet {
    /// The packet that the structure belongs to.
    const OPCODE: Opcode;
}

/// A structure with a byte representation that a [`Parser`] can read.
pub trait Event<'bump>: Sized {
    /// What reading yields.
    type Out;

    /// Number of bytes that the value at the start of `bytes` takes, or
    /// `None` where reading fails.
    spec fn span(bytes: Seq<u8>) -> Option<nat>;

    /// The error that reading fails with, for bytes whose `span` is `None`.
    spec fn failure(bytes: Seq<u8>) -> ParseError;

    /// Whether `out` is the value at the start of `bytes`.
    spec fn decodes(bytes: Seq<u8>, out: Self::Out) -> bool;

    fn parse(parser: &mut Parser, bump: &'bump Arena) -> (r: Result<Self::Out, ParseError>)
        ensures
            match r {
                Ok(out) => {
                    &&& Self::span(old(parser)@) matches Some(n)
                    &&& n <= old(parser)@.len()
                    &&& final(parser)@ == old(parser)@.skip(n as int)
                    &&& Self::decodes(old(parser)@, out)
                },
                Err(e) => Self::span(old(parser)@) is None && e == Self::failure(old(parser)@),
            },
    ;
}

/// An integer that can stand in front of a list as its length.
pub trait Length<'bump>: Event<'bump> {
    /// The length as a machine word, or `None` where it is negative or too
    /// large.
    spec fn length(out: Self::Out) -> Option<usize>;

    /// The length that stands at the start of `bytes`.
    spec fn length_at(bytes: Seq<u8>) -> Option<usize>;

    fn to_len(out: &Self::Out) -> (len: Option<usize>)
        ensures
            len == Self::length(*out),
    ;

    /// The value read from bytes stands for the length at their start.
    proof fn lemma_length_at(bytes: Seq<u8>, out: Self::Out)
        requires
            Self::decodes(bytes, out),
        ensures
            Self::length(out) == Self::length_at(bytes),
    ;
}

/// Offset behind `count` values of `T` read one after the other from the
/// start of `bytes`, or `None` where one of them fails.
pub open spec fn run_end<'bump, T: Event<'bump>>(bytes: Seq<u8>, count: nat) -> Option<nat>
    decreases count,
{
    if count == 0 {
        Some(0)
    } else {
        match run_end::<T>(bytes, (count - 1) as nat) {
            Some(at) => if at <= bytes.len() {
                match T::span(bytes.skip(at as int)) {
                    Some(n) => if at + n <= bytes.len() {
                        Some(at + n)
                    } else {
                        None
                    },
                    None => None,
                }
            } else {
                None
            },
            None => None,
        }
    }
}

/// Whether `outs[j]` is the value that stands behind the first `j` values.
pub open spec fn decodes_at<'bump, T: Event<'bump>>(
    bytes: Seq<u8>,
    outs: Seq<T::Out>,
    j: int,
) -> bool {
    run_end::<T>(bytes, j as nat) matches Some(at) && T::decodes(bytes.skip(at as int), outs[j])
}

/// Whether `outs` are the values read one after the other from the start of
/// `bytes`.
pub open spec fn run_decodes<'bump, T: Event<'bump>>(bytes: Seq<u8>, outs: Seq<T::Out>) -> bool {
    forall|j: int| 0 <= j < outs.len() ==> #[trigger] decodes_at::<T>(bytes, outs, j)
}

proof fn lemma_run_end_fails<'bump, T: Event<'bump>>(bytes: Seq<u8>, at: nat, count: nat)
    requires
        at <= count,
        run_end::<T>(bytes, at) is None,
    ensures
        run_end::<T>(bytes, count) is None,
    decreases count,
{
    if at < count {
        lemma_run_end_fails::<T>(bytes, at, (count - 1) as nat);
    }
}

/// The error that reading `count` values of `T` fails with: that of the first
/// value that fails.
pub open spec fn run_failure<'bump, T: Event<'bump>>(bytes: Seq<u8>, count: nat) -> ParseError
    decreases count,
{
    if count == 0 {
        ParseError::OutOfBytes
    } else {
        match run_end::<T>(bytes, (count - 1) as nat) {
            Some(at) => T::failure(bytes.skip(at as int)),
            None => run_failure::<T>(bytes, (count - 1) as nat),
        }
    }
}

proof fn lemma_run_failure<'bump, T: Event<'bump>>(bytes: Seq<u8>, i: nat, count: nat)
    requires
        i < count,
        run_end::<T>(bytes, i) is Some,
        run_end::<T>(bytes, i + 1) is None,
    ensures
        run_failure::<T>(bytes, count) == T::failure(bytes.skip(run_end::<T>(bytes, i)->0 as int)),
    decreases count,
{
    if i + 1 < count {
        lemma_run_end_fails::<T>(bytes, i + 1, (count - 1) as nat);
        lemma_run_failure::<T>(bytes, i, (count - 1) as nat);
    }
}

/// The error that a counted list fails with: that of its length where the
/// length cannot be read, a bad length where it is no machine word, and else
/// that of the first value that fails.
pub open spec fn counted_failure<'bump, T: Event<'bump>, L: Length<'bump>>(
    bytes: Seq<u8>,
) -> ParseError {
    match (L::span(bytes), L::length_at(bytes)) {
        (None, _) => L::failure(bytes),
        (Some(_), None) => ParseError::BadLength,
        (Some(head), Some(count)) => run_failure::<T>(bytes.skip(head as int), count as nat),
    }
}

/// Number of bytes that a byte field of `len` units takes.
pub open spec fn bytes_span(len: usize, multiplier: usize, max_len: usize) -> int {
    if len <= max_len {
        len * multiplier
    } else {
        0
    }
}

/// What a successful read of a counted list leaves: the values and the
/// unread bytes.
pub open spec fn counted_ok<'bump, T: Event<'bump>, L: Length<'bump>>(
    bytes: Seq<u8>,
    max_len: usize,
    outs: Seq<T::Out>,
    rest: Seq<u8>,
) -> bool {
    let head = L::span(bytes)->0;
    let body = bytes.skip(head as int);
    match L::length_at(bytes) {
        Some(count) => if count <= max_len {
            &&& outs.len() == count
            &&& run_end::<T>(body, count as nat) matches Some(n)
            &&& rest == bytes.skip((head + n) as int)
            &&& run_decodes::<T>(body, outs)
        } else {
            outs.len() == 0 && rest == body
        },
        None => false,
    }
}

/// When a counted list fails behind a readable length: the length is no
/// machine word, or one of the values fails.
pub open spec fn counted_fails<'bump, T: Event<'bump>, L: Length<'bump>>(
    bytes: Seq<u8>,
    max_len: usize,
) -> bool {
    match L::length_at(bytes) {
        Some(count) => count <= max_len && run_end::<T>(
            bytes.skip(L::span(bytes)->0 as int),
            count as nat,
        ) is None,
        None => true,
    }
}

impl<'bump> Event<'bump> for u8 {
    type Out = u8;

    open spec fn span(bytes: Seq<u8>) -> Option<nat> {
        if bytes.len() >= 1 {
            Some(1nat)
        } else {
            None
        }
    }

    open spec fn failure(bytes: Seq<u8>) -> ParseError {
        ParseError::OutOfBytes
    }

    open spec fn decodes(bytes: Seq<u8>, out: u8) -> bool {
        out == bytes[0] as int
    }

    fn parse(parser: &mut Parser, _bump: &'bump Arena) -> (r: Result<u8, ParseError>) {
        parser.read_u8()
    }
}

impl<'bump> Length<'bump> for u8 {
    open spec fn length(out: u8) -> Option<usize> {
        if 0 <= out <= usize::MAX {
            Some(out as usize)
        } else {
            None
        }
    }

    open spec fn length_at(bytes: Seq<u8>) -> Option<usize> {
        if 0 <= bytes[0] as int <= usize::MAX {
            Some((bytes[0] as int) as usize)
        } else {
            None
        }
    }

    proof fn lemma_length_at(bytes: Seq<u8>, out: u8) {
    }

    fn to_len(out: &u8) -> (len: Option<usize>) {
        let v = *out;
        Some(v as usize)
    }
}

impl<'bump> Event<'bump> for u16 {
    type Out = u16;

    open spec fn span(bytes: Seq<u8>) -> Option<nat> {
        if bytes.len() >= 2 {
            Some(2nat)
        } else {
            None
        }
    }

    open spec fn failure(bytes: Seq<u8>) -> ParseError {
        ParseError::OutOfBytes
    }

    open spec fn decodes(bytes: Seq<u8>, out: u16) -> bool {
        out == le_u16(bytes)
    }

    fn parse(parser: &mut Parser, _bump: &'bump Arena) -> (r: Result<u16, ParseError>) {
        parser.read_u16()
    }
}

impl<'bump> Length<'bump> for u16 {
    open spec fn length(out: u16) -> Option<usize> {
        if 0 <= out <= usize::MAX {
            Some(out as usize)
        } else {
            None
        }
    }

    open spec fn length_at(bytes: Seq<u8>) -> Option<usize> {
        if 0 <= le_u16(bytes) <= usize::MAX {
            Some((le_u16(bytes)) as usize)
        } else {
            None
        }
    }

    proof fn lemma_length_at(bytes: Seq<u8>, out: u16) {
    }

    fn to_len(out: &u16) -> (len: Option<usize>) {
        let v = *out;
        Some(v as usize)
    }
}

impl<'bump> Event<'bump> for u32 {
    type Out = u32;

    open spec fn span(bytes: Seq<u8>) -> Option<nat> {
        if bytes.len() >= 4 {
            Some(4nat)
        } else {
            None
        }
    }

    open spec fn failure(bytes: Seq<u8>) -> ParseError {
        ParseError::OutOfBytes
    }

    open spec fn decodes(bytes: Seq<u8>, out: u32) -> bool {
        out == le_u32(bytes)
    }

    fn parse(parser: &mut Parser, _bump: &'bump Arena) -> (r: Result<u32, ParseError>) {
        parser.read_u32()
    }
}

impl<'bump> Length<'bump> for u32 {
    open spec fn length(out: u32) -> Option<usize> {
        if 0 <= out <= usize::MAX {
            Some(out as usize)
        } else {
            None
        }
    }

    open spec fn length_at(bytes: Seq<u8>) -> Option<usize> {
        if 0 <= le_u32(bytes) <= usize::MAX {
            Some((le_u32(bytes)) as usize)
        } else {
            None
        }
    }

    proof fn lemma_length_at(bytes: Seq<u8>, out: u32) {
    }

    fn to_len(out: &u32) -> (len: Option<usize>) {
        let v = *out;
        Some(v as usize)
    }
}

impl<'bump> Event<'bump> for u64 {
    type Out = u64;

    open spec fn span(bytes: Seq<u8>) -> Option<nat> {
        if bytes.len() >= 8 {
            Some(8nat)
        } else {
            None
        }
    }

    open spec fn failure(bytes: Seq<u8>) -> ParseError {
        ParseError::OutOfBytes
    }

    open spec fn decodes(bytes: Seq<u8>, out: u64) -> bool {
        out == le_u64(bytes)
    }

    fn parse(parser: &mut Parser, _bump: &'bump Arena) -> (r: Result<u64, ParseError>) {
        parser.read_u64()
    }
}

impl<'bump> Length<'bump> for u64 {
    open spec fn length(out: u64) -> Option<usize> {
        if 0 <= out <= usize::MAX {
            Some(out as usize)
        } else {
            None
        }
    }

    open spec fn length_at(bytes: Seq<u8>) -> Option<usize> {
        if 0 <= le_u64(bytes) <= usize::MAX {
            Some((le_u64(bytes)) as usize)
        } else {
            None
        }
    }

    proof fn lemma_length_at(bytes: Seq<u8>, out: u64) {
    }

    fn to_len(out: &u64) -> (len: Option<usize>) {
        let v = *out;
        if v as u64 > usize::MAX as u64 {
            return None;
        }
        Some(v as usize)
    }
}

impl<'bump> Event<'bump> for i8 {
    type Out = i8;

    open spec fn span(bytes: Seq<u8>) -> Option<nat> {
        if bytes.len() >= 1 {
            Some(1nat)
        } else {
            None
        }
    }

    open spec fn failure(bytes: Seq<u8>) -> ParseError {
        ParseError::OutOfBytes
    }

    open spec fn decodes(bytes: Seq<u8>, out: i8) -> bool {
        out == signed(bytes[0] as int, 0x80)
    }

    fn parse(parser: &mut Parser, _bump: &'bump Arena) -> (r: Result<i8, ParseError>) {
        parser.read_i8()
    }
}

impl<'bump> Length<'bump> for i8 {
    open spec fn length(out: i8) -> Option<usize> {
        if 0 <= out <= usize::MAX {
            Some(out as usize)
        } else {
            None
        }
    }

    open spec fn length_at(bytes: Seq<u8>) -> Option<usize> {
        if 0 <= signed(bytes[0] as int, 0x80) <= usize::MAX {
            Some((signed(bytes[0] as int, 0x80)) as usize)
        } else {
            None
        }
    }

    proof fn lemma_length_at(bytes: Seq<u8>, out: i8) {
    }

    fn to_len(out: &i8) -> (len: Option<usize>) {
        let v = *out;
        if v < 0 {
            return None;
        }
        Some(v as usize)
    }
}

impl<'bump> Event<'bump> for i16 {
    type Out = i16;

    open spec fn span(bytes: Seq<u8>) -> Option<nat> {
        if bytes.len() >= 2 {
            Some(2nat)
        } else {
            None
        }
    }

    open spec fn failure(bytes: Seq<u8>) -> ParseError {
        ParseError::OutOfBytes
    }

    open spec fn decodes(bytes: Seq<u8>, out: i16) -> bool {
        out == signed(le_u16(bytes), 0x8000)
    }

    fn parse(parser: &mut Parser, _bump: &'bump Arena) -> (r: Result<i16, ParseError>) {
        parser.read_i16()
    }
}

impl<'bump> Length<'bump> for i16 {
    open spec fn length(out: i16) -> Option<usize> {
        if 0 <= out <= usize::MAX {
            Some(out as usize)
        } else {
            None
        }
    }

    open spec fn length_at(bytes: Seq<u8>) -> Option<usize> {
        if 0 <= signed(le_u16(bytes), 0x8000) <= usize::MAX {
            Some((signed(le_u16(bytes), 0x8000)) as usize)
        } else {
            None
        }
    }

    proof fn lemma_length_at(bytes: Seq<u8>, out: i16) {
    }

    fn to_len(out: &i16) -> (len: Option<usize>) {
        let v = *out;
        if v < 0 {
            return None;
        }
        Some(v as usize)
    }
}

impl<'bump> Event<'bump> for i32 {
    type Out = i32;

    open spec fn span(bytes: Seq<u8>) -> Option<nat> {
        if bytes.len() >= 4 {
            Some(4nat)
        } else {
            None
        }
    }

    open spec fn failure(bytes: Seq<u8>) -> ParseError {
        ParseError::OutOfBytes
    }

    open spec fn decodes(bytes: Seq<u8>, out: i32) -> bool {
        out == signed(le_u32(bytes), 0x8000_0000)
    }

    fn parse(parser: &mut Parser, _bump: &'bump Arena) -> (r: Result<i32, ParseError>) {
        parser.read_i32()
    }
}

impl<'bump> Length<'bump> for i32 {
    open spec fn length(out: i32) -> Option<usize> {
        if 0 <= out <= usize::MAX {
            Some(out as usize)
        } else {
            None
        }
    }

    open spec fn length_at(bytes: Seq<u8>) -> Option<usize> {
        if 0 <= signed(le_u32(bytes), 0x8000_0000) <= usize::MAX {
            Some((signed(le_u32(bytes), 0x8000_0000)) as usize)
        } else {
            None
        }
    }

    proof fn lemma_length_at(bytes: Seq<u8>, out: i32) {
    }

    fn to_len(out: &i32) -> (len: Option<usize>) {
        let v = *out;
        if v < 0 {
            return None;
        }
        Some(v as usize)
    }
}

impl<'bump> Event<'bump> for i64 {
    type Out = i64;

    open spec fn span(bytes: Seq<u8>) -> Option<nat> {
        if bytes.len() >= 8 {
            Some(8nat)
        } else {
            None
        }
    }

    open spec fn failure(bytes: Seq<u8>) -> ParseError {
        ParseError::OutOfBytes
    }

    open spec fn decodes(bytes: Seq<u8>, out: i64) -> bool {
        out == signed(le_u64(bytes), 0x8000_0000_0000_0000)
    }

    fn parse(parser: &mut Parser, _bump: &'bump Arena) -> (r: Result<i64, ParseError>) {
        parser.read_i64()
    }
}

impl<'bump> Length<'bump> for i64 {
    open spec fn length(out: i64) -> Option<usize> {
        if 0 <= out <= usize::MAX {
            Some(out as usize)
        } else {
            None
        }
    }

    open spec fn length_at(bytes: Seq<u8>) -> Option<usize> {
        if 0 <= signed(le_u64(bytes), 0x8000_0000_0000_0000) <= usize::MAX {
            Some((signed(le_u64(bytes), 0x8000_0000_0000_0000)) as usize)
        } else {
            None
        }
    }

    proof fn lemma_length_at(bytes: Seq<u8>, out: i64) {
    }

    fn to_len(out: &i64) -> (len: Option<usize>) {
        let v = *out;
        if v < 0 {
            return None;
        }
        if v as u64 > usize::MAX as u64 {
            return None;
        }
        Some(v as usize)
    }
}

/// A field of opaque bytes: a length of kind `T` and then `length * MULT`
/// bytes where the length is at most `MAX_LEN`. Reading it yields nothing.
pub struct KindedBytes<T, const MULT: usize, const MAX_LEN: usize> {
    phantom: PhantomData<T>,
}

impl<'bump, T: Length<'bump>, const MULT: usize, const MAX_LEN: usize> Event<'bump> for KindedBytes<
    T,
    MULT,
    MAX_LEN,
> {
    type Out = ();

    open spec fn span(bytes: Seq<u8>) -> Option<nat> {
        match (T::span(bytes), T::length_at(bytes)) {
            (Some(head), Some(count)) => if head + bytes_span(count, MULT, MAX_LEN)
                <= bytes.len() {
                Some((head + bytes_span(count, MULT, MAX_LEN)) as nat)
            } else {
                None
            },
            _ => None,
        }
    }

    open spec fn failure(bytes: Seq<u8>) -> ParseError {
        match (T::span(bytes), T::length_at(bytes)) {
            (None, _) => T::failure(bytes),
            (Some(_), None) => ParseError::BadLength,
            (Some(_), Some(_)) => ParseError::OutOfBytes,
        }
    }

    open spec fn decodes(bytes: Seq<u8>, out: ()) -> bool {
        true
    }

    fn parse(parser: &mut Parser, bump: &'bump Arena) -> (r: Result<(), ParseError>) {
        let raw = T::parse(parser, bump)?;
        let ghost head = T::span(old(parser)@)->0;
        proof {
            T::lemma_length_at(old(parser)@, raw);
        }
        let len = match T::to_len(&raw) {
            Some(len) => len,
            None => {
                return Err(ParseError::BadLength);
            },
        };
        let r = parser.read_bytes(bump, len, MULT, MAX_LEN);
        proof {
            let n = bytes_span(len, MULT, MAX_LEN);
            if r is Ok {
                assert(old(parser)@.skip(head as int).skip(n) =~= old(parser)@.skip(head + n));
            }
        }
        r
    }
}

/// Width of a field that is there only when its flag bit is set.
pub open spec fn gated(on: bool, width: int) -> int {
    if on {
        width
    } else {
        0
    }
}

/// Width of a run of opaque bytes behind a 16-bit count at offset `at`: the
/// count and, where it is at most `max`, that many bytes.
#[verifier::opaque]
pub open spec fn counted_run(bytes: Seq<u8>, at: int, max: int) -> int {
    let count = le_u16(bytes.skip(at));
    if count <= max {
        2 + count
    } else {
        2
    }
}

/// Reads a byte at offset `at` of `origin` where `on` holds.
fn gated_u8(parser: &mut Parser, on: bool, Ghost(origin): Ghost<Seq<u8>>, Ghost(at): Ghost<int>) -> (r:
    Result<Option<u8>, ParseError>)
    requires
        0 <= at <= origin.len(),
        old(parser)@ == origin.skip(at),
    ensures
        match r {
            Ok(v) => {
                &&& at + gated(on, 1) <= origin.len()
                &&& final(parser)@ == origin.skip(at + gated(on, 1))
                &&& v == if on {
                    Some(origin[at])
                } else {
                    None
                }
            },
            Err(e) => on && at + 1 > origin.len() && e == ParseError::OutOfBytes,
        },
{
    if on {
        let v = parser.read_u8()?;
        proof {
            assert(origin.skip(at).skip(1) =~= origin.skip(at + 1));
        }
        Ok(Some(v))
    } else {
        Ok(None)
    }
}

/// Reads a 32-bit value at offset `at` of `origin` where `on` holds.
fn gated_u32(parser: &mut Parser, on: bool, Ghost(origin): Ghost<Seq<u8>>, Ghost(at): Ghost<int>) -> (r:
    Result<Option<u32>, ParseError>)
    requires
        0 <= at <= origin.len(),
        old(parser)@ == origin.skip(at),
    ensures
        match r {
            Ok(v) => {
                &&& at + gated(on, 4) <= origin.len()
                &&& final(parser)@ == origin.skip(at + gated(on, 4))
                &&& v == if on {
                    Some(le_u32(origin.skip(at)) as u32)
                } else {
                    None
                }
            },
            Err(e) => on && at + 4 > origin.len() && e == ParseError::OutOfBytes,
        },
{
    if on {
        let v = parser.read_u32()?;
        proof {
            assert(origin.skip(at).skip(4) =~= origin.skip(at + 4));
        }
        Ok(Some(v))
    } else {
        Ok(None)
    }
}

/// Reads a 64-bit value at offset `at` of `origin` where `on` holds.
fn gated_u64(parser: &mut Parser, on: bool, Ghost(origin): Ghost<Seq<u8>>, Ghost(at): Ghost<int>) -> (r:
    Result<Option<u64>, ParseError>)
    requires
        0 <= at <= origin.len(),
        old(parser)@ == origin.skip(at),
    ensures
        match r {
            Ok(v) => {
                &&& at + gated(on, 8) <= origin.len()
                &&& final(parser)@ == origin.skip(at + gated(on, 8))
                &&& v == if on {
                    Some(le_u64(origin.skip(at)) as u64)
                } else {
                    None
                }
            },
            Err(e) => on && at + 8 > origin.len() && e == ParseError::OutOfBytes,
        },
{
    if on {
        let v = parser.read_u64()?;
        proof {
            assert(origin.skip(at).skip(8) =~= origin.skip(at + 8));
        }
        Ok(Some(v))
    } else {
        Ok(None)
    }
}

/// Moves past a counted run of opaque bytes at offset `at` of `origin` where
/// `on` holds.
fn gated_run(
    parser: &mut Parser,
    on: bool,
    max: u16,
    Ghost(origin): Ghost<Seq<u8>>,
    Ghost(at): Ghost<int>,
) -> (r: Result<(), ParseError>)
    requires
        0 <= at <= origin.len(),
        old(parser)@ == origin.skip(at),
    ensures
        match r {
            Ok(()) => {
                &&& on ==> at + 2 <= origin.len()
                &&& counted_run(origin, at, max as int) >= 2
                &&& at + gated(on, counted_run(origin, at, max as int)) <= origin.len()
                &&& final(parser)@ == origin.skip(at + gated(on, counted_run(origin, at, max as int)))
            },
            Err(e) => on && (at + 2 > origin.len() || at + counted_run(origin, at, max as int)
                > origin.len()) && e == ParseError::OutOfBytes,
        },
{
    proof {
        reveal(counted_run);
    }
    if on {
        let count = parser.read_u16()?;
        proof {
            assert(origin.skip(at).skip(2) =~= origin.skip(at + 2));
        }
        if count <= max {
            parser.skip(count as usize)?;
            proof {
                assert(origin.skip(at + 2).skip(count as int) =~= origin.skip(at + 2 + count));
            }
        }
    }
    Ok(())
}

impl TripodIndex {
    /// The value that three bytes stand for.
    pub open spec fn of_bytes(b: Seq<u8>) -> TripodIndex {
        TripodIndex { first: b[0], second: b[1], third: b[2] }
    }
}

impl TripodLevel {
    /// The value that six bytes stand for.
    pub open spec fn of_bytes(b: Seq<u8>) -> TripodLevel {
        TripodLevel {
            first: le_u16(b) as u16,
            second: le_u16(b.skip(2)) as u16,
            third: le_u16(b.skip(4)) as u16,
        }
    }
}

impl<'bump> Event<'bump> for TripodIndex {
    type Out = TripodIndex;

    open spec fn span(bytes: Seq<u8>) -> Option<nat> {
        if bytes.len() >= 3 {
            Some(3nat)
        } else {
            None
        }
    }

    open spec fn failure(bytes: Seq<u8>) -> ParseError {
        ParseError::OutOfBytes
    }

    open spec fn decodes(bytes: Seq<u8>, out: TripodIndex) -> bool {
        out == TripodIndex::of_bytes(bytes)
    }

    fn parse(parser: &mut Parser, _bump: &'bump Arena) -> (r: Result<TripodIndex, ParseError>) {
        if parser.remaining() < 3 {
            return Err(ParseError::OutOfBytes);
        }
        let first = parser.read_u8()?;
        let second = parser.read_u8()?;
        let third = parser.read_u8()?;
        proof {
            assert(old(parser)@.skip(1).skip(1).skip(1) =~= old(parser)@.skip(3));
        }
        Ok(TripodIndex { first, second, third })
    }
}

impl<'bump> Event<'bump> for TripodLevel {
    type Out = TripodLevel;

    open spec fn span(bytes: Seq<u8>) -> Option<nat> {
        if bytes.len() >= 6 {
            Some(6nat)
        } else {
            None
        }
    }

    open spec fn failure(bytes: Seq<u8>) -> ParseError {
        ParseError::OutOfBytes
    }

    open spec fn decodes(bytes: Seq<u8>, out: TripodLevel) -> bool {
        out == TripodLevel::of_bytes(bytes)
    }

    fn parse(parser: &mut Parser, _bump: &'bump Arena) -> (r: Result<TripodLevel, ParseError>) {
        if parser.remaining() < 6 {
            return Err(ParseError::OutOfBytes);
        }
        let first = parser.read_u16()?;
        let second = parser.read_u16()?;
        let third = parser.read_u16()?;
        proof {
            assert(old(parser)@.skip(2).skip(2).skip(2) =~= old(parser)@.skip(6));
            assert(old(parser)@.skip(2).skip(2) =~= old(parser)@.skip(4));
        }
        Ok(TripodLevel { first, second, third })
    }
}

/// Reads a tripod index at offset `at` of `origin` where `on` holds.
fn gated_tripod_index<'bump>(
    parser: &mut Parser,
    bump: &'bump Arena,
    on: bool,
    Ghost(origin): Ghost<Seq<u8>>,
    Ghost(at): Ghost<int>,
) -> (r: Result<Option<TripodIndex>, ParseError>)
    requires
        0 <= at <= origin.len(),
        old(parser)@ == origin.skip(at),
    ensures
        match r {
            Ok(v) => {
                &&& at + gated(on, 3) <= origin.len()
                &&& final(parser)@ == origin.skip(at + gated(on, 3))
                &&& v == if on {
                    Some(TripodIndex::of_bytes(origin.skip(at)))
                } else {
                    None
                }
            },
            Err(e) => on && at + 3 > origin.len() && e == ParseError::OutOfBytes,
        },
{
    if on {
        let v = TripodIndex::parse(parser, bump)?;
        proof {
            assert(origin.skip(at).skip(3) =~= origin.skip(at + 3));
        }
        Ok(Some(v))
    } else {
        Ok(None)
    }
}

/// Reads tripod levels at offset `at` of `origin` where `on` holds.
fn gated_tripod_level<'bump>(
    parser: &mut Parser,
    bump: &'bump Arena,
    on: bool,
    Ghost(origin): Ghost<Seq<u8>>,
    Ghost(at): Ghost<int>,
) -> (r: Result<Option<TripodLevel>, ParseError>)
    requires
        0 <= at <= origin.len(),
        old(parser)@ == origin.skip(at),
    ensures
        match r {
            Ok(v) => {
                &&& at + gated(on, 6) <= origin.len()
                &&& final(parser)@ == origin.skip(at + gated(on, 6))
                &&& v == if on {
                    Some(TripodLevel::of_bytes(origin.skip(at)))
                } else {
                    None
                }
            },
            Err(e) => on && at + 6 > origin.len() && e == ParseError::OutOfBytes,
        },
{
    if on {
        let v = TripodLevel::parse(parser, bump)?;
        proof {
            assert(origin.skip(at).skip(6) =~= origin.skip(at + 6));
        }
        Ok(Some(v))
    } else {
        Ok(None)
    }
}

impl SkillOptionData {
    /// Width of field `k` where it is present.
    pub open spec fn width(k: int) -> int {
        if k == 0 {
            1
        } else if k == 1 {
            1
        } else if k == 2 {
            4
        } else if k == 3 {
            4
        } else if k == 4 {
            4
        } else if k == 5 {
            3
        } else {
            6
        }
    }

    /// The offsets, written out field by field.
    pub proof fn lemma_offsets(f: u8)
        ensures
            Self::offset(f, 0) == 1,
            Self::offset(f, 1) == Self::offset(f, 0) + gated(flag_bit(f, 0), 1),
            Self::offset(f, 2) == Self::offset(f, 1) + gated(flag_bit(f, 1), 1),
            Self::offset(f, 3) == Self::offset(f, 2) + gated(flag_bit(f, 2), 4),
            Self::offset(f, 4) == Self::offset(f, 3) + gated(flag_bit(f, 3), 4),
            Self::offset(f, 5) == Self::offset(f, 4) + gated(flag_bit(f, 4), 4),
            Self::offset(f, 6) == Self::offset(f, 5) + gated(flag_bit(f, 5), 3),
            Self::offset(f, 7) == Self::offset(f, 6) + gated(flag_bit(f, 6), 6),
    {
        reveal_with_fuel(SkillOptionData::offset, 2);
    }

    /// Offset of field `k` (0 to 7) behind the flag byte `f`; offset 7 is the
    /// end of the structure.
    pub open spec fn offset(f: u8, k: int) -> int
        decreases k,
    {
        if k <= 0 {
            1
        } else {
            Self::offset(f, k - 1) + gated(flag_bit(f, k - 1), Self::width(k - 1))
        }
    }

    /// The value that the bytes stand for, where they are long enough.
    pub open spec fn of_bytes(b: Seq<u8>) -> SkillOptionData {
        let f = b[0];
        SkillOptionData {
            layer_index: if flag_bit(f, 0) { Some(b[Self::offset(f, 0)]) } else { None },
            start_stage_index: if flag_bit(f, 1) { Some(b[Self::offset(f, 1)]) } else { None },
            transit_index: if flag_bit(f, 2) {
                Some(le_u32(b.skip(Self::offset(f, 2))) as u32)
            } else {
                None
            },
            stage_start_time: if flag_bit(f, 3) {
                Some(le_u32(b.skip(Self::offset(f, 3))) as u32)
            } else {
                None
            },
            farmost_dist: if flag_bit(f, 4) {
                Some(le_u32(b.skip(Self::offset(f, 4))) as u32)
            } else {
                None
            },
            tripod_index: if flag_bit(f, 5) {
                Some(TripodIndex::of_bytes(b.skip(Self::offset(f, 5))))
            } else {
                None
            },
            tripod_level: if flag_bit(f, 6) {
                Some(TripodLevel::of_bytes(b.skip(Self::offset(f, 6))))
            } else {
                None
            },
        }
    }
}

impl<'bump> Event<'bump> for SkillOptionData {
    type Out = SkillOptionData;

    open spec fn span(bytes: Seq<u8>) -> Option<nat> {
        if bytes.len() >= 1 && SkillOptionData::offset(bytes[0], 7) <= bytes.len() {
            Some(SkillOptionData::offset(bytes[0], 7) as nat)
        } else {
            None
        }
    }

    open spec fn failure(bytes: Seq<u8>) -> ParseError {
        ParseError::OutOfBytes
    }

    open spec fn decodes(bytes: Seq<u8>, out: SkillOptionData) -> bool {
        out == SkillOptionData::of_bytes(bytes)
    }

    #[verifier::rlimit(50)]
    fn parse(parser: &mut Parser, bump: &'bump Arena) -> (r: Result<SkillOptionData, ParseError>) {
        let ghost b = parser@;
        let flag = parser.read_u8()?;
        proof {
            Self::lemma_offsets(flag);
        }
        let layer_index = gated_u8(parser, bit_is_set(flag, 0), Ghost(b), Ghost(Self::offset(flag, 0)))?;
        let start_stage_index = gated_u8(
            parser,
            bit_is_set(flag, 1),
            Ghost(b),
            Ghost(Self::offset(flag, 1)),
        )?;
        let transit_index = gated_u32(
            parser,
            bit_is_set(flag, 2),
            Ghost(b),
            Ghost(Self::offset(flag, 2)),
        )?;
        let stage_start_time = gated_u32(
            parser,
            bit_is_set(flag, 3),
            Ghost(b),
            Ghost(Self::offset(flag, 3)),
        )?;
        let farmost_dist = gated_u32(
            parser,
            bit_is_set(flag, 4),
            Ghost(b),
            Ghost(Self::offset(flag, 4)),
        )?;
        let tripod_index = gated_tripod_index(
            parser,
            bump,
            bit_is_set(flag, 5),
            Ghost(b),
            Ghost(Self::offset(flag, 5)),
        )?;
        let tripod_level = gated_tripod_level(
            parser,
            bump,
            bit_is_set(flag, 6),
            Ghost(b),
            Ghost(Self::offset(flag, 6)),
        )?;
        Ok(
            SkillOptionData {
                layer_index,
                start_stage_index,
                transit_index,
                stage_start_time,
                farmost_dist,
                tripod_index,
                tripod_level,
            },
        )
    }
}

impl SkillMoveOptionData {
    /// Width of field `k` where it is present.
    pub open spec fn width(k: int) -> int {
        if k == 0 {
            4
        } else if k == 1 {
            4
        } else if k == 2 {
            4
        } else if k == 3 {
            4
        } else if k == 4 {
            4
        } else {
            4
        }
    }

    /// The offsets, written out field by field.
    pub proof fn lemma_offsets(f: u8)
        ensures
            Self::offset(f, 0) == 1,
            Self::offset(f, 1) == Self::offset(f, 0) + gated(flag_bit(f, 0), 4),
            Self::offset(f, 2) == Self::offset(f, 1) + gated(flag_bit(f, 1), 4),
            Self::offset(f, 3) == Self::offset(f, 2) + gated(flag_bit(f, 2), 4),
            Self::offset(f, 4) == Self::offset(f, 3) + gated(flag_bit(f, 3), 4),
            Self::offset(f, 5) == Self::offset(f, 4) + gated(flag_bit(f, 4), 4),
            Self::offset(f, 6) == Self::offset(f, 5) + gated(flag_bit(f, 5), 4),
    {
        reveal_with_fuel(SkillMoveOptionData::offset, 2);
    }

    /// Offset of field `k` (0 to 6) behind the flag byte `f`.
    pub open spec fn offset(f: u8, k: int) -> int
        decreases k,
    {
        if k <= 0 {
            1
        } else {
            Self::offset(f, k - 1) + gated(flag_bit(f, k - 1), Self::width(k - 1))
        }
    }

    /// Offset of the end of the structure: behind the six fields stands,
    /// where bit 6 is set, a run of at most six opaque bytes.
    pub open spec fn end(b: Seq<u8>) -> int {
        Self::offset(b[0], 6) + gated(flag_bit(b[0], 6), counted_run(b, Self::offset(b[0], 6), 6))
    }

    /// Whether the bytes hold the whole structure.
    pub open spec fn fits(b: Seq<u8>) -> bool {
        &&& b.len() >= 1
        &&& flag_bit(b[0], 6) ==> Self::offset(b[0], 6) + 2 <= b.len()
        &&& Self::end(b) <= b.len()
    }

    /// The value that the bytes stand for, where they are long enough.
    pub open spec fn of_bytes(b: Seq<u8>) -> SkillMoveOptionData {
        let f = b[0];
        SkillMoveOptionData {
            move_time: if flag_bit(f, 0) {
                Some(le_u32(b.skip(Self::offset(f, 0))) as u32)
            } else {
                None
            },
            stand_up_time: if flag_bit(f, 1) {
                Some(le_u32(b.skip(Self::offset(f, 1))) as u32)
            } else {
                None
            },
            down_time: if flag_bit(f, 2) {
                Some(le_u32(b.skip(Self::offset(f, 2))) as u32)
            } else {
                None
            },
            freeze_time: if flag_bit(f, 3) {
                Some(le_u32(b.skip(Self::offset(f, 3))) as u32)
            } else {
                None
            },
            move_height: if flag_bit(f, 4) {
                Some(le_u32(b.skip(Self::offset(f, 4))) as u32)
            } else {
                None
            },
            farmost_dist: if flag_bit(f, 5) {
                Some(le_u32(b.skip(Self::offset(f, 5))) as u32)
            } else {
                None
            },
        }
    }
}

impl<'bump> Event<'bump> for SkillMoveOptionData {
    type Out = SkillMoveOptionData;

    open spec fn span(bytes: Seq<u8>) -> Option<nat> {
        if SkillMoveOptionData::fits(bytes) {
            Some(SkillMoveOptionData::end(bytes) as nat)
        } else {
            None
        }
    }

    open spec fn failure(bytes: Seq<u8>) -> ParseError {
        ParseError::OutOfBytes
    }

    open spec fn decodes(bytes: Seq<u8>, out: SkillMoveOptionData) -> bool {
        out == SkillMoveOptionData::of_bytes(bytes)
    }

    #[verifier::rlimit(50)]
    fn parse(parser: &mut Parser, _bump: &'bump Arena) -> (r: Result<
        SkillMoveOptionData,
        ParseError,
    >) {
        let ghost b = parser@;
        let flag = parser.read_u8()?;
        proof {
            Self::lemma_offsets(flag);
        }
        let move_time = gated_u32(parser, bit_is_set(flag, 0), Ghost(b), Ghost(Self::offset(flag, 0)))?;
        let stand_up_time = gated_u32(
            parser,
            bit_is_set(flag, 1),
            Ghost(b),
            Ghost(Self::offset(flag, 1)),
        )?;
        let down_time = gated_u32(parser, bit_is_set(flag, 2), Ghost(b), Ghost(Self::offset(flag, 2)))?;
        let freeze_time = gated_u32(
            parser,
            bit_is_set(flag, 3),
            Ghost(b),
            Ghost(Self::offset(flag, 3)),
        )?;
        let move_height = gated_u32(
            parser,
            bit_is_set(flag, 4),
            Ghost(b),
            Ghost(Self::offset(flag, 4)),
        )?;
        let farmost_dist = gated_u32(
            parser,
            bit_is_set(flag, 5),
            Ghost(b),
            Ghost(Self::offset(flag, 5)),
        )?;
        gated_run(parser, bit_is_set(flag, 6), 6, Ghost(b), Ghost(Self::offset(flag, 6)))?;
        Ok(
            SkillMoveOptionData {
                move_time,
                stand_up_time,
                down_time,
                freeze_time,
                move_height,
                farmost_dist,
            },
        )
    }
}

impl MoveOptionData {
    /// Width of field `k` where it is present.
    pub open spec fn width(k: int) -> int {
        if k == 0 {
            1
        } else if k == 1 {
            4
        } else if k == 2 {
            8
        } else {
            4
        }
    }

    /// The offsets, written out field by field.
    pub proof fn lemma_offsets(f: u8)
        ensures
            Self::offset(f, 0) == 1,
            Self::offset(f, 1) == Self::offset(f, 0) + gated(flag_bit(f, 0), 1),
            Self::offset(f, 2) == Self::offset(f, 1) + gated(flag_bit(f, 1), 4),
            Self::offset(f, 3) == Self::offset(f, 2) + gated(flag_bit(f, 2), 8),
            Self::offset(f, 4) == Self::offset(f, 3) + gated(flag_bit(f, 3), 4),
    {
        reveal_with_fuel(MoveOptionData::offset, 2);
    }

    /// Offset of field `k` (0 to 4) behind the flag byte `f`; the fourth
    /// field is read and dropped.
    pub open spec fn offset(f: u8, k: int) -> int
        decreases k,
    {
        if k <= 0 {
            1
        } else {
            Self::offset(f, k - 1) + gated(flag_bit(f, k - 1), Self::width(k - 1))
        }
    }

    /// Offset behind the first run of opaque bytes (at most four).
    pub open spec fn run1(b: Seq<u8>) -> int {
        Self::offset(b[0], 4) + gated(flag_bit(b[0], 4), counted_run(b, Self::offset(b[0], 4), 4))
    }

    /// Offset behind the second run of opaque bytes (at most five).
    pub open spec fn run2(b: Seq<u8>) -> int {
        Self::run1(b) + gated(flag_bit(b[0], 5), counted_run(b, Self::run1(b), 5))
    }

    /// Offset of the end of the structure, behind the third run of opaque
    /// bytes (at most six).
    pub open spec fn end(b: Seq<u8>) -> int {
        Self::run2(b) + gated(flag_bit(b[0], 6), counted_run(b, Self::run2(b), 6))
    }

    /// Whether the bytes hold the whole structure.
    pub open spec fn fits(b: Seq<u8>) -> bool {
        &&& b.len() >= 1
        &&& Self::offset(b[0], 4) <= b.len()
        &&& flag_bit(b[0], 4) ==> Self::offset(b[0], 4) + 2 <= b.len()
        &&& Self::run1(b) <= b.len()
        &&& flag_bit(b[0], 5) ==> Self::run1(b) + 2 <= b.len()
        &&& Self::run2(b) <= b.len()
        &&& flag_bit(b[0], 6) ==> Self::run2(b) + 2 <= b.len()
        &&& Self::end(b) <= b.len()
    }

    /// The value that the bytes stand for, where they are long enough.
    pub open spec fn of_bytes(b: Seq<u8>) -> MoveOptionData {
        let f = b[0];
        MoveOptionData {
            modifier: if flag_bit(f, 0) { Some(b[Self::offset(f, 0)]) } else { None },
            speed: if flag_bit(f, 1) { Some(le_u32(b.skip(Self::offset(f, 1))) as u32) } else { None },
            next_pos: if flag_bit(f, 2) {
                Some(le_u64(b.skip(Self::offset(f, 2))) as u64)
            } else {
                None
            },
        }
    }
}

impl<'bump> Event<'bump> for MoveOptionData {
    type Out = MoveOptionData;

    open spec fn span(bytes: Seq<u8>) -> Option<nat> {
        if MoveOptionData::fits(bytes) {
            Some(MoveOptionData::end(bytes) as nat)
        } else {
            None
        }
    }

    open spec fn failure(bytes: Seq<u8>) -> ParseError {
        ParseError::OutOfBytes
    }

    open spec fn decodes(bytes: Seq<u8>, out: MoveOptionData) -> bool {
        out == MoveOptionData::of_bytes(bytes)
    }

    #[verifier::rlimit(50)]
    fn parse(parser: &mut Parser, _bump: &'bump Arena) -> (r: Result<MoveOptionData, ParseError>) {
        let ghost b = parser@;
        let flag = parser.read_u8()?;
        proof {
            Self::lemma_offsets(flag);
        }
        let modifier = gated_u8(parser, bit_is_set(flag, 0), Ghost(b), Ghost(Self::offset(flag, 0)))?;
        let speed = gated_u32(parser, bit_is_set(flag, 1), Ghost(b), Ghost(Self::offset(flag, 1)))?;
        let next_pos = gated_u64(parser, bit_is_set(flag, 2), Ghost(b), Ghost(Self::offset(flag, 2)))?;
        let _ = gated_u32(parser, bit_is_set(flag, 3), Ghost(b), Ghost(Self::offset(flag, 3)))?;
        gated_run(parser, bit_is_set(flag, 4), 4, Ghost(b), Ghost(Self::offset(flag, 4)))?;
        gated_run(parser, bit_is_set(flag, 5), 5, Ghost(b), Ghost(Self::run1(b)))?;
        gated_run(parser, bit_is_set(flag, 6), 6, Ghost(b), Ghost(Self::run2(b)))?;
        Ok(MoveOptionData { modifier, speed, next_pos })
    }
}

/// `TryFrom<&[u8]>` of std for arrays: the array of the bytes of a slice of
/// exactly `N` bytes, and nothing for a slice of another length.
#[verifier::external_body]
fn array_from_slice<const N: usize>(bytes: &[u8]) -> (r: Option<[u8; N]>)
    ensures
        match r {
            Some(array) => array@ == bytes@,
            None => bytes@.len() != N,
        },
{
    <[u8; N]>::try_from(bytes).ok()
}

impl<'bump, const N: usize> Event<'bump> for [u8; N] {
    type Out = [u8; N];

    open spec fn span(bytes: Seq<u8>) -> Option<nat> {
        if bytes.len() >= N {
            Some(N as nat)
        } else {
            None
        }
    }

    open spec fn failure(bytes: Seq<u8>) -> ParseError {
        ParseError::OutOfBytes
    }

    open spec fn decodes(bytes: Seq<u8>, out: [u8; N]) -> bool {
        out@ == bytes.take(N as int)
    }

    fn parse(parser: &mut Parser, _bump: &'bump Arena) -> (r: Result<[u8; N], ParseError>) {
        if parser.remaining() < N {
            return Err(ParseError::OutOfBytes);
        }
        let head = slice_subrange(parser.raw(), 0, N);
        match array_from_slice::<N>(head) {
            Some(array) => {
                parser.advance(N);
                Ok(array)
            },
            None => Err(ParseError::OutOfBytes),
        }
    }
}

} // verus!
