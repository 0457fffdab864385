//! Bounded, endianness-aware reads over an immutable byte buffer.
//!
//! Every read states exactly which bytes make up its result, and fails
//! with `OutOfBounds` instead of touching memory past the buffer.

use vstd::prelude::*;

use crate::error::ExifError;
use crate::model::ByteOrder;

verus! {

/// The 16-bit value stored at `i` under byte order `order`.
pub open spec fn spec_u16_at(s: Seq<u8>, i: int, order: ByteOrder) -> u16 {
    match order {
        ByteOrder::Little => (s[i] + s[i + 1] * 256) as u16,
        ByteOrder::Big => (s[i + 1] + s[i] * 256) as u16,
    }
}

/// The 32-bit value stored at `i` under byte order `order`.
pub open spec fn spec_u32_at(s: Seq<u8>, i: int, order: ByteOrder) -> u32 {
    match order {
        ByteOrder::Little => (s[i] + s[i + 1] * 0x100 + s[i + 2] * 0x10000 + s[i + 3]
            * 0x1000000) as u32,
        ByteOrder::Big => (s[i + 3] + s[i + 2] * 0x100 + s[i + 1] * 0x10000 + s[i]
            * 0x1000000) as u32,
    }
}

/// The two's-complement reading of an unsigned 32-bit value.
pub open spec fn spec_i32_of_u32(u: u32) -> i32 {
    if u < 0x8000_0000 {
        u as i32
    } else {
        (u - 0x1_0000_0000) as i32
    }
}

/// The signed 32-bit value stored at `i` under byte order `order`.
pub open spec fn spec_i32_at(s: Seq<u8>, i: int, order: ByteOrder) -> i32 {
    spec_i32_of_u32(spec_u32_at(s, i, order))
}

/// Read an unsigned 16-bit value at `pos`, or `OutOfBounds`.
pub fn read_u16(data: &Vec<u8>, pos: usize, order: ByteOrder) -> (r: Result<u16, ExifError>)
    ensures
        pos + 2 <= data@.len() ==> r == Ok::<u16, ExifError>(
            spec_u16_at(data@, pos as int, order),
        ),
        pos + 2 > data@.len() ==> r == Err::<u16, ExifError>(ExifError::OutOfBounds),
{
    if data.len() >= 2 && pos <= data.len() - 2 {
        let b0 = data[pos];
        let b1 = data[pos + 1];
        let v: u16 = match order {
            ByteOrder::Little => b0 as u16 + (b1 as u16) * 256,
            ByteOrder::Big => b1 as u16 + (b0 as u16) * 256,
        };
        Ok(v)
    } else {
        Err(ExifError::OutOfBounds)
    }
}

/// Read an unsigned 32-bit value at `pos`, or `OutOfBounds`.
pub fn read_u32(data: &Vec<u8>, pos: usize, order: ByteOrder) -> (r: Result<u32, ExifError>)
    ensures
        pos + 4 <= data@.len() ==> r == Ok::<u32, ExifError>(
            spec_u32_at(data@, pos as int, order),
        ),
        pos + 4 > data@.len() ==> r == Err::<u32, ExifError>(ExifError::OutOfBounds),
{
    if data.len() >= 4 && pos <= data.len() - 4 {
        let b0 = data[pos] as u32;
        let b1 = data[pos + 1] as u32;
        let b2 = data[pos + 2] as u32;
        let b3 = data[pos + 3] as u32;
        let v: u32 = match order {
            ByteOrder::Little => b0 + b1 * 0x100 + b2 * 0x10000 + b3 * 0x1000000,
            ByteOrder::Big => b3 + b2 * 0x100 + b1 * 0x10000 + b0 * 0x1000000,
        };
        Ok(v)
    } else {
        Err(ExifError::OutOfBounds)
    }
}

/// Reinterpret an unsigned 32-bit value as a signed one, two's complement.
pub fn i32_of_u32(u: u32) -> (r: i32)
    ensures
        r == spec_i32_of_u32(u),
{
    if u < 0x8000_0000 {
        u as i32
    } else {
        let d: i64 = u as i64 - 0x1_0000_0000i64;
        d as i32
    }
}

/// A bounded, endianness-aware reader over an immutable byte buffer.
///
/// `seek_absolute` accepts any offset, including ones taken from
/// untrusted directory pointers; an out-of-range position only fails
/// on the next read that would cross the boundary, and a failed read
/// leaves the position unchanged.
pub struct ByteCursor<'a> {
    pub data: &'a Vec<u8>,
    pub pos: usize,
    pub order: ByteOrder,
}

impl<'a> ByteCursor<'a> {
    /// A cursor at the start of `data`.
    pub fn new(data: &'a Vec<u8>, order: ByteOrder) -> (c: ByteCursor<'a>)
        ensures
            c.data == data,
            c.pos == 0,
            c.order == order,
    {
        ByteCursor { data, pos: 0, order }
    }

    /// Move to an absolute offset, trusted or not.
    pub fn seek_absolute(&mut self, offset: usize)
        ensures
            final(self).data == old(self).data,
            final(self).order == old(self).order,
            final(self).pos == offset,
    {
        self.pos = offset;
    }

    /// The byte at the current position, without moving.
    pub fn peek(&self) -> (r: Option<u8>)
        ensures
            self.pos < self.data@.len() ==> r == Some(self.data@[self.pos as int]),
            self.pos >= self.data@.len() ==> r is None,
    {
        if self.pos < self.data.len() {
            Some(self.data[self.pos])
        } else {
            None
        }
    }

    /// Read one byte and advance, or fail in place.
    pub fn read_u8(&mut self) -> (r: Result<u8, ExifError>)
        ensures
            final(self).data == old(self).data,
            final(self).order == old(self).order,
            old(self).pos + 1 <= old(self).data@.len() ==> r == Ok::<u8, ExifError>(
                old(self).data@[old(self).pos as int],
            ) && final(self).pos == old(self).pos + 1,
            old(self).pos + 1 > old(self).data@.len() ==> r == Err::<u8, ExifError>(
                ExifError::OutOfBounds,
            ) && final(self).pos == old(self).pos,
    {
        if self.pos < self.data.len() {
            let b = self.data[self.pos];
            self.pos = self.pos + 1;
            Ok(b)
        } else {
            Err(ExifError::OutOfBounds)
        }
    }

    /// Read a 16-bit value under the cursor's byte order and advance.
    pub fn read_u16(&mut self) -> (r: Result<u16, ExifError>)
        ensures
            final(self).data == old(self).data,
            final(self).order == old(self).order,
            old(self).pos + 2 <= old(self).data@.len() ==> r == Ok::<u16, ExifError>(
                spec_u16_at(old(self).data@, old(self).pos as int, old(self).order),
            ) && final(self).pos == old(self).pos + 2,
            old(self).pos + 2 > old(self).data@.len() ==> r == Err::<u16, ExifError>(
                ExifError::OutOfBounds,
            ) && final(self).pos == old(self).pos,
    {
        // Keeps the buffer length's machine-word bound in scope for
        // the position arithmetic below.
        let _dlen = self.data.len();
        match read_u16(self.data, self.pos, self.order) {
            Ok(v) => {
                self.pos = self.pos + 2;
                Ok(v)
            },
            Err(e) => Err(e),
        }
    }

    /// Read a 32-bit value under the cursor's byte order and advance.
    pub fn read_u32(&mut self) -> (r: Result<u32, ExifError>)
        ensures
            final(self).data == old(self).data,
            final(self).order == old(self).order,
            old(self).pos + 4 <= old(self).data@.len() ==> r == Ok::<u32, ExifError>(
                spec_u32_at(old(self).data@, old(self).pos as int, old(self).order),
            ) && final(self).pos == old(self).pos + 4,
            old(self).pos + 4 > old(self).data@.len() ==> r == Err::<u32, ExifError>(
                ExifError::OutOfBounds,
            ) && final(self).pos == old(self).pos,
    {
        // Keeps the buffer length's machine-word bound in scope for
        // the position arithmetic below.
        let _dlen = self.data.len();
        match read_u32(self.data, self.pos, self.order) {
            Ok(v) => {
                self.pos = self.pos + 4;
                Ok(v)
            },
            Err(e) => Err(e),
        }
    }

    /// Read a signed 32-bit value, two's complement, and advance.
    pub fn read_i32(&mut self) -> (r: Result<i32, ExifError>)
        ensures
            final(self).data == old(self).data,
            final(self).order == old(self).order,
            old(self).pos + 4 <= old(self).data@.len() ==> r == Ok::<i32, ExifError>(
                spec_i32_at(old(self).data@, old(self).pos as int, old(self).order),
            ) && final(self).pos == old(self).pos + 4,
            old(self).pos + 4 > old(self).data@.len() ==> r == Err::<i32, ExifError>(
                ExifError::OutOfBounds,
            ) && final(self).pos == old(self).pos,
    {
        // Keeps the buffer length's machine-word bound in scope for
        // the position arithmetic below.
        let _dlen = self.data.len();
        match read_u32(self.data, self.pos, self.order) {
            Ok(v) => {
                self.pos = self.pos + 4;
                Ok(i32_of_u32(v))
            },
            Err(e) => Err(e),
        }
    }

    /// Read `n` bytes into a fresh buffer and advance, or fail in place.
    pub fn read_bytes(&mut self, n: usize) -> (r: Result<Vec<u8>, ExifError>)
        ensures
            final(self).data == old(self).data,
            final(self).order == old(self).order,
            old(self).pos + n <= old(self).data@.len() ==> (r matches Ok(v) && v@ == old(
                self,
            ).data@.subrange(old(self).pos as int, old(self).pos + n) && final(self).pos == old(
                self,
            ).pos + n),
            old(self).pos + n > old(self).data@.len() ==> r == Err::<Vec<u8>, ExifError>(
                ExifError::OutOfBounds,
            ) && final(self).pos == old(self).pos,
    {
        if self.pos <= self.data.len() && n <= self.data.len() - self.pos {
            let end = self.pos + n;
            match subvec(self.data, self.pos, end) {
                Ok(v) => {
                    self.pos = end;
                    Ok(v)
                },
                Err(e) => Err(e),
            }
        } else {
            Err(ExifError::OutOfBounds)
        }
    }
}

/// Copy `data[start..end]` into a fresh buffer, or `OutOfBounds`.
pub fn subvec(data: &Vec<u8>, start: usize, end: usize) -> (r: Result<Vec<u8>, ExifError>)
    ensures
        start <= end && end <= data@.len() ==> (r matches Ok(v) && v@ == data@.subrange(
            start as int,
            end as int,
        )),
        !(start <= end && end <= data@.len()) ==> r == Err::<Vec<u8>, ExifError>(
            ExifError::OutOfBounds,
        ),
{
    if start <= end && end <= data.len() {
        let mut out: Vec<u8> = Vec::new();
        let mut i: usize = start;
        while i < end
            invariant
                start <= i <= end,
                end <= data@.len(),
                out@ == data@.subrange(start as int, i as int),
            decreases end - i,
        {
            out.push(data[i]);
            proof {
                assert(out@ =~= data@.subrange(start as int, i + 1 as int));
            }
            i = i + 1;
        }
        Ok(out)
    } else {
        Err(ExifError::OutOfBounds)
    }
}

} // verus!
