//! Reading and writing integers at the position of a buffer, in the buffer's
//! byte order, through `byteorder`.
use vstd::prelude::*;
use vstd::slice::slice_subrange;
use crate::buffer::{Buffer, ByteBuffer, BO};
use crate::encoding::{be_to_nat, le_to_nat, nat_to_be, nat_to_le, signed_of, unsigned_of};
use crate::encoding::lemma_encode_decode;
use crate::endian::{
    be_read_i16, be_read_i32, be_read_i64, be_read_u16, be_read_u32, be_read_u64, be_write_i16,
    be_write_i32, be_write_i64, be_write_u16, be_write_u32, be_write_u64, le_read_i16, le_read_i32,
    le_read_i64, le_read_u16, le_read_u32, le_read_u64, le_write_i16, le_write_i32, le_write_i64,
    le_write_u16, le_write_u32, le_write_u64,
};

verus! {

/// The `width` bytes that stand for `n` in byte order `order`.
pub open spec fn encode(n: nat, width: nat, order: BO) -> Seq<u8> {
    match order {
        BO::LittleEndian => nat_to_le(n, width),
        BO::BigEndian => nat_to_be(n, width),
    }
}

/// The number that `bytes` stand for in byte order `order`.
pub open spec fn decode(bytes: Seq<u8>, order: BO) -> nat {
    match order {
        BO::LittleEndian => le_to_nat(bytes),
        BO::BigEndian => be_to_nat(bytes),
    }
}

/// The `i`-th group of `width` bytes in `bytes`.
pub open spec fn chunk(bytes: Seq<u8>, i: int, width: nat) -> Seq<u8> {
    bytes.subrange(i * width, i * width + width)
}

impl ByteBuffer {
    /// Reads an unsigned 16-bit integer from the 2 bytes at the position, in
    /// the buffer's byte order, and moves the position on by 2 (no further
    /// than the limit); `None`, with nothing changed, when fewer than 2 bytes
    /// remain.
    pub fn get_u16(&mut self) -> (r: Option<u16>)
        requires
            old(self)@.pos <= old(self)@.limit,
        ensures
            old(self)@.wf(),
            final(self)@.wf(),
            2 <= old(self)@.remaining() ==> (r matches Some(v) && v == decode(old(self)@.bytes_at(2), old(self)@.order)
                && final(self)@ == old(self)@.advanced(2)),
            2 > old(self)@.remaining() ==> (r is None && *final(self) == *old(self)),
    {
        let len: usize = 2;
        let order = self.get_order();
        let bytes = match self.get_bytes(len) {
            Err(_) => {
                return None;
            },
            Ok(bytes) => bytes,
        };
        assert(bytes@.subrange(0, 2) =~= bytes@);
        let num = match order {
            BO::LittleEndian => le_read_u16(bytes),
            _ => be_read_u16(bytes),
        };
        Some(num)
    }

    /// Writes `n` as 2 bytes in the buffer's byte order from the position on,
    /// as `put_bytes` does; fails, with nothing changed, when fewer than 2
    /// bytes remain.
    pub fn put_u16(&mut self, n: u16) -> (r: Result<&mut Self, &str>)
        requires
            old(self)@.pos <= old(self)@.limit,
        ensures
            old(self)@.wf(),
            2 <= old(self)@.remaining() ==> (r matches Ok(s) && s@.wf() && s@ == old(
                self,
            )@.written(encode(n as nat, 2, old(self)@.order)).advanced(2)
                && *final(self) == *final(s)),
            2 > old(self)@.remaining() ==> (r matches Err(e)
                && e@ == "You can't write bytes beyond the limit!!"@ && *final(self) == *old(self)),
    {
        let len: usize = 2;
        let mut vec: Vec<u8> = Vec::with_capacity(len);
        while vec.len() < len
            invariant
                vec.len() <= len,
            decreases len - vec.len(),
        {
            vec.push(0);
        }
        let order = self.get_order();
        {
            let buf = vec.as_mut_slice();
            match order {
                BO::LittleEndian => le_write_u16(buf, n),
                _ => be_write_u16(buf, n),
            }
        }
        proof {
            lemma_encode_decode(n as nat, 2);
            assert(vec@ =~= encode(n as nat, 2, order));
        }
        self.put_bytes(vec.as_slice())
    }

    /// Reads as many unsigned 16-bit integers as whole groups of 2 bytes
    /// remain, each in the buffer's byte order, and moves the position on past
    /// them (no further than the limit); `None`, with nothing changed, when
    /// fewer than 2 bytes remain.
    pub fn as_u16_vec(&mut self) -> (r: Option<Vec<u16>>)
        requires
            old(self)@.pos <= old(self)@.limit,
        ensures
            old(self)@.wf(),
            final(self)@.wf(),
            old(self)@.remaining() < 2 ==> (r is None && *final(self) == *old(self)),
            old(self)@.remaining() >= 2 ==> (r matches Some(v) && ({
                let count = old(self)@.remaining() / 2;
                &&& v@.len() == count
                &&& forall|i: int|
                    0 <= i < count ==> #[trigger] v@[i] == decode(chunk(old(self)@.bytes_at((2 * count) as nat), i, 2), old(self)@.order)
                &&& final(self)@ == old(self)@.advanced((2 * count) as nat)
            })),
    {
        let type_size: usize = 2;
        let count = self.remaining() / type_size;
        if count == 0 {
            return None;
        }
        let order = self.get_order();
        let len = count * type_size;
        let bytes = match self.get_bytes(len) {
            Ok(bytes) => bytes,
            Err(_) => {
                return None;
            },
        };
        let mut result: Vec<u16> = Vec::with_capacity(count);
        let mut i: usize = 0;
        while i < count
            invariant
                i <= count,
                count * 2 == len,
                bytes@.len() == len,
                result@.len() == i,
                forall|j: int|
                    0 <= j < i ==> #[trigger] result@[j] == decode(chunk(bytes@, j, 2), order),
            decreases count - i,
        {
            let piece = slice_subrange(bytes, i * 2, i * 2 + 2);
            assert(piece@.subrange(0, 2) =~= piece@);
            let num = match order {
                BO::LittleEndian => le_read_u16(piece),
                _ => be_read_u16(piece),
            };
            result.push(num);
            i += 1;
        }
        Some(result)
    }

    /// Reads an unsigned 32-bit integer from the 4 bytes at the position, in
    /// the buffer's byte order, and moves the position on by 4 (no further
    /// than the limit); `None`, with nothing changed, when fewer than 4 bytes
    /// remain.
    pub fn get_u32(&mut self) -> (r: Option<u32>)
        requires
            old(self)@.pos <= old(self)@.limit,
        ensures
            old(self)@.wf(),
            final(self)@.wf(),
            4 <= old(self)@.remaining() ==> (r matches Some(v) && v == decode(old(self)@.bytes_at(4), old(self)@.order)
                && final(self)@ == old(self)@.advanced(4)),
            4 > old(self)@.remaining() ==> (r is None && *final(self) == *old(self)),
    {
        let len: usize = 4;
        let order = self.get_order();
        let bytes = match self.get_bytes(len) {
            Err(_) => {
                return None;
            },
            Ok(bytes) => bytes,
        };
        assert(bytes@.subrange(0, 4) =~= bytes@);
        let num = match order {
            BO::LittleEndian => le_read_u32(bytes),
            _ => be_read_u32(bytes),
        };
        Some(num)
    }

    /// Writes `n` as 4 bytes in the buffer's byte order from the position on,
    /// as `put_bytes` does; fails, with nothing changed, when fewer than 4
    /// bytes remain.
    pub fn put_u32(&mut self, n: u32) -> (r: Result<&mut Self, &str>)
        requires
            old(self)@.pos <= old(self)@.limit,
        ensures
            old(self)@.wf(),
            4 <= old(self)@.remaining() ==> (r matches Ok(s) && s@.wf() && s@ == old(
                self,
            )@.written(encode(n as nat, 4, old(self)@.order)).advanced(4)
                && *final(self) == *final(s)),
            4 > old(self)@.remaining() ==> (r matches Err(e)
                && e@ == "You can't write bytes beyond the limit!!"@ && *final(self) == *old(self)),
    {
        let len: usize = 4;
        let mut vec: Vec<u8> = Vec::with_capacity(len);
        while vec.len() < len
            invariant
                vec.len() <= len,
            decreases len - vec.len(),
        {
            vec.push(0);
        }
        let order = self.get_order();
        {
            let buf = vec.as_mut_slice();
            match order {
                BO::LittleEndian => le_write_u32(buf, n),
                _ => be_write_u32(buf, n),
            }
        }
        proof {
            lemma_encode_decode(n as nat, 4);
            assert(vec@ =~= encode(n as nat, 4, order));
        }
        self.put_bytes(vec.as_slice())
    }

    /// Reads as many unsigned 32-bit integers as whole groups of 4 bytes
    /// remain, each in the buffer's byte order, and moves the position on past
    /// them (no further than the limit); `None`, with nothing changed, when
    /// fewer than 4 bytes remain.
    pub fn as_u32_vec(&mut self) -> (r: Option<Vec<u32>>)
        requires
            old(self)@.pos <= old(self)@.limit,
        ensures
            old(self)@.wf(),
            final(self)@.wf(),
            old(self)@.remaining() < 4 ==> (r is None && *final(self) == *old(self)),
            old(self)@.remaining() >= 4 ==> (r matches Some(v) && ({
                let count = old(self)@.remaining() / 4;
                &&& v@.len() == count
                &&& forall|i: int|
                    0 <= i < count ==> #[trigger] v@[i] == decode(chunk(old(self)@.bytes_at((4 * count) as nat), i, 4), old(self)@.order)
                &&& final(self)@ == old(self)@.advanced((4 * count) as nat)
            })),
    {
        let type_size: usize = 4;
        let count = self.remaining() / type_size;
        if count == 0 {
            return None;
        }
        let order = self.get_order();
        let len = count * type_size;
        let bytes = match self.get_bytes(len) {
            Ok(bytes) => bytes,
            Err(_) => {
                return None;
            },
        };
        let mut result: Vec<u32> = Vec::with_capacity(count);
        let mut i: usize = 0;
        while i < count
            invariant
                i <= count,
                count * 4 == len,
                bytes@.len() == len,
                result@.len() == i,
                forall|j: int|
                    0 <= j < i ==> #[trigger] result@[j] == decode(chunk(bytes@, j, 4), order),
            decreases count - i,
        {
            let piece = slice_subrange(bytes, i * 4, i * 4 + 4);
            assert(piece@.subrange(0, 4) =~= piece@);
            let num = match order {
                BO::LittleEndian => le_read_u32(piece),
                _ => be_read_u32(piece),
            };
            result.push(num);
            i += 1;
        }
        Some(result)
    }

    /// Reads an unsigned 64-bit integer from the 8 bytes at the position, in
    /// the buffer's byte order, and moves the position on by 8 (no further
    /// than the limit); `None`, with nothing changed, when fewer than 8 bytes
    /// remain.
    pub fn get_u64(&mut self) -> (r: Option<u64>)
        requires
            old(self)@.pos <= old(self)@.limit,
        ensures
            old(self)@.wf(),
            final(self)@.wf(),
            8 <= old(self)@.remaining() ==> (r matches Some(v) && v == decode(old(self)@.bytes_at(8), old(self)@.order)
                && final(self)@ == old(self)@.advanced(8)),
            8 > old(self)@.remaining() ==> (r is None && *final(self) == *old(self)),
    {
        let len: usize = 8;
        let order = self.get_order();
        let bytes = match self.get_bytes(len) {
            Err(_) => {
                return None;
            },
            Ok(bytes) => bytes,
        };
        assert(bytes@.subrange(0, 8) =~= bytes@);
        let num = match order {
            BO::LittleEndian => le_read_u64(bytes),
            _ => be_read_u64(bytes),
        };
        Some(num)
    }

    /// Writes `n` as 8 bytes in the buffer's byte order from the position on,
    /// as `put_bytes` does; fails, with nothing changed, when fewer than 8
    /// bytes remain.
    pub fn put_u64(&mut self, n: u64) -> (r: Result<&mut Self, &str>)
        requires
            old(self)@.pos <= old(self)@.limit,
        ensures
            old(self)@.wf(),
            8 <= old(self)@.remaining() ==> (r matches Ok(s) && s@.wf() && s@ == old(
                self,
            )@.written(encode(n as nat, 8, old(self)@.order)).advanced(8)
                && *final(self) == *final(s)),
            8 > old(self)@.remaining() ==> (r matches Err(e)
                && e@ == "You can't write bytes beyond the limit!!"@ && *final(self) == *old(self)),
    {
        let len: usize = 8;
        let mut vec: Vec<u8> = Vec::with_capacity(len);
        while vec.len() < len
            invariant
                vec.len() <= len,
            decreases len - vec.len(),
        {
            vec.push(0);
        }
        let order = self.get_order();
        {
            let buf = vec.as_mut_slice();
            match order {
                BO::LittleEndian => le_write_u64(buf, n),
                _ => be_write_u64(buf, n),
            }
        }
        proof {
            lemma_encode_decode(n as nat, 8);
            assert(vec@ =~= encode(n as nat, 8, order));
        }
        self.put_bytes(vec.as_slice())
    }

    /// Reads as many unsigned 64-bit integers as whole groups of 8 bytes
    /// remain, each in the buffer's byte order, and moves the position on past
    /// them (no further than the limit); `None`, with nothing changed, when
    /// fewer than 8 bytes remain.
    pub fn as_u64_vec(&mut self) -> (r: Option<Vec<u64>>)
        requires
            old(self)@.pos <= old(self)@.limit,
        ensures
            old(self)@.wf(),
            final(self)@.wf(),
            old(self)@.remaining() < 8 ==> (r is None && *final(self) == *old(self)),
            old(self)@.remaining() >= 8 ==> (r matches Some(v) && ({
                let count = old(self)@.remaining() / 8;
                &&& v@.len() == count
                &&& forall|i: int|
                    0 <= i < count ==> #[trigger] v@[i] == decode(chunk(old(self)@.bytes_at((8 * count) as nat), i, 8), old(self)@.order)
                &&& final(self)@ == old(self)@.advanced((8 * count) as nat)
            })),
    {
        let type_size: usize = 8;
        let count = self.remaining() / type_size;
        if count == 0 {
            return None;
        }
        let order = self.get_order();
        let len = count * type_size;
        let bytes = match self.get_bytes(len) {
            Ok(bytes) => bytes,
            Err(_) => {
                return None;
            },
        };
        let mut result: Vec<u64> = Vec::with_capacity(count);
        let mut i: usize = 0;
        while i < count
            invariant
                i <= count,
                count * 8 == len,
                bytes@.len() == len,
                result@.len() == i,
                forall|j: int|
                    0 <= j < i ==> #[trigger] result@[j] == decode(chunk(bytes@, j, 8), order),
            decreases count - i,
        {
            let piece = slice_subrange(bytes, i * 8, i * 8 + 8);
            assert(piece@.subrange(0, 8) =~= piece@);
            let num = match order {
                BO::LittleEndian => le_read_u64(piece),
                _ => be_read_u64(piece),
            };
            result.push(num);
            i += 1;
        }
        Some(result)
    }

    /// Reads a signed 16-bit integer from the 2 bytes at the position, in
    /// the buffer's byte order, and moves the position on by 2 (no further
    /// than the limit); `None`, with nothing changed, when fewer than 2 bytes
    /// remain.
    pub fn get_i16(&mut self) -> (r: Option<i16>)
        requires
            old(self)@.pos <= old(self)@.limit,
        ensures
            old(self)@.wf(),
            final(self)@.wf(),
            2 <= old(self)@.remaining() ==> (r matches Some(v) && v == signed_of(decode(old(self)@.bytes_at(2), old(self)@.order), 2)
                && final(self)@ == old(self)@.advanced(2)),
            2 > old(self)@.remaining() ==> (r is None && *final(self) == *old(self)),
    {
        let len: usize = 2;
        let order = self.get_order();
        let bytes = match self.get_bytes(len) {
            Err(_) => {
                return None;
            },
            Ok(bytes) => bytes,
        };
        assert(bytes@.subrange(0, 2) =~= bytes@);
        let num = match order {
            BO::LittleEndian => le_read_i16(bytes),
            _ => be_read_i16(bytes),
        };
        Some(num)
    }

    /// Writes `n` as 2 bytes in the buffer's byte order from the position on,
    /// as `put_bytes` does; fails, with nothing changed, when fewer than 2
    /// bytes remain.
    pub fn put_i16(&mut self, n: i16) -> (r: Result<&mut Self, &str>)
        requires
            old(self)@.pos <= old(self)@.limit,
        ensures
            old(self)@.wf(),
            2 <= old(self)@.remaining() ==> (r matches Ok(s) && s@.wf() && s@ == old(
                self,
            )@.written(encode(unsigned_of(n as int, 2), 2, old(self)@.order)).advanced(2)
                && *final(self) == *final(s)),
            2 > old(self)@.remaining() ==> (r matches Err(e)
                && e@ == "You can't write bytes beyond the limit!!"@ && *final(self) == *old(self)),
    {
        let len: usize = 2;
        let mut vec: Vec<u8> = Vec::with_capacity(len);
        while vec.len() < len
            invariant
                vec.len() <= len,
            decreases len - vec.len(),
        {
            vec.push(0);
        }
        let order = self.get_order();
        {
            let buf = vec.as_mut_slice();
            match order {
                BO::LittleEndian => le_write_i16(buf, n),
                _ => be_write_i16(buf, n),
            }
        }
        proof {
            lemma_encode_decode(unsigned_of(n as int, 2), 2);
            assert(vec@ =~= encode(unsigned_of(n as int, 2), 2, order));
        }
        self.put_bytes(vec.as_slice())
    }

    /// Reads as many signed 16-bit integers as whole groups of 2 bytes
    /// remain, each in the buffer's byte order, and moves the position on past
    /// them (no further than the limit); `None`, with nothing changed, when
    /// fewer than 2 bytes remain.
    pub fn as_i16_vec(&mut self) -> (r: Option<Vec<i16>>)
        requires
            old(self)@.pos <= old(self)@.limit,
        ensures
            old(self)@.wf(),
            final(self)@.wf(),
            old(self)@.remaining() < 2 ==> (r is None && *final(self) == *old(self)),
            old(self)@.remaining() >= 2 ==> (r matches Some(v) && ({
                let count = old(self)@.remaining() / 2;
                &&& v@.len() == count
                &&& forall|i: int|
                    0 <= i < count ==> #[trigger] v@[i] == signed_of(decode(chunk(old(self)@.bytes_at((2 * count) as nat), i, 2), old(self)@.order), 2)
                &&& final(self)@ == old(self)@.advanced((2 * count) as nat)
            })),
    {
        let type_size: usize = 2;
        let count = self.remaining() / type_size;
        if count == 0 {
            return None;
        }
        let order = self.get_order();
        let len = count * type_size;
        let bytes = match self.get_bytes(len) {
            Ok(bytes) => bytes,
            Err(_) => {
                return None;
            },
        };
        let mut result: Vec<i16> = Vec::with_capacity(count);
        let mut i: usize = 0;
        while i < count
            invariant
                i <= count,
                count * 2 == len,
                bytes@.len() == len,
                result@.len() == i,
                forall|j: int|
                    0 <= j < i ==> #[trigger] result@[j] == signed_of(decode(chunk(bytes@, j, 2), order), 2),
            decreases count - i,
        {
            let piece = slice_subrange(bytes, i * 2, i * 2 + 2);
            assert(piece@.subrange(0, 2) =~= piece@);
            let num = match order {
                BO::LittleEndian => le_read_i16(piece),
                _ => be_read_i16(piece),
            };
            result.push(num);
            i += 1;
        }
        Some(result)
    }

    /// Reads a signed 32-bit integer from the 4 bytes at the position, in
    /// the buffer's byte order, and moves the position on by 4 (no further
    /// than the limit); `None`, with nothing changed, when fewer than 4 bytes
    /// remain.
    pub fn get_i32(&mut self) -> (r: Option<i32>)
        requires
            old(self)@.pos <= old(self)@.limit,
        ensures
            old(self)@.wf(),
            final(self)@.wf(),
            4 <= old(self)@.remaining() ==> (r matches Some(v) && v == signed_of(decode(old(self)@.bytes_at(4), old(self)@.order), 4)
                && final(self)@ == old(self)@.advanced(4)),
            4 > old(self)@.remaining() ==> (r is None && *final(self) == *old(self)),
    {
        let len: usize = 4;
        let order = self.get_order();
        let bytes = match self.get_bytes(len) {
            Err(_) => {
                return None;
            },
            Ok(bytes) => bytes,
        };
        assert(bytes@.subrange(0, 4) =~= bytes@);
        let num = match order {
            BO::LittleEndian => le_read_i32(bytes),
            _ => be_read_i32(bytes),
        };
        Some(num)
    }

    /// Writes `n` as 4 bytes in the buffer's byte order from the position on,
    /// as `put_bytes` does; fails, with nothing changed, when fewer than 4
    /// bytes remain.
    pub fn put_i32(&mut self, n: i32) -> (r: Result<&mut Self, &str>)
        requires
            old(self)@.pos <= old(self)@.limit,
        ensures
            old(self)@.wf(),
            4 <= old(self)@.remaining() ==> (r matches Ok(s) && s@.wf() && s@ == old(
                self,
            )@.written(encode(unsigned_of(n as int, 4), 4, old(self)@.order)).advanced(4)
                && *final(self) == *final(s)),
            4 > old(self)@.remaining() ==> (r matches Err(e)
                && e@ == "You can't write bytes beyond the limit!!"@ && *final(self) == *old(self)),
    {
        let len: usize = 4;
        let mut vec: Vec<u8> = Vec::with_capacity(len);
        while vec.len() < len
            invariant
                vec.len() <= len,
            decreases len - vec.len(),
        {
            vec.push(0);
        }
        let order = self.get_order();
        {
            let buf = vec.as_mut_slice();
            match order {
                BO::LittleEndian => le_write_i32(buf, n),
                _ => be_write_i32(buf, n),
            }
        }
        proof {
            lemma_encode_decode(unsigned_of(n as int, 4), 4);
            assert(vec@ =~= encode(unsigned_of(n as int, 4), 4, order));
        }
        self.put_bytes(vec.as_slice())
    }

    /// Reads as many signed 32-bit integers as whole groups of 4 bytes
    /// remain, each in the buffer's byte order, and moves the position on past
    /// them (no further than the limit); `None`, with nothing changed, when
    /// fewer than 4 bytes remain.
    pub fn as_i32_vec(&mut self) -> (r: Option<Vec<i32>>)
        requires
            old(self)@.pos <= old(self)@.limit,
        ensures
            old(self)@.wf(),
            final(self)@.wf(),
            old(self)@.remaining() < 4 ==> (r is None && *final(self) == *old(self)),
            old(self)@.remaining() >= 4 ==> (r matches Some(v) && ({
                let count = old(self)@.remaining() / 4;
                &&& v@.len() == count
                &&& forall|i: int|
                    0 <= i < count ==> #[trigger] v@[i] == signed_of(decode(chunk(old(self)@.bytes_at((4 * count) as nat), i, 4), old(self)@.order), 4)
                &&& final(self)@ == old(self)@.advanced((4 * count) as nat)
            })),
    {
        let type_size: usize = 4;
        let count = self.remaining() / type_size;
        if count == 0 {
            return None;
        }
        let order = self.get_order();
        let len = count * type_size;
        let bytes = match self.get_bytes(len) {
            Ok(bytes) => bytes,
            Err(_) => {
                return None;
            },
        };
        let mut result: Vec<i32> = Vec::with_capacity(count);
        let mut i: usize = 0;
        while i < count
            invariant
                i <= count,
                count * 4 == len,
                bytes@.len() == len,
                result@.len() == i,
                forall|j: int|
                    0 <= j < i ==> #[trigger] result@[j] == signed_of(decode(chunk(bytes@, j, 4), order), 4),
            decreases count - i,
        {
            let piece = slice_subrange(bytes, i * 4, i * 4 + 4);
            assert(piece@.subrange(0, 4) =~= piece@);
            let num = match order {
                BO::LittleEndian => le_read_i32(piece),
                _ => be_read_i32(piece),
            };
            result.push(num);
            i += 1;
        }
        Some(result)
    }

    /// Reads a signed 64-bit integer from the 8 bytes at the position, in
    /// the buffer's byte order, and moves the position on by 8 (no further
    /// than the limit); `None`, with nothing changed, when fewer than 8 bytes
    /// remain.
    pub fn get_i64(&mut self) -> (r: Option<i64>)
        requires
            old(self)@.pos <= old(self)@.limit,
        ensures
            old(self)@.wf(),
            final(self)@.wf(),
            8 <= old(self)@.remaining() ==> (r matches Some(v) && v == signed_of(decode(old(self)@.bytes_at(8), old(self)@.order), 8)
                && final(self)@ == old(self)@.advanced(8)),
            8 > old(self)@.remaining() ==> (r is None && *final(self) == *old(self)),
    {
        let len: usize = 8;
        let order = self.get_order();
        let bytes = match self.get_bytes(len) {
            Err(_) => {
                return None;
            },
            Ok(bytes) => bytes,
        };
        assert(bytes@.subrange(0, 8) =~= bytes@);
        let num = match order {
            BO::LittleEndian => le_read_i64(bytes),
            _ => be_read_i64(bytes),
        };
        Some(num)
    }

    /// Writes `n` as 8 bytes in the buffer's byte order from the position on,
    /// as `put_bytes` does; fails, with nothing changed, when fewer than 8
    /// bytes remain.
    pub fn put_i64(&mut self, n: i64) -> (r: Result<&mut Self, &str>)
        requires
            old(self)@.pos <= old(self)@.limit,
        ensures
            old(self)@.wf(),
            8 <= old(self)@.remaining() ==> (r matches Ok(s) && s@.wf() && s@ == old(
                self,
            )@.written(encode(unsigned_of(n as int, 8), 8, old(self)@.order)).advanced(8)
                && *final(self) == *final(s)),
            8 > old(self)@.remaining() ==> (r matches Err(e)
                && e@ == "You can't write bytes beyond the limit!!"@ && *final(self) == *old(self)),
    {
        let len: usize = 8;
        let mut vec: Vec<u8> = Vec::with_capacity(len);
        while vec.len() < len
            invariant
                vec.len() <= len,
            decreases len - vec.len(),
        {
            vec.push(0);
        }
        let order = self.get_order();
        {
            let buf = vec.as_mut_slice();
            match order {
                BO::LittleEndian => le_write_i64(buf, n),
                _ => be_write_i64(buf, n),
            }
        }
        proof {
            lemma_encode_decode(unsigned_of(n as int, 8), 8);
            assert(vec@ =~= encode(unsigned_of(n as int, 8), 8, order));
        }
        self.put_bytes(vec.as_slice())
    }

    /// Reads as many signed 64-bit integers as whole groups of 8 bytes
    /// remain, each in the buffer's byte order, and moves the position on past
    /// them (no further than the limit); `None`, with nothing changed, when
    /// fewer than 8 bytes remain.
    pub fn as_i64_vec(&mut self) -> (r: Option<Vec<i64>>)
        requires
            old(self)@.pos <= old(self)@.limit,
        ensures
            old(self)@.wf(),
            final(self)@.wf(),
            old(self)@.remaining() < 8 ==> (r is None && *final(self) == *old(self)),
            old(self)@.remaining() >= 8 ==> (r matches Some(v) && ({
                let count = old(self)@.remaining() / 8;
                &&& v@.len() == count
                &&& forall|i: int|
                    0 <= i < count ==> #[trigger] v@[i] == signed_of(decode(chunk(old(self)@.bytes_at((8 * count) as nat), i, 8), old(self)@.order), 8)
                &&& final(self)@ == old(self)@.advanced((8 * count) as nat)
            })),
    {
        let type_size: usize = 8;
        let count = self.remaining() / type_size;
        if count == 0 {
            return None;
        }
        let order = self.get_order();
        let len = count * type_size;
        let bytes = match self.get_bytes(len) {
            Ok(bytes) => bytes,
            Err(_) => {
                return None;
            },
        };
        let mut result: Vec<i64> = Vec::with_capacity(count);
        let mut i: usize = 0;
        while i < count
            invariant
                i <= count,
                count * 8 == len,
                bytes@.len() == len,
                result@.len() == i,
                forall|j: int|
                    0 <= j < i ==> #[trigger] result@[j] == signed_of(decode(chunk(bytes@, j, 8), order), 8),
            decreases count - i,
        {
            let piece = slice_subrange(bytes, i * 8, i * 8 + 8);
            assert(piece@.subrange(0, 8) =~= piece@);
            let num = match order {
                BO::LittleEndian => le_read_i64(piece),
                _ => be_read_i64(piece),
            };
            result.push(num);
            i += 1;
        }
        Some(result)
    }

}

} // verus!
