//! A byte buffer with a cursor: a fixed storage of bytes, a position where the
//! next byte is read or written, an inclusive limit that the position does not
//! pass, an optional mark to come back to, and the byte order in which
//! multi-byte integers are read and written.
//!
//! A slice made by `slice` starts at the position of the buffer it was made
//! from: its positions, limit and mark count from that offset in the storage.
//! A slice holds no bytes of its own: it is a cursor into the storage of the
//! buffer it was made from, and its reads and writes take that buffer as an
//! argument, so both see the same bytes. `ByteBuffer::swap_cursor` runs any
//! other operation of a buffer with a slice's cursor.
use vstd::prelude::*;
use vstd::slice::{slice_subrange, slice_to_vec};

verus! {

/// Byte order of the multi-byte integers that a buffer reads and writes.
#[derive(Clone, Copy, Debug, PartialEq, Eq, Structural)]
pub enum BO {
    BigEndian,
    LittleEndian,
}

/// `s` with the bytes from index `at` on replaced by `bytes`; its length stays.
pub open spec fn overwrite(s: Seq<u8>, at: int, bytes: Seq<u8>) -> Seq<u8> {
    Seq::new(s.len(), |i: int| if at <= i < at + bytes.len() { bytes[i - at] } else { s[i] })
}

/// The abstract state of a `ByteBuffer`. `pos`, `limit` and `mark` are indices
/// in `storage`; the buffer's own coordinates count from `offset`.
pub struct BufferView {
    pub storage: Seq<u8>,
    pub offset: nat,
    pub pos: nat,
    pub limit: nat,
    pub mark: Option<nat>,
    pub order: BO,
}

impl BufferView {
    /// What every buffer satisfies: position and limit lie in the buffer's part
    /// of the storage, and a mark lies at or before the position.
    pub open spec fn wf(self) -> bool {
        &&& self.storage.len() <= usize::MAX
        &&& self.offset <= self.pos < self.storage.len()
        &&& self.offset <= self.limit < self.storage.len()
        &&& (self.mark matches Some(m) ==> self.offset <= m <= self.pos)
    }

    /// The number of bytes from the offset to the end of the storage.
    pub open spec fn capacity(self) -> int {
        self.storage.len() - self.offset
    }

    /// The position, counted from the offset.
    pub open spec fn position(self) -> int {
        self.pos - self.offset
    }

    /// The limit, counted from the offset.
    pub open spec fn lim(self) -> int {
        self.limit - self.offset
    }

    /// The mark, counted from the offset.
    pub open spec fn mark_position(self) -> Option<int> {
        match self.mark {
            Some(m) => Some(m - self.offset),
            None => None,
        }
    }

    /// The number of bytes from the position up to the limit, both included.
    pub open spec fn remaining(self) -> int {
        self.limit - self.pos + 1
    }

    /// The `n` bytes of the storage that start at the position.
    pub open spec fn bytes_at(self, n: nat) -> Seq<u8> {
        self.storage.subrange(self.pos as int, (self.pos + n) as int)
    }

    /// The position moved to `newpos` (counted from the offset); a mark beyond
    /// it is dropped.
    pub open spec fn moved_to(self, newpos: nat) -> Self {
        let p = newpos + self.offset;
        BufferView {
            pos: p,
            mark: if self.mark matches Some(m) && m > p { None } else { self.mark },
            ..self
        }
    }

    /// The limit moved to `newlim` (counted from the offset); a mark beyond it
    /// is dropped. The position stays where it is.
    pub open spec fn limited_to(self, newlim: nat) -> Self {
        let l = newlim + self.offset;
        BufferView {
            limit: l,
            mark: if self.mark matches Some(m) && m > l { None } else { self.mark },
            ..self
        }
    }

    /// The mark set at the position.
    pub open spec fn marked(self) -> Self {
        BufferView { mark: Some(self.pos), ..self }
    }

    /// The position moved back to the mark.
    pub open spec fn reset_to_mark(self) -> Self
        recommends
            self.mark is Some,
    {
        BufferView { pos: self.mark->0, ..self }
    }

    /// Position at the start, limit at the last byte of the storage, no mark.
    pub open spec fn cleared(self) -> Self {
        BufferView {
            pos: self.offset,
            limit: (self.storage.len() - 1) as nat,
            mark: None,
            ..self
        }
    }

    /// Limit at the position, position at the start, no mark.
    pub open spec fn flipped(self) -> Self {
        BufferView { limit: self.pos, pos: self.offset, mark: None, ..self }
    }

    /// Position at the start, no mark.
    pub open spec fn rewound(self) -> Self {
        BufferView { pos: self.offset, mark: None, ..self }
    }

    /// The position one further on, unless it is at or past the limit.
    pub open spec fn stepped(self) -> Self {
        if self.pos < self.limit {
            BufferView { pos: self.pos + 1, ..self }
        } else {
            self
        }
    }

    /// The position `n` further on, but no further than the limit.
    pub open spec fn advanced(self, n: nat) -> Self {
        BufferView {
            pos: if self.pos + n <= self.limit { self.pos + n } else { self.limit },
            ..self
        }
    }

    /// The storage with `bytes` written from the position on.
    pub open spec fn written(self, bytes: Seq<u8>) -> Self {
        BufferView { storage: overwrite(self.storage, self.pos as int, bytes), ..self }
    }

    /// The byte order set to `order`.
    pub open spec fn ordered(self, order: BO) -> Self {
        BufferView { order, ..self }
    }

    /// A slice of this buffer seen over the same storage: it starts at the
    /// position, with the same limit and byte order and no mark.
    pub open spec fn sliced(self) -> Self {
        BufferView { offset: self.pos, mark: None, ..self }
    }

    /// The same cursor over `storage`.
    pub open spec fn with_storage(self, storage: Seq<u8>) -> Self {
        BufferView { storage, ..self }
    }

    /// The cursor alone: everything but the bytes of the storage.
    pub open spec fn cursor(self) -> SliceView {
        SliceView {
            len: self.storage.len(),
            offset: self.offset,
            pos: self.pos,
            limit: self.limit,
            mark: self.mark,
            order: self.order,
        }
    }
}

/// The abstract state of a `Slice`: a cursor into a storage of `len` bytes
/// that the slice does not hold.
pub struct SliceView {
    pub len: nat,
    pub offset: nat,
    pub pos: nat,
    pub limit: nat,
    pub mark: Option<nat>,
    pub order: BO,
}

impl SliceView {
    /// The buffer state of this cursor over `storage`.
    pub open spec fn over(self, storage: Seq<u8>) -> BufferView {
        BufferView {
            storage,
            offset: self.offset,
            pos: self.pos,
            limit: self.limit,
            mark: self.mark,
            order: self.order,
        }
    }

    /// What every slice satisfies: position, limit and mark lie in the storage
    /// as they do in a valid buffer.
    pub open spec fn wf(self) -> bool {
        &&& self.len <= usize::MAX
        &&& self.offset <= self.pos < self.len
        &&& self.offset <= self.limit < self.len
        &&& (self.mark matches Some(m) ==> self.offset <= m <= self.pos)
    }
}

/// A fresh buffer over `storage`: position at the start, limit at its last
/// byte, no mark, big endian.
pub open spec fn fresh_view(storage: Seq<u8>) -> BufferView {
    BufferView {
        storage,
        offset: 0,
        pos: 0,
        limit: (storage.len() - 1) as nat,
        mark: None,
        order: BO::BigEndian,
    }
}

/// A byte buffer with a position, an inclusive limit, an optional mark and a
/// byte order.
pub struct ByteBuffer {
    buf: Vec<u8>,
    pos: usize,
    limit: usize,
    mark: Option<usize>,
    offset: usize,
    byte_order: BO,
}

impl View for ByteBuffer {
    type V = BufferView;

    closed spec fn view(&self) -> BufferView {
        BufferView {
            storage: self.buf@,
            offset: self.offset as nat,
            pos: self.pos as nat,
            limit: self.limit as nat,
            mark: match self.mark {
                Some(m) => Some(m as nat),
                None => None,
            },
            order: self.byte_order,
        }
    }
}

impl ByteBuffer {
    #[verifier::type_invariant]
    spec fn inv(self) -> bool {
        self@.wf()
    }

    /// A buffer of `capacity` zero bytes, position 0, limit `capacity - 1`,
    /// no mark, big endian.
    pub fn allocate(capacity: usize) -> (r: ByteBuffer)
        requires
            capacity >= 1,
        ensures
            r@ == fresh_view(Seq::new(capacity as nat, |i: int| 0u8)),
            r@.wf(),
    {
        let mut buf: Vec<u8> = Vec::with_capacity(capacity);
        while buf.len() < capacity
            invariant
                buf.len() <= capacity,
                forall|i: int| 0 <= i < buf.len() ==> buf@[i] == 0u8,
            decreases capacity - buf.len(),
        {
            buf.push(0);
        }
        assert(buf@ =~= Seq::new(capacity as nat, |i: int| 0u8));
        ByteBuffer {
            buf,
            pos: 0,
            limit: capacity - 1,
            mark: None,
            offset: 0,
            byte_order: BO::BigEndian,
        }
    }

    /// The mark, counted from the buffer's start, if one is set.
    pub fn get_mark(&self) -> (r: Option<usize>)
        ensures
            self@.wf(),
            r matches Some(m) ==> self@.mark_position() == Some(m as int),
            r is None ==> self@.mark is None,
    {
        proof { use_type_invariant(self); }
        match self.mark {
            Some(m) => Some(m - self.offset),
            None => None,
        }
    }
}

/// The cursor operations of a buffer, stated over its abstract state.
pub trait Buffer: Sized + View<V = BufferView> {
    /// The number of bytes from the buffer's start to the end of its storage.
    fn cap(&self) -> (r: usize)
        ensures
            self@.wf(),
            r == self@.capacity(),
    ;

    /// The position, counted from the buffer's start.
    fn get_pos(&self) -> (r: usize)
        ensures
            self@.wf(),
            r == self@.position(),
    ;

    /// Moves the position to `newpos` when it does not lie beyond the limit,
    /// dropping a mark that lies beyond it; otherwise changes nothing and fails.
    fn set_pos(&mut self, newpos: usize) -> (r: Result<&mut Self, &str>)
        ensures
            old(self)@.wf(),
            newpos <= old(self)@.lim() ==> (r matches Ok(s) && s@.wf() && s@ == old(self)@.moved_to(
                newpos as nat,
            ) && *final(self) == *final(s)),
            newpos > old(self)@.lim() ==> (r is Err && *final(self) == *old(self)),
    ;

    /// The limit, counted from the buffer's start.
    fn get_lim(&self) -> (r: usize)
        ensures
            self@.wf(),
            r == self@.lim(),
    ;

    /// Moves the limit to `newlim` when it lies before the capacity, dropping a
    /// mark that lies beyond it; otherwise changes nothing and fails.
    fn set_lim(&mut self, newlim: usize) -> (r: Result<&mut Self, &str>)
        ensures
            old(self)@.wf(),
            newlim < old(self)@.capacity() ==> (r matches Ok(s) && s@.wf() && s@ == old(
                self,
            )@.limited_to(newlim as nat) && *final(self) == *final(s)),
            newlim >= old(self)@.capacity() ==> (r is Err && *final(self) == *old(self)),
    ;

    /// Sets the mark at the position.
    fn mark(&mut self) -> (r: &mut Self)
        ensures
            old(self)@.wf(),
            r@.wf(),
            r@ == old(self)@.marked(),
            *final(self) == *final(r),
    ;

    /// Moves the position back to the mark; fails, changing nothing, when no
    /// mark is set.
    fn reset(&mut self) -> (r: Result<&mut Self, &str>)
        ensures
            old(self)@.wf(),
            old(self)@.mark is Some ==> (r matches Ok(s) && s@.wf() && s@ == old(
                self,
            )@.reset_to_mark() && *final(self) == *final(s)),
            old(self)@.mark is None ==> (r is Err && *final(self) == *old(self)),
    ;

    /// Position 0, limit at the last byte, no mark; the bytes stay.
    fn clear(&mut self) -> (r: &mut Self)
        ensures
            old(self)@.wf(),
            r@.wf(),
            r@ == old(self)@.cleared(),
            *final(self) == *final(r),
    ;

    /// Limit at the position, position 0, no mark.
    fn flip(&mut self) -> (r: &mut Self)
        ensures
            old(self)@.wf(),
            r@.wf(),
            r@ == old(self)@.flipped(),
            *final(self) == *final(r),
    ;

    /// Position 0, no mark.
    fn rewind(&mut self) -> (r: &mut Self)
        ensures
            old(self)@.wf(),
            r@.wf(),
            r@ == old(self)@.rewound(),
            *final(self) == *final(r),
    ;

    /// The number of bytes from the position up to the limit, both included.
    fn remaining(&self) -> (r: usize)
        requires
            self@.pos <= self@.limit,
        ensures
            self@.wf(),
            r == self@.remaining(),
    ;

    /// Whether the position lies before the limit.
    fn has_remaining(&self) -> (r: bool)
        ensures
            self@.wf(),
            r == (self@.pos < self@.limit),
    ;

    /// The position before the call, which then moves on by one; fails,
    /// changing nothing, when the position is at or past the limit.
    fn next_index(&mut self) -> (r: Result<usize, &str>)
        ensures
            old(self)@.wf(),
            old(self)@.pos < old(self)@.limit ==> (r == Ok::<usize, &str>(
                old(self)@.position() as usize,
            ) && final(self)@ == old(self)@.stepped() && final(self)@.wf()),
            old(self)@.pos >= old(self)@.limit ==> (r is Err && *final(self) == *old(self)),
    ;

    /// The byte order.
    fn get_order(&self) -> (r: BO)
        ensures
            self@.wf(),
            r == self@.order,
    ;

    /// Sets the byte order.
    fn set_order(&mut self, bo: BO) -> (r: &mut Self)
        ensures
            old(self)@.wf(),
            r@.wf(),
            r@ == old(self)@.ordered(bo),
            *final(self) == *final(r),
    ;
}

impl Buffer for ByteBuffer {
    fn cap(&self) -> (r: usize) {
        proof { use_type_invariant(self); }
        self.buf.len() - self.offset
    }

    fn get_pos(&self) -> (r: usize) {
        proof { use_type_invariant(self); }
        self.pos - self.offset
    }

    fn set_pos(&mut self, newpos: usize) -> (r: Result<&mut Self, &str>)
        ensures
            newpos > old(self)@.lim() ==> (r matches Err(e) && e@
                == "The new position is beyond the limit!!"@),
    {
        proof { use_type_invariant(&*self); }
        if newpos > self.limit - self.offset {
            return Err("The new position is beyond the limit!!");
        }
        let newabs = newpos + self.offset;
        match self.mark {
            None => {},
            Some(mark) => {
                if mark > newabs {
                    self.mark = None;
                }
            },
        }
        self.pos = newabs;
        Ok(self)
    }

    fn get_lim(&self) -> (r: usize) {
        proof { use_type_invariant(self); }
        self.limit - self.offset
    }

    fn set_lim(&mut self, newlim: usize) -> (r: Result<&mut Self, &str>)
        ensures
            newlim >= old(self)@.capacity() ==> (r matches Err(e) && e@
                == "You cannot set the limit beyond the buffer capacity!!"@),
    {
        proof { use_type_invariant(&*self); }
        if newlim >= self.cap() {
            return Err("You cannot set the limit beyond the buffer capacity!!");
        }
        self.limit = newlim + self.offset;
        match self.mark {
            None => {},
            Some(mark) => {
                if mark > self.limit {
                    self.mark = None;
                }
            },
        }
        Ok(self)
    }

    fn mark(&mut self) -> (r: &mut Self) {
        proof { use_type_invariant(&*self); }
        self.mark = Some(self.pos);
        self
    }

    fn reset(&mut self) -> (r: Result<&mut Self, &str>)
        ensures
            old(self)@.mark is None ==> (r matches Err(e) && e@ == "Mark has not been set yet."@),
    {
        proof { use_type_invariant(&*self); }
        match self.mark {
            None => return Err("Mark has not been set yet."),
            Some(mark) => self.pos = mark,
        }
        Ok(self)
    }

    // This method does not erase the bytes in the buffer.
    fn clear(&mut self) -> (r: &mut Self) {
        proof { use_type_invariant(&*self); }
        let _ = self.set_pos(0);
        let cap = self.cap();
        let _ = self.set_lim(cap - 1);
        self.mark = None;
        self
    }

    fn flip(&mut self) -> (r: &mut Self) {
        proof { use_type_invariant(&*self); }
        self.limit = self.pos;
        let _ = self.set_pos(0);
        self.mark = None;
        self
    }

    fn rewind(&mut self) -> (r: &mut Self) {
        proof { use_type_invariant(&*self); }
        let _ = self.set_pos(0);
        self.mark = None;
        self
    }

    fn remaining(&self) -> (r: usize) {
        proof { use_type_invariant(self); }
        self.get_lim() - self.get_pos() + 1
    }

    fn has_remaining(&self) -> (r: bool) {
        proof { use_type_invariant(self); }
        self.get_pos() < self.get_lim()
    }

    // The index returned is the position before the call.
    fn next_index(&mut self) -> (r: Result<usize, &str>)
        ensures
            old(self)@.pos >= old(self)@.limit ==> (r matches Err(e) && e@
                == "The current position is the limit!!"@),
    {
        proof { use_type_invariant(&*self); }
        let pos = self.get_pos();
        if pos >= self.get_lim() {
            return Err("The current position is the limit!!");
        }
        let _ = self.set_pos(pos + 1);
        Ok(pos)
    }

    fn get_order(&self) -> (r: BO) {
        proof { use_type_invariant(self); }
        self.byte_order.clone()
    }

    fn set_order(&mut self, bo: BO) -> (r: &mut Self) {
        proof { use_type_invariant(&*self); }
        self.byte_order = bo;
        self
    }
}

impl ByteBuffer {
    /// A buffer holding a copy of `bytes`: position 0, limit at the last byte,
    /// no mark, big endian.
    pub fn wrap(bytes: &[u8]) -> (r: ByteBuffer)
        requires
            bytes@.len() >= 1,
        ensures
            r@ == fresh_view(bytes@),
            r@.wf(),
    {
        let mut bb = ByteBuffer::allocate(bytes.len());
        let mut cnt: usize = 0;
        while cnt < bytes.len()
            invariant
                cnt <= bytes@.len(),
                bb@.storage.len() == bytes@.len(),
                bb@.storage.subrange(0, cnt as int) == bytes@.subrange(0, cnt as int),
                bb@ == fresh_view(bb@.storage),
            decreases bytes@.len() - cnt,
        {
            bb.buf[cnt] = bytes[cnt];
            assert(bb@.storage.subrange(0, cnt + 1) =~= bytes@.subrange(0, cnt + 1));
            cnt += 1;
        }
        assert(bb@.storage =~= bytes@.subrange(0, bytes@.len() as int));
        assert(bytes@.subrange(0, bytes@.len() as int) =~= bytes@);
        bb
    }

    /// Writes `byte` at the position and moves the position on by one, unless
    /// it is at or past the limit.
    pub fn put(&mut self, byte: u8) -> (r: &mut Self)
        ensures
            old(self)@.wf(),
            r@.wf(),
            r@ == old(self)@.written(seq![byte]).stepped(),
            *final(self) == *final(r),
    {
        proof { use_type_invariant(&*self); }
        let index = match self.next_index() {
            Err(_) => self.pos,
            Ok(pos) => pos + self.offset,
        };
        self.buf[index] = byte;
        proof {
            assert(self@.storage =~= overwrite(old(self)@.storage, old(self)@.pos as int, seq![byte]));
        }
        self
    }

    /// Writes `bytes` from the position on when they fit before the limit
    /// (the limit included), and moves the position on by their number, but no
    /// further than the limit; otherwise changes nothing and fails.
    pub fn put_bytes(&mut self, bytes: &[u8]) -> (r: Result<&mut Self, &str>)
        requires
            old(self)@.pos <= old(self)@.limit,
        ensures
            old(self)@.wf(),
            bytes@.len() <= old(self)@.remaining() ==> (r matches Ok(s) && s@.wf() && s@ == old(self)@.written(
                bytes@,
            ).advanced(bytes@.len()) && *final(self) == *final(s)),
            bytes@.len() > old(self)@.remaining() ==> (r matches Err(e)
                && e@ == "You can't write bytes beyond the limit!!"@ && *final(self) == *old(self)),
    {
        proof { use_type_invariant(&*self); }
        if bytes.len() > self.remaining() {
            return Err("You can't write bytes beyond the limit!!");
        }
        let ghost start = old(self)@;
        assert(overwrite(start.storage, start.pos as int, bytes@.subrange(0, 0)) =~= start.storage);
        let mut i: usize = 0;
        while i < bytes.len()
            invariant
                start.wf(),
                start.pos <= start.limit,
                bytes@.len() <= start.remaining(),
                i <= bytes@.len(),
                self@ == start.written(bytes@.subrange(0, i as int)).advanced(i as nat),
            decreases bytes@.len() - i,
        {
            let ghost before = self@;
            self.put(bytes[i]);
            proof {
                let pre = bytes@.subrange(0, i as int);
                let post = bytes@.subrange(0, i + 1);
                assert(before.pos == start.pos + i);
                assert(overwrite(before.storage, before.pos as int, seq![bytes@[i as int]]) =~= overwrite(
                    start.storage,
                    start.pos as int,
                    post,
                ));
            }
            i += 1;
        }
        assert(bytes@.subrange(0, bytes@.len() as int) =~= bytes@);
        Ok(self)
    }

    /// Reads the byte at the position and moves the position on by one, unless
    /// it is at or past the limit.
    pub fn get(&mut self) -> (r: u8)
        ensures
            old(self)@.wf(),
            r == old(self)@.storage[old(self)@.pos as int],
            final(self)@ == old(self)@.stepped(),
            final(self)@.wf(),
    {
        proof { use_type_invariant(&*self); }
        let index = match self.next_index() {
            Err(_) => self.pos,
            Ok(pos) => pos + self.offset,
        };
        self.buf[index]
    }

    /// A slice of this buffer: a cursor into this buffer's storage that starts
    /// at the position. Its position is 0, its limit is this limit less the
    /// position, it has no mark and it has this byte order. The slice holds no
    /// bytes: its reads and writes go to the storage of the buffer handed to
    /// them, so bytes written through the slice are read through this buffer
    /// at the matching position, and the other way round.
    pub fn slice(&self) -> (r: Slice)
        requires
            self@.pos <= self@.limit,
        ensures
            self@.wf(),
            r@ == self@.sliced().cursor(),
            r@.wf(),
    {
        proof { use_type_invariant(self); }
        let pos = self.get_pos();
        let lim = self.get_lim();
        let off = pos + self.offset;
        Slice {
            len: self.buf.len(),
            pos: off,
            limit: lim + self.offset,
            mark: None,
            offset: off,
            byte_order: self.get_order(),
        }
    }

    /// Exchanges this buffer's cursor with the cursor of `s`, which must be a
    /// cursor into a storage of the same length. While the slice's cursor is
    /// in, every operation of this buffer runs as that slice on this storage.
    pub fn swap_cursor(&mut self, s: &mut Slice)
        requires
            old(s)@.len == old(self)@.storage.len(),
        ensures
            old(self)@.wf(),
            old(s)@.wf(),
            final(self)@ == old(s)@.over(old(self)@.storage),
            final(s)@ == old(self)@.cursor(),
            final(self)@.wf(),
            final(s)@.wf(),
    {
        proof {
            use_type_invariant(&*self);
            use_type_invariant(&*s);
        }
        let (bp, bl, bm, bo, border) = (self.pos, self.limit, self.mark, self.offset, self.byte_order);
        let (sp, sl, sm, so, sorder) = (s.pos, s.limit, s.mark, s.offset, s.byte_order);
        self.mark = None;
        self.offset = 0;
        self.pos = sp;
        self.limit = sl;
        self.offset = so;
        self.mark = sm;
        self.byte_order = sorder;
        s.mark = None;
        s.offset = 0;
        s.pos = bp;
        s.limit = bl;
        s.offset = bo;
        s.mark = bm;
        s.byte_order = border;
    }

    /// Reads `len` bytes from the position on when they lie before the limit
    /// (the limit included), and moves the position on by `len`, but no
    /// further than the limit; otherwise changes nothing and fails.
    pub fn get_bytes(&mut self, len: usize) -> (r: Result<&[u8], &str>)
        requires
            old(self)@.pos <= old(self)@.limit,
        ensures
            old(self)@.wf(),
            len <= old(self)@.remaining() ==> (r matches Ok(s) && s@ == old(self)@.bytes_at(len as nat)
                && final(self)@ == old(self)@.advanced(len as nat) && final(self)@.wf()),
            len > old(self)@.remaining() ==> (r matches Err(e)
                && e@ == "The remaining buffer size is shorter than one you specified!"@ && *final(self) == *old(self)),
    {
        proof { use_type_invariant(&*self); }
        if len > self.remaining() {
            return Err("The remaining buffer size is shorter than one you specified!");
        }
        let start = self.pos;
        let ghost first = old(self)@;
        let mut i: usize = 0;
        while i < len
            invariant
                first.wf(),
                first.pos <= first.limit,
                len <= first.remaining(),
                start == first.pos,
                i <= len,
                self@ == first.advanced(i as nat),
            decreases len - i,
        {
            let _ = self.next_index();
            i += 1;
        }
        Ok(slice_subrange(self.buf.as_slice(), start, start + len))
    }

    /// A copy of the first `cap()` bytes of the storage, counted from the start
    /// of the storage (not from the offset).
    pub fn vector(&self) -> (r: Option<Vec<u8>>)
        ensures
            self@.wf(),
            r matches Some(v) && v@ == self@.storage.subrange(0, self@.capacity()),
    {
        proof { use_type_invariant(self); }
        let n = self.cap();
        let mut result: Vec<u8> = Vec::with_capacity(n);
        let mut i: usize = 0;
        while i < n
            invariant
                n == self@.capacity(),
                self@.wf(),
                i <= n,
                result@ == self@.storage.subrange(0, i as int),
            decreases n - i,
        {
            result.push(self.buf[i]);
            assert(result@ =~= self@.storage.subrange(0, i + 1));
            i += 1;
        }
        Some(result)
    }
}

/// A slice of a `ByteBuffer`: a position, an inclusive limit, an optional mark
/// and a byte order over the storage of the buffer it was made from, which it
/// does not hold. Reads and writes through it take that buffer as an argument.
pub struct Slice {
    len: usize,
    pos: usize,
    limit: usize,
    mark: Option<usize>,
    offset: usize,
    byte_order: BO,
}

impl View for Slice {
    type V = SliceView;

    closed spec fn view(&self) -> SliceView {
        SliceView {
            len: self.len as nat,
            offset: self.offset as nat,
            pos: self.pos as nat,
            limit: self.limit as nat,
            mark: match self.mark {
                Some(m) => Some(m as nat),
                None => None,
            },
            order: self.byte_order,
        }
    }
}

impl Slice {
    #[verifier::type_invariant]
    spec fn inv(self) -> bool {
        self@.wf()
    }

    /// The number of bytes from the slice's start to the end of the storage.
    pub fn cap(&self) -> (r: usize)
        ensures
            self@.wf(),
            r == self@.len - self@.offset,
    {
        proof { use_type_invariant(self); }
        self.len - self.offset
    }

    /// The position, counted from the slice's start.
    pub fn get_pos(&self) -> (r: usize)
        ensures
            self@.wf(),
            r == self@.pos - self@.offset,
    {
        proof { use_type_invariant(self); }
        self.pos - self.offset
    }

    /// The limit, counted from the slice's start.
    pub fn get_lim(&self) -> (r: usize)
        ensures
            self@.wf(),
            r == self@.limit - self@.offset,
    {
        proof { use_type_invariant(self); }
        self.limit - self.offset
    }

    /// The byte order.
    pub fn get_order(&self) -> (r: BO)
        ensures
            r == self@.order,
    {
        self.byte_order
    }

    /// Writes `byte` into `owner`'s storage at the slice's position, as
    /// `ByteBuffer::put` does with the slice's cursor; `owner` keeps its own
    /// cursor.
    pub fn put(&mut self, owner: &mut ByteBuffer, byte: u8) -> (r: &mut Self)
        requires
            old(self)@.len == old(owner)@.storage.len(),
        ensures
            ({
                let after = old(self)@.over(old(owner)@.storage).written(seq![byte]).stepped();
                &&& r@ == after.cursor()
                &&& final(owner)@ == old(owner)@.with_storage(after.storage)
            }),
            r@.wf(),
            final(owner)@.wf(),
            *final(self) == *final(r),
    {
        owner.swap_cursor(self);
        owner.put(byte);
        owner.swap_cursor(self);
        self
    }

    /// Reads the byte of `owner`'s storage at the slice's position, as
    /// `ByteBuffer::get` does with the slice's cursor.
    pub fn get(&mut self, owner: &mut ByteBuffer) -> (r: u8)
        requires
            old(self)@.len == old(owner)@.storage.len(),
        ensures
            ({
                let before = old(self)@.over(old(owner)@.storage);
                &&& r == before.storage[before.pos as int]
                &&& final(self)@ == before.stepped().cursor()
                &&& final(owner)@ == old(owner)@
            }),
            final(self)@.wf(),
    {
        owner.swap_cursor(self);
        let b = owner.get();
        owner.swap_cursor(self);
        b
    }

    /// Writes `bytes` into `owner`'s storage from the slice's position on, as
    /// `ByteBuffer::put_bytes` does with the slice's cursor.
    pub fn put_bytes(&mut self, owner: &mut ByteBuffer, bytes: &[u8]) -> (r: Result<&mut Self, &str>)
        requires
            old(self)@.len == old(owner)@.storage.len(),
            old(self)@.pos <= old(self)@.limit,
        ensures
            ({
                let before = old(self)@.over(old(owner)@.storage);
                let after = before.written(bytes@).advanced(bytes@.len());
                &&& bytes@.len() <= before.remaining() ==> (r matches Ok(s) && s@ == after.cursor()
                    && s@.wf() && final(owner)@ == old(owner)@.with_storage(after.storage)
                    && *final(self) == *final(s))
                &&& bytes@.len() > before.remaining() ==> (r is Err && *final(self) == *old(self)
                    && final(owner)@ == old(owner)@)
            }),
    {
        owner.swap_cursor(self);
        let ok = owner.put_bytes(bytes).is_ok();
        owner.swap_cursor(self);
        if ok {
            Ok(self)
        } else {
            Err("You can't write bytes beyond the limit!!")
        }
    }

    /// Reads `len` bytes of `owner`'s storage from the slice's position on, as
    /// `ByteBuffer::get_bytes` does with the slice's cursor.
    pub fn get_bytes(&mut self, owner: &mut ByteBuffer, len: usize) -> (r: Result<Vec<u8>, &str>)
        requires
            old(self)@.len == old(owner)@.storage.len(),
            old(self)@.pos <= old(self)@.limit,
        ensures
            ({
                let before = old(self)@.over(old(owner)@.storage);
                &&& len <= before.remaining() ==> (r matches Ok(v) && v@ == before.bytes_at(len as nat)
                    && final(self)@ == before.advanced(len as nat).cursor())
                &&& len > before.remaining() ==> (r is Err && final(self)@ == old(self)@)
                &&& final(owner)@ == old(owner)@
            }),
    {
        owner.swap_cursor(self);
        let r = match owner.get_bytes(len) {
            Ok(bytes) => Ok(slice_to_vec(bytes)),
            Err(_) => Err("The remaining buffer size is shorter than one you specified!"),
        };
        owner.swap_cursor(self);
        r
    }
}

} // verus!
