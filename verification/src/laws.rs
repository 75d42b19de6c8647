//! Properties of the buffer operations taken together, stated over the
//! abstract states that the operations' contracts speak of.
use vstd::prelude::*;
use crate::buffer::{fresh_view, BufferView, BO};
use crate::encoding::{
    lemma_encode_decode, lemma_pow256_values, lemma_signed_unsigned, pow256, signed_of, unsigned_of,
};
use crate::typed::{chunk, decode, encode};
use crate::encoding::{
    lemma_be_decode_encode, lemma_be_reverses_le, lemma_le_decode_encode, lemma_le_digit,
    lemma_pow256_pos,
};
use vstd::arithmetic::div_mod::lemma_small_mod;

verus! {

/// Bytes written with `put_bytes` are read back by `get_bytes` once the
/// position is set back to where the writing started.
pub proof fn law_put_bytes_then_get_bytes(v: BufferView, bytes: Seq<u8>)
    requires
        v.wf(),
        v.pos <= v.limit,
        bytes.len() <= v.remaining(),
    ensures
        ({
            let after = v.written(bytes).advanced(bytes.len());
            let back = after.moved_to(v.position() as nat);
            &&& after.wf()
            &&& v.position() <= after.lim()
            &&& back.wf()
            &&& back.pos <= back.limit
            &&& bytes.len() <= back.remaining()
            &&& back.bytes_at(bytes.len()) == bytes
        }),
{
    let after = v.written(bytes).advanced(bytes.len());
    let back = after.moved_to(v.position() as nat);
    assert(back.bytes_at(bytes.len()) =~= bytes);
}

/// An integer written with a `put_*` method is read back by the matching
/// `get_*` method once the position is set back to where the writing started,
/// or, when the writing started at position 0, after `clear`.
pub proof fn law_put_then_get_int(v: BufferView, n: nat, width: nat)
    requires
        v.wf(),
        v.pos <= v.limit,
        width <= v.remaining(),
        n < pow256(width),
    ensures
        ({
            let after = v.written(encode(n, width, v.order)).advanced(width);
            let back = after.moved_to(v.position() as nat);
            &&& back.wf()
            &&& back.pos <= back.limit
            &&& width <= back.remaining()
            &&& decode(back.bytes_at(width), back.order) == n
            &&& v.position() == 0 ==> {
                &&& after.cleared().wf()
                &&& width <= after.cleared().remaining()
                &&& decode(after.cleared().bytes_at(width), after.cleared().order) == n
            }
        }),
{
    lemma_encode_decode(n, width);
    lemma_small_mod(n, pow256(width));
    let bytes = encode(n, width, v.order);
    law_put_bytes_then_get_bytes(v, bytes);
    let after = v.written(bytes).advanced(width);
    if v.position() == 0 {
        assert(after.cleared().bytes_at(width) =~= after.moved_to(0).bytes_at(width));
    }
}

/// A signed integer written with a `put_i*` method is read back by the
/// matching `get_i*` method once the position is set back to where the writing
/// started.
pub proof fn law_put_then_get_signed(v: BufferView, x: int, width: nat)
    requires
        v.wf(),
        v.pos <= v.limit,
        width <= v.remaining(),
        -(pow256(width) as int) <= 2 * x < pow256(width),
    ensures
        ({
            let after = v.written(encode(unsigned_of(x, width), width, v.order)).advanced(width);
            let back = after.moved_to(v.position() as nat);
            &&& back.wf()
            &&& width <= back.remaining()
            &&& signed_of(decode(back.bytes_at(width), back.order), width) == x
        }),
{
    lemma_signed_unsigned(x, width);
    law_put_then_get_int(v, unsigned_of(x, width), width);
}

/// Every value of each integer type that the buffer reads and writes lies in
/// the range of its width, so the laws above apply to all of them.
pub proof fn law_integer_types_fit_their_width(a: u16, b: u32, c: u64, x: i16, y: i32, z: i64)
    ensures
        a < pow256(2),
        b < pow256(4),
        c < pow256(8),
        -(pow256(2) as int) <= 2 * x < pow256(2),
        -(pow256(4) as int) <= 2 * y < pow256(4),
        -(pow256(8) as int) <= 2 * z < pow256(8),
{
    lemma_pow256_values();
}

/// Decoding gives back what encoding was given, for every value of the width,
/// in either byte order, and an encoding is `width` bytes long.
pub proof fn law_decode_encode(n: nat, width: nat, order: BO)
    requires
        n < pow256(width),
    ensures
        encode(n, width, order).len() == width,
        decode(encode(n, width, order), order) == n,
{
    lemma_encode_decode(n, width);
    lemma_small_mod(n, pow256(width));
}

/// A signed integer written as its two's complement is read back as itself.
pub proof fn law_signed_roundtrip(x: int, width: nat, order: BO)
    requires
        -(pow256(width) as int) <= 2 * x < pow256(width),
    ensures
        signed_of(decode(encode(unsigned_of(x, width), width, order), order), width) == x,
{
    lemma_signed_unsigned(x, width);
    law_decode_encode(unsigned_of(x, width), width, order);
}

/// A byte written with `put` is read back by `get` once the position is set
/// back to where it was written.
pub proof fn law_put_then_get_byte(v: BufferView, b: u8)
    requires
        v.wf(),
    ensures
        ({
            let after = v.written(seq![b]).stepped();
            let back = after.moved_to(v.position() as nat);
            &&& v.position() <= after.lim() ==> back.wf()
            &&& back.storage[back.pos as int] == b
        }),
{
}

/// The operations that only move the position, the limit or the mark, or set
/// the byte order, keep every byte of the storage and keep a buffer valid.
pub proof fn law_cursor_operations_keep_bytes(v: BufferView, p: nat, l: nat, n: nat, order: BO)
    requires
        v.wf(),
    ensures
        p <= v.lim() ==> v.moved_to(p).storage == v.storage && v.moved_to(p).wf(),
        l < v.capacity() ==> v.limited_to(l).storage == v.storage && v.limited_to(l).wf(),
        v.marked().storage == v.storage && v.marked().wf(),
        v.mark is Some ==> v.reset_to_mark().storage == v.storage && v.reset_to_mark().wf(),
        v.cleared().storage == v.storage && v.cleared().wf(),
        v.flipped().storage == v.storage && v.flipped().wf(),
        v.rewound().storage == v.storage && v.rewound().wf(),
        v.stepped().storage == v.storage && v.stepped().wf(),
        v.pos <= v.limit ==> v.advanced(n).storage == v.storage && v.advanced(n).wf(),
        v.ordered(order).storage == v.storage && v.ordered(order).wf(),
{
}

/// Writing keeps the length of the storage and every byte outside the part
/// written, and keeps a buffer valid.
pub proof fn law_write_keeps_other_bytes(v: BufferView, bytes: Seq<u8>, i: int)
    requires
        v.wf(),
        v.pos + bytes.len() <= v.storage.len(),
        0 <= i < v.storage.len(),
        !(v.pos <= i < v.pos + bytes.len()),
    ensures
        v.written(bytes).wf(),
        v.written(bytes).storage.len() == v.storage.len(),
        v.written(bytes).storage[i] == v.storage[i],
{
}

/// After `mark`, moving the position forward (up to the limit) and calling
/// `reset` brings the position back to where the mark was set.
pub proof fn law_mark_then_reset(v: BufferView, q: nat)
    requires
        v.wf(),
        v.position() <= q <= v.lim(),
    ensures
        v.marked().moved_to(q).mark is Some,
        v.marked().moved_to(q).reset_to_mark() == v.marked(),
{
}

/// Moving the position back before the mark drops the mark, after which
/// `reset` fails.
pub proof fn law_move_before_mark_drops_it(v: BufferView, q: nat)
    requires
        v.wf(),
        q < v.position(),
    ensures
        v.marked().moved_to(q).mark is None,
{
}

/// After `clear` the whole capacity is open again: position 0, limit at the
/// last byte, no mark; the bytes are not erased.
pub proof fn law_clear_opens_whole_capacity(v: BufferView)
    requires
        v.wf(),
    ensures
        v.cleared().position() == 0,
        v.cleared().lim() == v.capacity() - 1,
        v.cleared().remaining() == v.capacity(),
        v.cleared().mark is None,
        v.cleared().storage == v.storage,
        v.cleared().order == v.order,
{
}

/// After `flip` the limit stands where the position was and the position is 0.
pub proof fn law_flip_limits_to_position(v: BufferView)
    requires
        v.wf(),
    ensures
        v.flipped().lim() == v.position(),
        v.flipped().position() == 0,
        v.flipped().mark is None,
{
}

/// `has_remaining` holds exactly when more than one byte remains by
/// `remaining`: a position at the limit still has one byte to it.
pub proof fn law_has_remaining_vs_remaining(v: BufferView)
    requires
        v.wf(),
        v.pos <= v.limit,
    ensures
        (v.pos < v.limit) <==> v.remaining() > 1,
        v.remaining() >= 1,
{
}

/// The byte order read back is the one last set.
pub proof fn law_order_roundtrip(v: BufferView, order: BO)
    ensures
        v.ordered(order).order == order,
        v.ordered(order).position() == v.position(),
        v.ordered(order).lim() == v.lim(),
        v.ordered(order).mark == v.mark,
        v.ordered(order).storage == v.storage,
        v.ordered(order).ordered(v.order) == v,
{
}

/// A slice's cursor taken out of a buffer state and put back over the same
/// storage gives that state again, and a slice's cursor put over a storage of
/// its length and taken out again is unchanged: `swap_cursor` loses nothing.
pub proof fn law_cursor_roundtrip(v: BufferView, c: crate::buffer::SliceView, storage: Seq<u8>)
    requires
        c.len == storage.len(),
    ensures
        v.cursor().over(v.storage) == v,
        c.over(storage).cursor() == c,
        c.over(storage).storage == storage,
        v.cursor().len == v.storage.len(),
        c.wf() <==> c.over(storage).wf(),
{
}

/// A buffer made by `wrap` holds the wrapped bytes over its whole capacity,
/// so `vector` gives them back.
pub proof fn law_wrap_then_vector(bytes: Seq<u8>)
    requires
        1 <= bytes.len() <= usize::MAX,
    ensures
        fresh_view(bytes).wf(),
        fresh_view(bytes).capacity() == bytes.len(),
        fresh_view(bytes).storage.subrange(0, fresh_view(bytes).capacity()) == bytes,
{
    assert(bytes.subrange(0, bytes.len() as int) =~= bytes);
}

/// A slice starts at position 0 over the bytes from the position of the buffer
/// it was made from; its limit and capacity are counted from there.
pub proof fn law_slice_starts_at_position(v: BufferView)
    requires
        v.wf(),
        v.pos <= v.limit,
    ensures
        v.sliced().wf(),
        v.sliced().position() == 0,
        v.sliced().lim() == v.lim() - v.position(),
        v.sliced().capacity() == v.capacity() - v.position(),
        v.sliced().storage.skip(v.sliced().offset as int) == v.storage.skip(v.pos as int),
        v.sliced().order == v.order,
        v.sliced().mark is None,
{
}

/// Bytes written through a slice at slice position `i` are read back through
/// the buffer it was made from at position `p + i`, where `p` was that
/// buffer's position when the slice was made. The buffer keeps its cursor.
pub proof fn law_slice_write_seen_by_parent(v: BufferView, i: nat, bytes: Seq<u8>)
    requires
        v.wf(),
        v.pos <= v.limit,
        i <= v.sliced().lim(),
        bytes.len() <= v.sliced().moved_to(i).remaining(),
    ensures
        ({
            let w = v.sliced().moved_to(i).written(bytes).advanced(bytes.len());
            let parent = v.with_storage(w.storage);
            let back = parent.moved_to((v.position() + i) as nat);
            &&& w.wf()
            &&& parent.wf()
            &&& back.wf()
            &&& back.pos <= back.limit
            &&& bytes.len() <= back.remaining()
            &&& back.bytes_at(bytes.len()) == bytes
        }),
{
    let w = v.sliced().moved_to(i).written(bytes).advanced(bytes.len());
    let back = v.with_storage(w.storage).moved_to((v.position() + i) as nat);
    assert(back.bytes_at(bytes.len()) =~= bytes);
}

/// Bytes written through a buffer at position `p + i` are read back through
/// a slice made at position `p` at slice position `i`.
pub proof fn law_parent_write_seen_by_slice(v: BufferView, i: nat, bytes: Seq<u8>)
    requires
        v.wf(),
        v.pos <= v.limit,
        i <= v.sliced().lim(),
        bytes.len() <= v.sliced().moved_to(i).remaining(),
    ensures
        ({
            let w = v.moved_to((v.position() + i) as nat).written(bytes).advanced(bytes.len());
            let seen = v.sliced().with_storage(w.storage).moved_to(i);
            &&& w.wf()
            &&& seen.wf()
            &&& bytes.len() <= seen.remaining()
            &&& seen.bytes_at(bytes.len()) == bytes
        }),
{
    let w = v.moved_to((v.position() + i) as nat).written(bytes).advanced(bytes.len());
    let seen = v.sliced().with_storage(w.storage).moved_to(i);
    assert(seen.bytes_at(bytes.len()) =~= bytes);
}

/// The operations of a buffer, each as its contract describes it, a failing
/// call leaving the state as it was.
pub enum BufferOp {
    SetPos(nat),
    SetLim(nat),
    Mark,
    Reset,
    Clear,
    Flip,
    Rewind,
    NextIndex,
    SetOrder(BO),
    Put(u8),
    Get,
    PutBytes(Seq<u8>),
    GetBytes(nat),
}

/// The state after `op`.
pub open spec fn apply_op(v: BufferView, op: BufferOp) -> BufferView {
    match op {
        BufferOp::SetPos(n) => if n <= v.lim() { v.moved_to(n) } else { v },
        BufferOp::SetLim(n) => if n < v.capacity() { v.limited_to(n) } else { v },
        BufferOp::Mark => v.marked(),
        BufferOp::Reset => if v.mark is Some { v.reset_to_mark() } else { v },
        BufferOp::Clear => v.cleared(),
        BufferOp::Flip => v.flipped(),
        BufferOp::Rewind => v.rewound(),
        BufferOp::NextIndex => v.stepped(),
        BufferOp::SetOrder(o) => v.ordered(o),
        BufferOp::Put(b) => v.written(seq![b]).stepped(),
        BufferOp::Get => v.stepped(),
        BufferOp::PutBytes(bytes) => if v.pos <= v.limit && bytes.len() <= v.remaining() {
            v.written(bytes).advanced(bytes.len())
        } else {
            v
        },
        BufferOp::GetBytes(n) => if v.pos <= v.limit && n <= v.remaining() {
            v.advanced(n)
        } else {
            v
        },
    }
}

/// The state after the operations `ops`, in order.
pub open spec fn apply_ops(v: BufferView, ops: Seq<BufferOp>) -> BufferView
    decreases ops.len(),
{
    if ops.len() == 0 {
        v
    } else {
        apply_ops(apply_op(v, ops[0]), ops.drop_first())
    }
}

/// `op` is one that keeps a mark set at storage index `m` of a buffer with
/// offset `offset`: it moves the position or the limit to no point before the
/// mark, or moves only forward, or only sets the byte order.
pub open spec fn keeps_mark_at(op: BufferOp, m: nat, offset: nat) -> bool {
    match op {
        BufferOp::SetPos(n) => n + offset >= m,
        BufferOp::SetLim(n) => n + offset >= m,
        BufferOp::NextIndex => true,
        BufferOp::SetOrder(_) => true,
        BufferOp::Put(_) => true,
        BufferOp::Get => true,
        BufferOp::PutBytes(_) => true,
        BufferOp::GetBytes(_) => true,
        _ => false,
    }
}

proof fn lemma_op_keeps_shape(v: BufferView, op: BufferOp)
    requires
        v.wf(),
    ensures
        apply_op(v, op).wf(),
        apply_op(v, op).offset == v.offset,
        apply_op(v, op).storage.len() == v.storage.len(),
        keeps_mark_at(op, v.mark->0, v.offset) && v.mark is Some ==> apply_op(v, op).mark
            == v.mark,
{
}

/// Every sequence of operations keeps a buffer valid and keeps its capacity,
/// so `cap()` gives the same value before and after them.
pub proof fn law_operations_keep_capacity(v: BufferView, ops: Seq<BufferOp>)
    requires
        v.wf(),
    ensures
        apply_ops(v, ops).wf(),
        apply_ops(v, ops).capacity() == v.capacity(),
        apply_ops(v, ops).offset == v.offset,
        apply_ops(v, ops).storage.len() == v.storage.len(),
    decreases ops.len(),
{
    if ops.len() > 0 {
        lemma_op_keeps_shape(v, ops[0]);
        law_operations_keep_capacity(apply_op(v, ops[0]), ops.drop_first());
    }
}

/// A mark stays where it was set through any sequence of operations that keep
/// it (see `keeps_mark_at`), so `reset` afterwards succeeds and brings the
/// position back to the mark.
pub proof fn law_mark_kept_until_reset(v: BufferView, ops: Seq<BufferOp>)
    requires
        v.wf(),
        v.mark is Some,
        forall|k: int| 0 <= k < ops.len() ==> keeps_mark_at(#[trigger] ops[k], v.mark->0, v.offset),
    ensures
        apply_ops(v, ops).wf(),
        apply_ops(v, ops).mark == v.mark,
        apply_op(apply_ops(v, ops), BufferOp::Reset).position() == v.mark->0 - v.offset,
        apply_op(apply_ops(v, ops), BufferOp::Reset).mark == v.mark,
    decreases ops.len(),
{
    if ops.len() > 0 {
        assert(keeps_mark_at(ops[0], v.mark->0, v.offset));
        lemma_op_keeps_shape(v, ops[0]);
        let rest = ops.drop_first();
        assert forall|k: int| 0 <= k < rest.len() implies keeps_mark_at(
            #[trigger] rest[k],
            v.mark->0,
            v.offset,
        ) by {
            assert(rest[k] == ops[k + 1]);
        }
        law_mark_kept_until_reset(apply_op(v, ops[0]), rest);
    }
}

/// In little-endian order byte `k` of an integer's encoding is its `k`-th
/// base-256 digit, least significant first; in big-endian order byte `k` is
/// the digit of weight `256^(width - 1 - k)`, most significant first. This
/// holds at every width, 2, 4 and 8 bytes alike.
pub proof fn law_encoding_digits(n: nat, width: nat, k: nat)
    requires
        k < width,
    ensures
        encode(n, width, BO::LittleEndian).len() == width,
        encode(n, width, BO::BigEndian).len() == width,
        encode(n, width, BO::LittleEndian)[k as int] == (n / pow256(k)) % 256,
        encode(n, width, BO::BigEndian)[k as int] == (n / pow256((width - 1 - k) as nat)) % 256,
{
    lemma_encode_decode(n, width);
    lemma_le_digit(n, width, k);
    lemma_be_reverses_le(n, width, k);
    lemma_le_digit(n, width, (width - 1 - k) as nat);
}

/// Reading `bytes` as an integer gives the one number below `256^len` whose
/// encoding, in the same byte order, is `bytes`: reads and writes agree on
/// the byte order at every width.
pub proof fn law_decode_reads_encoding(bytes: Seq<u8>, order: BO)
    ensures
        decode(bytes, order) < pow256(bytes.len()),
        encode(decode(bytes, order), bytes.len(), order) == bytes,
{
    lemma_be_decode_encode(bytes);
    lemma_le_decode_encode(bytes);
}

/// Element `i` of what an `as_*_vec` call reads is what a `get_*` call of the
/// same width reads after `i` such calls: the integers come in storage order
/// from the position on.
pub proof fn law_vec_element_is_next_read(v: BufferView, width: nat, i: int)
    requires
        v.wf(),
        v.pos <= v.limit,
        width > 0,
        0 <= i < v.remaining() / (width as int),
    ensures
        ({
            let count = v.remaining() / (width as int);
            let at = v.advanced((width * i) as nat);
            &&& at.wf()
            &&& at.pos <= at.limit
            &&& at.pos == v.pos + width * i
            &&& width <= at.remaining()
            &&& chunk(v.bytes_at((width * count) as nat), i, width) == at.bytes_at(width)
        }),
{
    let r = v.remaining();
    let w = width as int;
    let count = r / w;
    assert(w * i + w <= w * count && w * count <= r && 0 <= w * i && i * w == w * i)
        by (nonlinear_arith)
        requires
            0 <= i < count,
            count == r / w,
            w > 0,
            r >= 0,
    ;
    let at = v.advanced((width * i) as nat);
    assert(chunk(v.bytes_at((width * count) as nat), i, width) =~= at.bytes_at(width));
}

/// `set_pos(n)`, when `n` does not pass the limit, puts the position at `n`;
/// the limit, bytes and byte order stay, and a mark stays exactly when it does
/// not lie beyond `n`.
pub proof fn law_set_pos_moves_position(v: BufferView, n: nat)
    requires
        v.wf(),
        n <= v.lim(),
    ensures
        v.moved_to(n).wf(),
        v.moved_to(n).position() == n,
        v.moved_to(n).lim() == v.lim(),
        v.moved_to(n).capacity() == v.capacity(),
        v.moved_to(n).storage == v.storage,
        v.moved_to(n).order == v.order,
        v.mark_position() matches Some(m) ==> (m <= n ==> v.moved_to(n).mark_position() == Some(m)),
        v.mark_position() matches Some(m) ==> (m > n ==> v.moved_to(n).mark is None),
        v.mark is None ==> v.moved_to(n).mark is None,
{
}

/// `set_lim(n)`, when `n` lies before the capacity, puts the limit at `n`,
/// whatever the limit was; the position, bytes and byte order stay, and a mark
/// stays exactly when it does not lie beyond `n`. Of two calls the later wins.
pub proof fn law_set_lim_moves_limit(v: BufferView, n: nat, n2: nat)
    requires
        v.wf(),
        n < v.capacity(),
        n2 < v.capacity(),
    ensures
        v.limited_to(n).wf(),
        v.limited_to(n).lim() == n,
        v.limited_to(n).position() == v.position(),
        v.limited_to(n).capacity() == v.capacity(),
        v.limited_to(n).storage == v.storage,
        v.limited_to(n).order == v.order,
        v.mark_position() matches Some(m) ==> (m <= n ==> v.limited_to(n).mark_position() == Some(m)),
        v.mark_position() matches Some(m) ==> (m > n ==> v.limited_to(n).mark is None),
        v.limited_to(n).limited_to(n2).lim() == n2,
{
}

/// `mark` records the position; `reset` brings the position back to the
/// recorded one. Neither moves the limit or changes a byte.
pub proof fn law_mark_and_reset(v: BufferView)
    requires
        v.wf(),
    ensures
        v.marked().mark_position() == Some(v.position()),
        v.marked().position() == v.position(),
        v.marked().lim() == v.lim(),
        v.marked().storage == v.storage,
        v.mark_position() matches Some(m) ==> v.reset_to_mark().position() == m
            && v.reset_to_mark().lim() == v.lim() && v.reset_to_mark().storage == v.storage
            && v.reset_to_mark().mark == v.mark,
{
}

/// `rewind` goes back to the start: the position is 0, so the next read is
/// the first byte of the buffer; the limit, bytes and byte order stay and the
/// mark is dropped. It is `set_pos(0)` followed by dropping the mark.
pub proof fn law_rewind_goes_to_start(v: BufferView)
    requires
        v.wf(),
    ensures
        v.rewound().wf(),
        v.rewound().position() == 0,
        v.rewound().lim() == v.lim(),
        v.rewound().capacity() == v.capacity(),
        v.rewound().storage == v.storage,
        v.rewound().order == v.order,
        v.rewound().mark is None,
        v.rewound().storage[v.rewound().pos as int] == v.storage[v.offset as int],
        v.rewound() == (BufferView { mark: None, ..v.moved_to(0) }),
{
}

/// `flip` keeps the bytes, the byte order and the capacity.
pub proof fn law_flip_keeps_bytes(v: BufferView)
    requires
        v.wf(),
    ensures
        v.flipped().wf(),
        v.flipped().storage == v.storage,
        v.flipped().order == v.order,
        v.flipped().capacity() == v.capacity(),
{
}

/// `get`, `put` and `next_index` move the position on by one while it lies
/// before the limit and leave it where it is otherwise.
pub proof fn law_step_moves_by_one(v: BufferView)
    requires
        v.wf(),
    ensures
        v.position() < v.lim() ==> v.stepped().position() == v.position() + 1,
        v.position() >= v.lim() ==> v.stepped().position() == v.position(),
        v.stepped().lim() == v.lim(),
        v.stepped().storage == v.storage,
        v.stepped().mark == v.mark,
{
}

/// A read or write of `n` bytes moves the position on by `n`, but no further
/// than the limit.
pub proof fn law_advance_stops_at_limit(v: BufferView, n: nat)
    requires
        v.wf(),
        v.pos <= v.limit,
    ensures
        v.position() + n <= v.lim() ==> v.advanced(n).position() == v.position() + n,
        v.position() + n > v.lim() ==> v.advanced(n).position() == v.lim(),
        v.advanced(n).lim() == v.lim(),
        v.advanced(n).storage == v.storage,
{
}

/// Writing puts byte `k` of `bytes` at storage index `pos + k`, and reading
/// `n` bytes gives the storage bytes from the position on, in order.
pub proof fn law_write_and_read_bytes_in_order(v: BufferView, bytes: Seq<u8>, n: nat, k: int)
    requires
        v.wf(),
        v.pos + bytes.len() <= v.storage.len(),
        v.pos + n <= v.storage.len(),
    ensures
        0 <= k < bytes.len() ==> v.written(bytes).storage[v.pos + k] == bytes[k],
        v.bytes_at(n).len() == n,
        0 <= k < n ==> v.bytes_at(n)[k] == v.storage[v.pos + k],
{
}

/// A buffer made by `allocate` or `wrap` spans its whole storage: position 0,
/// limit at the last byte, every byte remaining, no mark, big endian.
pub proof fn law_fresh_buffer_spans_storage(s: Seq<u8>)
    requires
        1 <= s.len() <= usize::MAX,
    ensures
        fresh_view(s).wf(),
        fresh_view(s).position() == 0,
        fresh_view(s).lim() == s.len() - 1,
        fresh_view(s).capacity() == s.len(),
        fresh_view(s).remaining() == s.len(),
        fresh_view(s).storage == s,
        fresh_view(s).mark is None,
        fresh_view(s).order == BO::BigEndian,
{
}

/// A signed integer is stored as its two's complement: a value at or above
/// zero as itself, a negative one as itself plus `256^width`; an unsigned
/// value read back is itself below half of `256^width` and itself less
/// `256^width` from there on.
pub proof fn law_twos_complement(x: int, u: nat, width: nat)
    requires
        -(pow256(width) as int) <= 2 * x < pow256(width),
        u < pow256(width),
    ensures
        x >= 0 ==> unsigned_of(x, width) == x,
        x < 0 ==> unsigned_of(x, width) == x + pow256(width),
        2 * u < pow256(width) ==> signed_of(u, width) == u,
        2 * u >= pow256(width) ==> signed_of(u, width) == u - pow256(width),
{
    lemma_signed_unsigned(x, width);
    lemma_pow256_pos(width);
    if x >= 0 {
        vstd::arithmetic::div_mod::lemma_fundamental_div_mod_converse(x, pow256(width) as int, 0, x);
    } else {
        vstd::arithmetic::div_mod::lemma_fundamental_div_mod_converse(
            x,
            pow256(width) as int,
            -1,
            x + pow256(width),
        );
    }
}

} // verus!
