use byte_buffer::{Buffer, ByteBuffer, BO};

#[test]
fn get_bytes_and_vector() {
    let mut bb = ByteBuffer::wrap(&[1u8, 2, 3, 4]);
    assert!(bb.get_bytes(10).is_err());
    assert!(bb.get_pos() == 0);
    assert_eq!(bb.get_bytes(3).unwrap(), &[1u8, 2, 3][..]);
    assert!(bb.get_pos() == 3);
    assert!(bb.get_bytes(2).is_err());
    assert_eq!(bb.get_bytes(1).unwrap(), &[4u8][..]);
    assert!(bb.get_pos() == 3);
    bb.clear();
    let v = bb.vector().unwrap();
    assert_eq!(v, vec![1u8, 2, 3, 4]);
    for i in 0..bb.cap() {
        assert!(*v.get(i).unwrap() == bb.get());
    }
}

#[test]
fn slice_starts_at_position() {
    let mut bb = ByteBuffer::wrap(&[10u8, 11, 12, 13, 14]);
    bb.set_pos(2).unwrap();
    let mut s = bb.slice();
    assert!(s.get_pos() == 0);
    assert!(s.get_lim() == 2);
    assert!(s.cap() == 3);
    assert!(s.get_order() == BO::BigEndian);
    assert!(s.get(&mut bb) == 12);
    assert!(s.get(&mut bb) == 13);
    assert!(s.get(&mut bb) == 14);
    assert!(s.get_pos() == 2);
    assert!(bb.get_pos() == 2);
}

#[test]
fn big_and_little_endian_bytes() {
    let mut bb = ByteBuffer::allocate(4);
    bb.put_u16(0x0102).unwrap();
    assert_eq!(bb.vector().unwrap(), vec![1u8, 2, 0, 0]);
    bb.clear();
    bb.set_order(BO::LittleEndian).put_u16(0x0102).unwrap();
    assert_eq!(bb.vector().unwrap(), vec![2u8, 1, 0, 0]);
    let mut rd = ByteBuffer::wrap(&[1u8, 2, 3, 4]);
    assert!(rd.get_u32().unwrap() == 0x01020304);
    rd.clear();
    rd.set_order(BO::LittleEndian);
    assert!(rd.get_u32().unwrap() == 0x04030201);
}

#[test]
fn negative_integers_two_complement() {
    let mut bb = ByteBuffer::allocate(8);
    bb.put_i16(-2).unwrap();
    assert_eq!(bb.vector().unwrap(), vec![0xffu8, 0xfe, 0, 0, 0, 0, 0, 0]);
    bb.clear();
    assert!(bb.get_i16().unwrap() == -2);
    bb.clear();
    bb.set_order(BO::LittleEndian);
    bb.put_i32(-1_000_000).unwrap().clear();
    assert!(bb.get_i32().unwrap() == -1_000_000);
    bb.clear();
    bb.put_i64(i64::MIN).unwrap().clear();
    assert!(bb.get_i64().unwrap() == i64::MIN);
    bb.clear();
    bb.put_u64(u64::MAX).unwrap().clear();
    assert!(bb.get_u64().unwrap() == u64::MAX);
}

#[test]
fn errors_when_too_few_bytes_remain() {
    let mut bb = ByteBuffer::allocate(4);
    assert!(bb.set_pos(4).is_err());
    assert!(bb.set_lim(4).is_err());
    assert!(bb.reset().is_err());
    bb.set_pos(3).unwrap();
    assert!(bb.next_index().is_err());
    assert!(bb.get_u16().is_none());
    assert!(bb.get_pos() == 3);
    assert!(bb.put_u32(1).is_err());
    assert!(bb.as_u16_vec().is_none());
    assert!(bb.get_pos() == 3);
    assert!(bb.put_bytes(&[1u8, 2]).is_err());
}

#[test]
fn vec_reads_whole_groups_only() {
    let mut bb = ByteBuffer::wrap(&[0u8, 1, 0, 2, 0, 3, 9]);
    let v = bb.as_u16_vec().unwrap();
    assert_eq!(v, vec![1u16, 2, 3]);
    assert!(bb.get_pos() == 6);
}

#[test]
fn mark_reset_and_dropped_mark() {
    let mut bb = ByteBuffer::allocate(8);
    bb.set_pos(2).unwrap().mark();
    bb.set_pos(5).unwrap().reset().unwrap();
    assert!(bb.get_pos() == 2);
    bb.set_pos(1).unwrap();
    assert!(bb.get_mark().is_none());
    assert!(bb.reset().is_err());
    bb.set_pos(6).unwrap().mark();
    bb.set_lim(4).unwrap();
    assert!(bb.get_mark().is_none());
}

#[test]
fn clear_keeps_bytes_and_opens_capacity() {
    let mut bb = ByteBuffer::wrap(&[5u8, 6, 7]);
    bb.set_lim(1).unwrap().set_pos(1).unwrap().mark();
    bb.clear();
    assert!(bb.get_pos() == 0 && bb.get_lim() == 2 && bb.get_mark().is_none());
    assert!(bb.remaining() == bb.cap());
    assert_eq!(bb.vector().unwrap(), vec![5u8, 6, 7]);
}

#[test]
fn flip_limits_to_written_part() {
    let mut bb = ByteBuffer::allocate(8);
    bb.put(1).put(2).put(3);
    bb.flip();
    assert!(bb.get_lim() == 3 && bb.get_pos() == 0 && bb.get_mark().is_none());
    assert!(bb.get() == 1 && bb.get() == 2 && bb.get() == 3);
}

#[test]
fn has_remaining_and_remaining() {
    let mut bb = ByteBuffer::allocate(3);
    assert!(bb.has_remaining() && bb.remaining() == 3);
    bb.set_pos(2).unwrap();
    assert!(!bb.has_remaining() && bb.remaining() == 1);
}

#[test]
fn order_roundtrip_and_reads_after_limit_moved_below_position() {
    let mut bb = ByteBuffer::wrap(&[1u8, 2, 3, 4]);
    assert!(bb.set_order(BO::LittleEndian).get_order() == BO::LittleEndian);
    assert!(bb.set_order(BO::BigEndian).get_order() == BO::BigEndian);
    bb.set_pos(3).unwrap();
    bb.set_lim(1).unwrap();
    assert!(bb.get() == 4);
    assert!(bb.get_pos() == 3);
    assert!(!bb.has_remaining());
}

#[test]
fn put_bytes_then_get_bytes_roundtrip() {
    let mut bb = ByteBuffer::allocate(6);
    bb.set_pos(1).unwrap();
    bb.put_bytes(&[9u8, 8, 7]).unwrap();
    assert!(bb.get_pos() == 4);
    bb.set_pos(1).unwrap();
    assert_eq!(bb.get_bytes(3).unwrap(), &[9u8, 8, 7][..]);
}

#[test]
fn slice_shares_storage_both_ways() {
    let mut bb = ByteBuffer::wrap(&[0u8; 6]);
    bb.set_pos(2).unwrap();
    let mut s = bb.slice();
    s.put_bytes(&mut bb, &[5u8, 6]).unwrap();
    assert!(bb.get() == 5 && bb.get() == 6);
    bb.put(9);
    assert!(s.get_pos() == 2);
    assert!(s.get(&mut bb) == 9);
    bb.set_pos(2).unwrap();
    let mut t = bb.slice();
    assert!(t.get_bytes(&mut bb, 5).is_err());
    assert_eq!(t.get_bytes(&mut bb, 3).unwrap(), vec![5u8, 6, 9]);
    assert!(t.put_bytes(&mut bb, &[1u8, 2]).is_err());
    assert_eq!(bb.vector().unwrap(), vec![0u8, 0, 5, 6, 9, 0]);
}

#[test]
fn swap_cursor_runs_buffer_operations_on_slice() {
    let mut bb = ByteBuffer::wrap(&[1u8, 2, 3, 4, 5, 6]);
    bb.set_pos(2).unwrap();
    let mut s = bb.slice();
    bb.swap_cursor(&mut s);
    assert!(bb.get_pos() == 0 && bb.get_lim() == 3 && bb.cap() == 4);
    bb.put_u16(0x0a0b).unwrap();
    bb.swap_cursor(&mut s);
    assert!(bb.get_pos() == 2 && s.get_pos() == 2);
    assert_eq!(bb.vector().unwrap(), vec![1u8, 2, 0x0a, 0x0b, 5, 6]);
}
