use byte_buffer::{Buffer, ByteBuffer, BO};

#[test]
fn test_buffer() {
    let mut buf = ByteBuffer::allocate(4);
    assert!(buf.cap() == 4);
    assert!(buf.get_pos() == 0);
    assert!(buf.set_pos(1).unwrap().get_pos() == 1);
    assert!(buf.get_lim() == 3);
    assert!(buf.set_lim(2).unwrap().get_lim() == 2);
    assert!(buf.set_lim(10).is_err());
    buf.mark();
    assert!(buf.get_mark() == Some(1));
    assert!(buf.set_pos(2).unwrap().reset().unwrap().get_pos() == 1);
    assert!(buf.clear().get_pos() == 0 && buf.get_mark().is_none() && buf.get_lim() == 3);
    assert!(
        buf.set_pos(2).unwrap().mark().flip().get_lim() == 2
            && buf.get_mark().is_none()
            && buf.get_pos() == 0
    );
    assert!(buf.rewind().get_pos() == 0 && buf.get_mark().is_none());
    assert!(buf.remaining() == 3);
    assert!(buf.has_remaining());
    assert!(
        buf.next_index().unwrap() == 0
            && buf.has_remaining()
            && buf.remaining() == 2
            && buf.get_pos() == 1
    );
    assert!(
        buf.next_index().unwrap() == 1
            && !buf.has_remaining()
            && buf.remaining() == 1
            && buf.get_pos() == 2
            && buf.get_lim() == 2
    );
    assert!(buf.next_index().is_err());
    assert!(buf.get_order() == BO::BigEndian);
    assert!(buf.set_order(BO::LittleEndian).get_order() == BO::LittleEndian);
}

#[test]
fn test_bytebuffer() {
    let rawbuf = [3u8; 4];
    let mut bb = ByteBuffer::wrap(&rawbuf);
    assert!(bb.get() == 3);
    assert!(bb.get() == 3);
    assert!(bb.get() == 3);
    assert!(bb.get() == 3);
    assert!(bb.get() == 3);
    assert!(bb.get_pos() == bb.get_lim());
    assert!(bb.put(4).get() == 4);
    assert!(bb.get_pos() == bb.get_lim());
    assert!(bb.put(5).get() == 5);
    let newbyte = [7u8; 4];
    assert!(bb.put_bytes(&newbyte).is_err());

    bb.clear();
    assert!(bb.put_bytes(&newbyte).is_ok());
    assert!(bb.get_pos() == bb.get_lim());
    bb.clear();
    assert!(bb.get() == 7);
    assert!(bb.get() == 7);
    assert!(bb.get() == 7);
    assert!(bb.get() == 7);
    bb.clear();
    let mut bbslice = bb.slice();
    bbslice.put(&mut bb, 1);
    assert!(bb.get() == 1);
    bbslice.put(&mut bb, 1);
    assert!(bb.get() == 1);
    bbslice.put(&mut bb, 1);
    bbslice.put(&mut bb, 1);
    bb.clear();
    for i in bb.get_bytes(4).unwrap().iter() {
        assert!(*i == 1);
    }
    assert!(bb.get_bytes(10).is_err());
    bb.clear();
    let v = bb.vector().unwrap();
    for i in 0..bb.cap() {
        assert!(*v.get(i).unwrap() == bb.get());
    }
}

#[test]
fn test_get_and_put() {
    let mut bb = ByteBuffer::allocate(16);
    bb.put_u16(10).unwrap().clear();
    assert!(bb.get_u16().unwrap() == 10);
    bb.clear();
    bb.put_u32(70).unwrap().clear();
    assert!(bb.get_u32().unwrap() == 70);
    bb.clear();
    bb.put_u64(7000).unwrap().clear();
    assert!(bb.get_u64().unwrap() == 7000);
    bb.clear();
    bb.put_i16(999).unwrap().clear();
    assert!(bb.get_i16().unwrap() == 999);
    bb.clear();
    bb.put_i32(77).unwrap().clear();
    assert!(bb.get_i32().unwrap() == 77);
    bb.clear();
    bb.put_i64(66666).unwrap().clear();
    assert!(bb.get_i64().unwrap() == 66666);
    bb.clear();
    // A float goes through the buffer as the integer of its bits, as
    // byteorder's write_f32 and read_f32 do.
    bb.put_u32(77.777f32.to_bits()).unwrap().clear();
    assert!(f32::from_bits(bb.get_u32().unwrap()) == 77.777);
    bb.clear();
    bb.put_u64(66666.6666f64.to_bits()).unwrap().clear();
    assert!(f64::from_bits(bb.get_u64().unwrap()) == 66666.6666);
}

#[test]
fn test_vec() {
    {
        let tsize = std::mem::size_of::<u16>();
        let mut bb = ByteBuffer::allocate(tsize * 3);
        bb.put_u16(15).unwrap().put_u16(15).unwrap().put_u16(15).unwrap().clear();
        let mut v = bb.as_u16_vec().unwrap();
        let mut it = v.iter_mut();
        assert!(*it.next().unwrap() == 15);
        assert!(*it.next().unwrap() == 15);
        assert!(*it.next().unwrap() == 15);
    }
    {
        let tsize = std::mem::size_of::<u32>();
        let mut bb = ByteBuffer::allocate(tsize * 3);
        bb.put_u32(151).unwrap().put_u32(151).unwrap().put_u32(151).unwrap().clear();
        let mut v = bb.as_u32_vec().unwrap();
        let mut it = v.iter_mut();
        assert!(*it.next().unwrap() == 151);
        assert!(*it.next().unwrap() == 151);
        assert!(*it.next().unwrap() == 151);
    }
    {
        let tsize = std::mem::size_of::<u64>();
        let mut bb = ByteBuffer::allocate(tsize * 3);
        bb.put_u64(7777777).unwrap().put_u64(7777777).unwrap().put_u64(7777777).unwrap().clear();
        let mut v = bb.as_u64_vec().unwrap();
        let mut it = v.iter_mut();
        assert!(*it.next().unwrap() == 7777777);
        assert!(*it.next().unwrap() == 7777777);
        assert!(*it.next().unwrap() == 7777777);
    }
    {
        let tsize = std::mem::size_of::<i16>();
        let mut bb = ByteBuffer::allocate(tsize * 3);
        bb.put_i16(15).unwrap().put_i16(15).unwrap().put_i16(15).unwrap().clear();
        let mut v = bb.as_i16_vec().unwrap();
        let mut it = v.iter_mut();
        assert!(*it.next().unwrap() == 15);
        assert!(*it.next().unwrap() == 15);
        assert!(*it.next().unwrap() == 15);
    }
    {
        let tsize = std::mem::size_of::<i32>();
        let mut bb = ByteBuffer::allocate(tsize * 3);
        bb.put_i32(666).unwrap().put_i32(666).unwrap().put_i32(666).unwrap().clear();
        let mut v = bb.as_i32_vec().unwrap();
        let mut it = v.iter_mut();
        assert!(*it.next().unwrap() == 666);
        assert!(*it.next().unwrap() == 666);
        assert!(*it.next().unwrap() == 666);
    }
    {
        let tsize = std::mem::size_of::<i64>();
        let mut bb = ByteBuffer::allocate(tsize * 3);
        bb.put_i64(9999999).unwrap().put_i64(9999999).unwrap().put_i64(9999999).unwrap().clear();
        let mut v = bb.as_i64_vec().unwrap();
        let mut it = v.iter_mut();
        assert!(*it.next().unwrap() == 9999999);
        assert!(*it.next().unwrap() == 9999999);
        assert!(*it.next().unwrap() == 9999999);
    }
    {
        let y = 666.666f32;
        let tsize = std::mem::size_of::<f32>();
        let mut bb = ByteBuffer::allocate(tsize * 3);
        bb.put_u32(y.to_bits()).unwrap().put_u32(y.to_bits()).unwrap().put_u32(y.to_bits()).unwrap().clear();
        let mut v = bb.as_u32_vec().unwrap();
        let mut it = v.iter_mut();
        assert!(f32::from_bits(*it.next().unwrap()) == y);
        assert!(f32::from_bits(*it.next().unwrap()) == y);
        assert!(f32::from_bits(*it.next().unwrap()) == y);
    }
    {
        let y = 9999999.999999f64;
        let tsize = std::mem::size_of::<f64>();
        let mut bb = ByteBuffer::allocate(tsize * 3);
        bb.put_u64(y.to_bits()).unwrap().put_u64(y.to_bits()).unwrap().put_u64(y.to_bits()).unwrap().clear();
        let mut v = bb.as_u64_vec().unwrap();
        let mut it = v.iter_mut();
        assert!(f64::from_bits(*it.next().unwrap()) == y);
        assert!(f64::from_bits(*it.next().unwrap()) == y);
        assert!(f64::from_bits(*it.next().unwrap()) == y);
    }
}
