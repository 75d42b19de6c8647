# byte_buffer

A byte buffer with a cursor, verified with Verus: a fixed storage of bytes, a
position, an inclusive limit, an optional mark and a byte order in which
16-, 32- and 64-bit integers are read and written.

- `src/buffer.rs`: `ByteBuffer`, its abstract state `BufferView`, the `Buffer`
  trait of cursor operations, and the byte-level reads and writes.
  `slice()` gives a `Slice`, a cursor into the buffer's own storage starting
  at the position: its reads and writes take the buffer as an argument
  (`s.put(&mut bb, 1)`), so bytes written through the slice are read through
  the buffer and the other way round.
- `src/typed.rs`: the integer reads and writes (`get_u16`, `put_i32`,
  `as_u64_vec`, ...), which encode and decode through `byteorder`.
- `src/endian.rs`: the trusted calls into `byteorder`.
- `src/encoding.rs`: big- and little-endian encodings as mathematics.
- `src/laws.rs`: properties of the operations taken together, such as reading
  back what was written.
- `app/lib.rs`: the `f32`/`f64` forms, which the verified library cannot hold.
