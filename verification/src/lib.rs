pub mod buffer;
pub mod encoding;
pub mod laws;
pub mod typed;
mod endian;

pub use buffer::{Buffer, BufferView, ByteBuffer, Slice, SliceView, BO};
