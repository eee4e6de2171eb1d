//! Fixed-layout byte records and length-prefixed messages.
//!
//! A record is a byte buffer read as fields at caller-chosen offsets. Writes
//! that run past the end of a buffer are truncated at its boundary; decoding
//! bytes into text fails with an error instead of faulting.
pub mod byte_array;
pub mod codec;
pub mod message;
pub mod record;
pub mod render;

pub use byte_array::ByteArray;
pub use codec::{
    i32_from_bytes, i32_to_bytes, str_from_bytes, str_to_bytes, usize_from_bytes, usize_to_bytes,
    LengthMismatch,
};
pub use message::{Message, MsgType, CONTENT_SIZE, MSG_SIZE, TYPE_SIZE};
pub use record::{clear, set_field, ByteRecord, BYTE_RECORD_SIZE};
pub use render::render_record;
