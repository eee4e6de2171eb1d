//! Fixed-size records: caller-owned 32-byte buffers and the operations on them.
use vstd::prelude::*;

verus! {

/// The size in bytes of a fixed record.
pub const BYTE_RECORD_SIZE: usize = 32;

/// A caller-owned fixed-size record.
pub type ByteRecord = [u8; BYTE_RECORD_SIZE];

/// A buffer of `n` zero bytes.
pub open spec fn zeros(n: nat) -> Seq<u8> {
    Seq::new(n, |i: int| 0u8)
}

/// `buf` after a truncating write of `data` at `offset`: each byte of `data`
/// whose destination lies inside `buf` is copied there, the others are
/// dropped, and every other byte of `buf` is kept.
pub open spec fn write_field(buf: Seq<u8>, offset: int, data: Seq<u8>) -> Seq<u8> {
    Seq::new(
        buf.len(),
        |i: int|
            if offset <= i < offset + data.len() {
                data[i - offset]
            } else {
                buf[i]
            },
    )
}

/// How many bytes of `data` a write at `offset` into a buffer of `len` bytes keeps.
pub open spec fn kept_len(len: int, offset: int, data_len: int) -> int {
    if offset >= len {
        0
    } else if offset + data_len <= len {
        data_len
    } else {
        len - offset
    }
}

/// Sets every byte of `br` to zero.
pub fn clear(br: &mut ByteRecord)
    ensures
        final(br)@ == zeros(BYTE_RECORD_SIZE as nat),
{
    let mut i: usize = 0;
    while i < BYTE_RECORD_SIZE
        invariant
            0 <= i <= BYTE_RECORD_SIZE,
            br@.len() == BYTE_RECORD_SIZE,
            forall|j: int| 0 <= j < i ==> br@[j] == 0u8,
        decreases BYTE_RECORD_SIZE - i,
    {
        br[i] = 0;
        i += 1;
    }
    assert(br@ =~= zeros(BYTE_RECORD_SIZE as nat));
}

/// Copies `buff` into `br` from `offset` on; bytes that would land past the
/// end of `br` are dropped.
pub fn set_field(br: &mut ByteRecord, offset: usize, buff: &[u8])
    ensures
        final(br)@ == write_field(old(br)@, offset as int, buff@),
{
    let ghost start = br@;
    let mut i: usize = 0;
    while i < buff.len()
        invariant
            0 <= i <= buff@.len(),
            br@.len() == BYTE_RECORD_SIZE,
            forall|j: int|
                0 <= j < BYTE_RECORD_SIZE ==> br@[j] == (if offset <= j < offset + i {
                    buff@[j - offset]
                } else {
                    start[j]
                }),
        decreases buff@.len() - i,
    {
        if offset < BYTE_RECORD_SIZE && i < BYTE_RECORD_SIZE - offset {
            br[i + offset] = buff[i];
        }
        i += 1;
    }
    assert(br@ =~= write_field(start, offset as int, buff@));
}

/// A truncating write keeps exactly the bytes of `data` that fit: the first
/// `kept_len` bytes of `data` land from `offset` on, every byte of `buf`
/// outside them is untouched, and the size of `buf` does not change.
pub proof fn lemma_truncating_write(buf: Seq<u8>, offset: int, data: Seq<u8>)
    requires
        0 <= offset,
    ensures
        write_field(buf, offset, data).len() == buf.len(),
        offset >= buf.len() ==> write_field(buf, offset, data) == buf,
        offset < buf.len() ==> write_field(buf, offset, data).subrange(
            offset,
            offset + kept_len(buf.len() as int, offset, data.len() as int),
        ) == data.subrange(0, kept_len(buf.len() as int, offset, data.len() as int)),
        forall|i: int|
            0 <= i < buf.len() && !(offset <= i < offset + kept_len(
                buf.len() as int,
                offset,
                data.len() as int,
            )) ==> #[trigger] write_field(buf, offset, data)[i] == buf[i],
{
    let k = kept_len(buf.len() as int, offset, data.len() as int);
    if offset >= buf.len() {
        assert(write_field(buf, offset, data) =~= buf);
    } else {
        assert(write_field(buf, offset, data).subrange(offset, offset + k) =~= data.subrange(0, k));
    }
}

} // verus!
