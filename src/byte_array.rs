//! An owned fixed-size record on the heap.
use crate::codec::{str_from_bytes, str_to_bytes};
use crate::record::{write_field, zeros, BYTE_RECORD_SIZE};
use core::str::Utf8Error;
use vstd::prelude::*;
use vstd::utf8::{decode_utf8, encode_utf8, valid_utf8};

verus! {

/// An owned record of `BYTE_RECORD_SIZE` bytes, zero-filled when made.
pub struct ByteArray {
    br: Box<[u8; BYTE_RECORD_SIZE]>,
}

impl View for ByteArray {
    type V = Seq<u8>;

    closed spec fn view(&self) -> Seq<u8> {
        self.br@
    }
}

impl ByteArray {
    /// The record's bytes always number `BYTE_RECORD_SIZE`.
    pub proof fn lemma_len(&self)
        ensures
            self@.len() == BYTE_RECORD_SIZE,
    {
    }

    /// A record of zero bytes.
    pub fn new() -> (r: Self)
        ensures
            r@ == zeros(BYTE_RECORD_SIZE as nat),
    {
        let r = Self { br: Box::new([0;BYTE_RECORD_SIZE]) };
        assert(r@ =~= zeros(BYTE_RECORD_SIZE as nat));
        r
    }

    /// The record's size, which never changes.
    pub fn len(&self) -> (r: usize)
        ensures
            r == BYTE_RECORD_SIZE,
            r == self@.len(),
    {
        BYTE_RECORD_SIZE
    }

    /// A record always holds bytes.
    pub fn is_empty(&self) -> (r: bool)
        ensures
            r == (self@.len() == 0),
            !r,
    {
        false
    }

    /// The record's bytes.
    pub fn array(&self) -> (r: &[u8; BYTE_RECORD_SIZE])
        ensures
            r@ == self@,
    {
        &self.br
    }

    /// Sets every byte to zero.
    pub fn clear(&mut self)
        ensures
            final(self)@ == zeros(BYTE_RECORD_SIZE as nat),
    {
        let mut i: usize = 0;
        while i < BYTE_RECORD_SIZE
            invariant
                0 <= i <= BYTE_RECORD_SIZE,
                self@.len() == BYTE_RECORD_SIZE,
                forall|j: int| 0 <= j < i ==> self@[j] == 0u8,
            decreases BYTE_RECORD_SIZE - i,
        {
            self.br[i] = 0;
            i += 1;
        }
        assert(self@ =~= zeros(BYTE_RECORD_SIZE as nat));
    }

    /// Copies `buff` into the record from `offset` on; bytes that would land
    /// past its end are dropped.
    pub fn set_field(&mut self, offset: usize, buff: &[u8])
        ensures
            final(self)@ == write_field(old(self)@, offset as int, buff@),
    {
        let ghost start = self@;
        let mut i: usize = 0;
        while i < buff.len()
            invariant
                0 <= i <= buff@.len(),
                self@.len() == BYTE_RECORD_SIZE,
                start.len() == BYTE_RECORD_SIZE,
                forall|j: int|
                    0 <= j < BYTE_RECORD_SIZE ==> self@[j] == (if offset <= j < offset + i {
                        buff@[j - offset]
                    } else {
                        start[j]
                    }),
            decreases buff@.len() - i,
        {
            if offset < BYTE_RECORD_SIZE && i < BYTE_RECORD_SIZE - offset {
                self.br[i + offset] = buff[i];
            }
            i += 1;
        }
        assert(self@ =~= write_field(start, offset as int, buff@));
    }

    /// The `size` bytes from `offset` on.
    pub fn get_field(&self, offset: usize, size: usize) -> (r: &[u8])
        requires
            offset + size <= BYTE_RECORD_SIZE,
        ensures
            r@ == self@.subrange(offset as int, offset + size),
    {
        &self.br[offset..offset + size]
    }

    /// Writes the UTF-8 bytes of `s` from `offset` on, truncated at the end of
    /// the record.
    pub fn set_str(&mut self, offset: usize, s: &str)
        ensures
            final(self)@ == write_field(old(self)@, offset as int, encode_utf8(s@)),
    {
        let buff = str_to_bytes(s);
        self.set_field(offset, buff);
    }

    /// Reads the `size` bytes from `offset` on as UTF-8 text.
    pub fn get_str(&self, offset: usize, size: usize) -> (r: Result<&str, Utf8Error>)
        requires
            offset + size <= BYTE_RECORD_SIZE,
        ensures
            r is Ok <==> valid_utf8(self@.subrange(offset as int, offset + size)),
            r matches Ok(s) ==> s@ == decode_utf8(self@.subrange(offset as int, offset + size)),
    {
        str_from_bytes(&self.br[offset..offset + size])
    }
}

impl Default for ByteArray {
    fn default() -> (r: Self)
        ensures
            r@ == zeros(BYTE_RECORD_SIZE as nat),
    {
        Self::new()
    }
}

} // verus!
