//! Messages: a type tag, a big-endian content length and the content, in one
//! owned buffer.
use crate::codec::{
    lemma_str_codec_round_trip, lemma_u64_round_trip, str_from_bytes, str_to_bytes, u64_be,
    u64_of_be, usize_from_bytes, usize_to_bytes,
};
use crate::record::{write_field, zeros};
use core::str::Utf8Error;
use vstd::prelude::*;
use vstd::utf8::{decode_utf8, encode_utf8, valid_utf8};

verus! {

/// The size in bytes of the type tag, at offset 0.
pub const TYPE_SIZE: usize = 1;

/// The size in bytes of the content length, stored after the type tag.
pub const CONTENT_SIZE: usize = 8;

/// A customary total size for a message.
pub const MSG_SIZE: usize = 4096;

/// The kind of a message, stored as its tag byte.
#[allow(non_camel_case_types, clippy::upper_case_acronyms)]
#[derive(Debug, Clone, Copy, PartialEq, Eq, Structural)]
pub enum MsgType {
    DEFAULT,
    TEXT,
    REPLY,
    END,
    QUIT,
}

/// The tag byte of each kind of message.
pub open spec fn type_tag(t: MsgType) -> u8 {
    match t {
        MsgType::DEFAULT => 0,
        MsgType::TEXT => 1,
        MsgType::REPLY => 2,
        MsgType::END => 4,
        MsgType::QUIT => 8,
    }
}

impl MsgType {
    /// The tag byte that stands for this kind in a message.
    pub fn tag(&self) -> (r: u8)
        ensures
            r == type_tag(*self),
    {
        match self {
            MsgType::DEFAULT => 0,
            MsgType::TEXT => 1,
            MsgType::REPLY => 2,
            MsgType::END => 4,
            MsgType::QUIT => 8,
        }
    }
}

/// The offset at which the content starts.
pub open spec fn content_start() -> int {
    TYPE_SIZE + CONTENT_SIZE
}

/// The content length stored in the header of `m`.
pub open spec fn stored_content_size(m: Seq<u8>) -> u64
    recommends
        m.len() >= content_start(),
{
    u64_of_be(m.subrange(TYPE_SIZE as int, content_start()))
}

/// `m` with `n` written as its content length, truncated at the end of `m`.
pub open spec fn with_content_size(m: Seq<u8>, n: u64) -> Seq<u8> {
    write_field(m, TYPE_SIZE as int, u64_be(n))
}

/// `m` with its content length set to the length of `data` and `data`
/// written as its content, truncated at the end of `m`.
pub open spec fn with_content(m: Seq<u8>, data: Seq<u8>) -> Seq<u8> {
    write_field(with_content_size(m, data.len() as u64), content_start(), data)
}

/// The content of `m`, as long as its stored content length says.
pub open spec fn content_of(m: Seq<u8>) -> Seq<u8>
    recommends
        m.len() >= content_start(),
        content_start() + stored_content_size(m) <= m.len(),
{
    m.subrange(content_start(), content_start() + stored_content_size(m))
}

/// Whether `m` holds a header and all the content its header announces.
pub open spec fn content_fits(m: Seq<u8>) -> bool {
    m.len() >= content_start() && content_start() + stored_content_size(m) <= m.len()
}

/// A message in an owned buffer whose size is chosen when it is made.
#[derive(Debug)]
pub struct Message {
    br: Vec<u8>,
}

impl View for Message {
    type V = Seq<u8>;

    closed spec fn view(&self) -> Seq<u8> {
        self.br@
    }
}

impl Message {
    /// A message of `sz` zero bytes.
    pub fn new(sz: usize) -> (r: Self)
        ensures
            r@ == zeros(sz as nat),
    {
        let r = Self { br: vec![0; sz] };
        assert(r@ =~= zeros(sz as nat));
        r
    }

    /// Sets every byte to zero, keeping the size.
    pub fn init(&mut self)
        ensures
            final(self)@ == zeros(old(self)@.len()),
    {
        let sz = self.len();
        self.br = vec![0; sz];
        assert(self@ =~= zeros(sz as nat));
    }

    /// The size of the message's buffer.
    pub fn len(&self) -> (r: usize)
        ensures
            r == self@.len(),
    {
        self.br.len()
    }

    /// Whether the buffer has no bytes.
    pub fn is_empty(&self) -> (r: bool)
        ensures
            r == (self@.len() == 0),
    {
        self.br.len() == 0
    }

    /// Stores the tag of `t` at offset 0.
    pub fn set_type(&mut self, t: MsgType)
        requires
            old(self)@.len() >= TYPE_SIZE,
        ensures
            final(self)@ == old(self)@.update(0, type_tag(t)),
    {
        self.br.set(0, t.tag());
    }

    /// The tag byte at offset 0, whether or not it names a kind.
    pub fn get_type(&self) -> (r: u8)
        requires
            self@.len() >= TYPE_SIZE,
        ensures
            r == self@[0],
    {
        self.br[0]
    }

    /// Writes `buff` as the content and its length as the content length;
    /// content bytes past the end of the buffer are dropped.
    pub fn set_content_bytes(&mut self, buff: &[u8])
        ensures
            final(self)@ == with_content(old(self)@, buff@),
    {
        self.set_content_size(buff.len());
        self.set_field(TYPE_SIZE + CONTENT_SIZE, buff);
    }

    /// The content, as long as the stored content length says.
    pub fn get_content_bytes(&self) -> (r: &[u8])
        requires
            content_fits(self@),
        ensures
            r@ == content_of(self@),
    {
        let len = self.br.len();
        let sz = self.get_content_size();
        assert(TYPE_SIZE + CONTENT_SIZE + sz <= len);
        self.get_field(TYPE_SIZE + CONTENT_SIZE, sz)
    }

    /// Writes the UTF-8 bytes of `s` as the content and their number as the
    /// content length; bytes past the end of the buffer are dropped.
    pub fn set_content_str(&mut self, s: &str)
        ensures
            final(self)@ == with_content(old(self)@, encode_utf8(s@)),
    {
        let buff = str_to_bytes(s);
        self.set_content_size(buff.len());
        self.set_content_bytes(buff);
        assert(with_content(with_content_size(old(self)@, buff@.len() as u64), buff@) =~= with_content(
            old(self)@,
            buff@,
        ));
    }

    /// The content read as UTF-8 text.
    pub fn get_content_str(&self) -> (r: Result<&str, Utf8Error>)
        requires
            content_fits(self@),
        ensures
            r is Ok <==> valid_utf8(content_of(self@)),
            r matches Ok(s) ==> s@ == decode_utf8(content_of(self@)),
    {
        let len = self.br.len();
        let sz = self.get_content_size();
        let start = TYPE_SIZE + CONTENT_SIZE;
        assert(start + sz <= len);
        let end = start + sz;
        str_from_bytes(&self.br[start..end])
    }

    /// Copies `buff` into the buffer from `offset` on; bytes that would land
    /// past its end are dropped.
    pub fn set_field(&mut self, offset: usize, buff: &[u8])
        ensures
            final(self)@ == write_field(old(self)@, offset as int, buff@),
    {
        let ghost start = self@;
        let len = self.br.len();
        let mut i: usize = 0;
        while i < buff.len()
            invariant
                0 <= i <= buff@.len(),
                len == self@.len(),
                start.len() == len,
                forall|j: int|
                    0 <= j < len ==> self@[j] == (if offset <= j < offset + i {
                        buff@[j - offset]
                    } else {
                        start[j]
                    }),
            decreases buff@.len() - i,
        {
            if offset < len && i < len - offset {
                self.br.set(i + offset, buff[i]);
            }
            i += 1;
        }
        assert(self@ =~= write_field(start, offset as int, buff@));
    }

    /// The `size` bytes from `offset` on.
    pub fn get_field(&self, offset: usize, size: usize) -> (r: &[u8])
        requires
            offset + size <= self@.len(),
        ensures
            r@ == self@.subrange(offset as int, offset + size),
    {
        let len = self.br.len();
        assert(offset + size <= len);
        &self.br[offset..offset + size]
    }

    /// Writes `sz` as the content length, truncated at the end of the buffer.
    pub fn set_content_size(&mut self, sz: usize)
        ensures
            final(self)@ == with_content_size(old(self)@, sz as u64),
    {
        let bytes = usize_to_bytes(sz);
        self.set_field(TYPE_SIZE, &bytes);
    }

    /// The content length stored in the header.
    pub fn get_content_size(&self) -> (r: usize)
        requires
            self@.len() >= content_start(),
        ensures
            r == #[verifier::truncate] (stored_content_size(self@) as usize),
    {
        let b = self.get_field(TYPE_SIZE, CONTENT_SIZE);
        match usize_from_bytes(b) {
            Ok(n) => n,
            Err(_) => 0,
        }
    }

    /// Writes the UTF-8 bytes of `s` from `offset` on, truncated at the end of
    /// the buffer.
    pub fn set_str(&mut self, offset: usize, s: &str)
        ensures
            final(self)@ == write_field(old(self)@, offset as int, encode_utf8(s@)),
    {
        let buff = str_to_bytes(s);
        self.set_field(offset, buff);
    }

    /// Reads the `size` bytes from `offset` on as UTF-8 text.
    pub fn get_str(&self, offset: usize, size: usize) -> (r: Result<&str, Utf8Error>)
        requires
            offset + size <= self@.len(),
        ensures
            r is Ok <==> valid_utf8(self@.subrange(offset as int, offset + size)),
            r matches Ok(s) ==> s@ == decode_utf8(self@.subrange(offset as int, offset + size)),
    {
        let len = self.br.len();
        assert(offset + size <= len);
        str_from_bytes(&self.br[offset..offset + size])
    }

    /// The whole buffer.
    pub fn array(&self) -> (r: &[u8])
        ensures
            r@ == self@,
    {
        self.br.as_slice()
    }
}

impl Default for Message {
    fn default() -> (r: Self)
        ensures
            r@ == Seq::<u8>::empty(),
    {
        Self { br: Vec::new() }
    }
}

/// Content written into a buffer with room for it reads back unchanged: the
/// stored content length is the length of `data`, and the content is `data`.
pub proof fn lemma_content_round_trip(m: Seq<u8>, data: Seq<u8>)
    requires
        content_start() + data.len() <= m.len(),
        m.len() <= usize::MAX,
    ensures
        with_content(m, data).len() == m.len(),
        stored_content_size(with_content(m, data)) == data.len(),
        content_fits(with_content(m, data)),
        content_of(with_content(m, data)) == data,
{
    let n = data.len() as u64;
    let r = with_content(m, data);
    lemma_u64_round_trip(n);
    assert(r.subrange(TYPE_SIZE as int, content_start()) =~= u64_be(n));
    assert(content_of(r) =~= data);
}

/// Text written as content into a buffer with room for its UTF-8 bytes reads
/// back as the same text.
pub proof fn lemma_str_content_round_trip(m: Seq<u8>, s: Seq<char>)
    requires
        content_start() + encode_utf8(s).len() <= m.len(),
        m.len() <= usize::MAX,
    ensures
        content_fits(with_content(m, encode_utf8(s))),
        valid_utf8(content_of(with_content(m, encode_utf8(s)))),
        decode_utf8(content_of(with_content(m, encode_utf8(s)))) == s,
{
    lemma_content_round_trip(m, encode_utf8(s));
    lemma_str_codec_round_trip(s);
}

/// The type tag is apart from the rest: once set, it reads back as the tag of
/// `t`, and writing content afterwards leaves it as it is.
pub proof fn lemma_type_tag_isolation(m: Seq<u8>, t: MsgType, data: Seq<u8>)
    requires
        m.len() >= TYPE_SIZE,
    ensures
        m.update(0, type_tag(t))[0] == type_tag(t),
        with_content(m.update(0, type_tag(t)), data)[0] == type_tag(t),
{
}

} // verus!
