//! Byte-preserving output construction.

use vstd::prelude::*;
use vstd::string::StringSliceAdditionalSpecFns;
use vstd::utf8::encode_scalar;

verus! {

/// An append-only byte output buffer.
#[derive(Default, Debug, Clone, PartialEq, Eq)]
pub struct ByteBuffer(Vec<u8>);

impl View for ByteBuffer {
    type V = Seq<u8>;

    closed spec fn view(&self) -> Seq<u8> {
        self.0@
    }
}

impl ByteBuffer {
    /// An empty buffer.
    pub fn new() -> (out: Self)
        ensures
            out@ == Seq::<u8>::empty(),
    {
        ByteBuffer(Vec::new())
    }

    /// Append the given bytes.
    pub fn push_bytes(&mut self, value: &[u8])
        ensures
            final(self)@ == old(self)@ + value@,
    {
        self.0.extend_from_slice(value);
        proof {
            assert(self.0@ =~= old(self)@ + value@);
        }
    }

    /// Append the UTF-8 encoding of a character.
    pub fn push(&mut self, value: char)
        ensures
            final(self)@ == old(self)@ + encode_scalar(value as u32),
    {
        let v = value as u32;
        let ghost start = self.0@;
        if v <= 0x7F {
            self.0.push((v & 0x7F) as u8);
        } else if v <= 0x7FF {
            self.0.push(0xC0 | ((v >> 6) & 0x1F) as u8);
            self.0.push(0x80 | (v & 0x3F) as u8);
        } else if v <= 0xFFFF {
            self.0.push(0xE0 | ((v >> 12) & 0x0F) as u8);
            self.0.push(0x80 | ((v >> 6) & 0x3F) as u8);
            self.0.push(0x80 | (v & 0x3F) as u8);
        } else {
            self.0.push(0xF0 | ((v >> 18) & 0x7) as u8);
            self.0.push(0x80 | ((v >> 12) & 0x3F) as u8);
            self.0.push(0x80 | ((v >> 6) & 0x3F) as u8);
            self.0.push(0x80 | (v & 0x3F) as u8);
        }
        proof {
            assert(self.0@ =~= start + encode_scalar(v));
        }
    }

    /// Append the UTF-8 bytes of a string.
    pub fn push_str(&mut self, value: &str)
        ensures
            final(self)@ == old(self)@ + value.spec_bytes(),
    {
        self.push_bytes(value.as_bytes());
    }

    /// Append one byte.
    pub fn push_byte(&mut self, value: u8)
        ensures
            final(self)@ == old(self)@.push(value),
    {
        self.0.push(value);
    }

    /// Append `count` copies of `value`.
    pub fn push_repeated(&mut self, value: u8, count: usize)
        requires
            old(self)@.len() + count <= usize::MAX,
        ensures
            final(self)@ == old(self)@ + Seq::new(count as nat, |_i: int| value),
    {
        let len = self.0.len();
        if count > 0 {
            self.0.resize(len + count, value);
        }
        proof {
            assert(self.0@ =~= old(self)@ + Seq::new(count as nat, |_i: int| value));
        }
    }

    /// The number of bytes written so far.
    pub fn len(&self) -> (len: usize)
        ensures
            len == self@.len(),
    {
        self.0.len()
    }

    /// The bytes written so far.
    pub fn as_bytes(&self) -> (bytes: &[u8])
        ensures
            bytes@ == self@,
    {
        self.0.as_slice()
    }
}

} // verus!
