use vstd::prelude::*;
use vstd::string::StringSliceAdditionalSpecFns;

verus! {

/// Width of every string field on the wire.
pub const STRING_LEN: usize = 64;

/// Width of the byte-array field of a level chunk.
pub const BYTE_ARRAY_LEN: usize = 1024;

/// `b` cut or filled with `fill` to exactly `n` bytes.
pub open spec fn pad_to(b: Seq<u8>, n: nat, fill: u8) -> Seq<u8> {
    if b.len() >= n {
        b.subrange(0, n as int)
    } else {
        b + Seq::new((n - b.len()) as nat, |_i: int| fill)
    }
}

/// The two's-complement pattern of a short as an unsigned number.
pub open spec fn short_bits(v: i16) -> int {
    if v < 0 { v + 65536 } else { v as int }
}

/// A short on the wire: big-endian, two's complement.
pub open spec fn short_be(v: i16) -> Seq<u8> {
    seq![(short_bits(v) / 256) as u8, (short_bits(v) % 256) as u8]
}

/// The short that two big-endian bytes stand for.
pub open spec fn short_of_be(hi: u8, lo: u8) -> i16 {
    let u = hi * 256 + lo;
    if u >= 32768 { (u - 65536) as i16 } else { u as i16 }
}

/// A string field on the wire: its UTF-8 bytes, cut or space-padded to 64.
pub open spec fn string_field(s: Seq<u8>) -> Seq<u8> {
    pad_to(s, STRING_LEN as nat, 0x20)
}

/// A signed byte on the wire.
pub open spec fn sbyte_bits(v: i8) -> u8 {
    if v < 0 { (v + 256) as u8 } else { v as u8 }
}

/// The characters that `String::from_utf8_lossy` makes of some bytes.
pub uninterp spec fn utf8_lossy(b: Seq<u8>) -> Seq<char>;

/// The characters that `str::trim_end` keeps of a string.
pub uninterp spec fn trimmed_end(s: Seq<char>) -> Seq<char>;

/// Relies on `String::from_utf8_lossy`: decodes bytes, replacing each invalid
/// sequence with U+FFFD; valid UTF-8 comes back as it is.
#[verifier::external_body]
fn decode_lossy(b: &[u8]) -> (r: String)
    ensures
        r@ == utf8_lossy(b@),
        vstd::utf8::valid_utf8(b@) ==> r@ == vstd::utf8::decode_utf8(b@),
{
    String::from_utf8_lossy(b).into_owned()
}

/// Relies on `str::trim_end`: drops trailing whitespace, keeping a prefix.
#[verifier::external_body]
fn trim_end_of(s: &str) -> (r: String)
    ensures
        r@ == trimmed_end(s@),
        r@.len() <= s@.len(),
        r@ == s@.subrange(0, r@.len() as int),
{
    s.trim_end().to_string()
}

/// A positional cursor over one borrowed frame.
#[derive(Debug, Clone)]
pub struct PacketReader<'a> {
    data: &'a [u8],
    index: usize,
}

impl<'a> PacketReader<'a> {
    /// The bytes of the frame.
    pub closed spec fn bytes(&self) -> Seq<u8> {
        self.data@
    }

    /// How many bytes have been consumed.
    pub closed spec fn pos(&self) -> int {
        self.index as int
    }

    /// Bytes left after the cursor.
    pub open spec fn remaining(&self) -> int {
        self.bytes().len() - self.pos()
    }

    pub closed spec fn wf(&self) -> bool {
        self.index <= self.data@.len()
    }

    /// The cursor never stands before the frame or past its end.
    pub proof fn lemma_pos_in_frame(&self)
        requires
            self.wf(),
        ensures
            0 <= self.pos() <= self.bytes().len(),
    {
    }

    pub fn new(data: &'a [u8]) -> (r: Self)
        ensures
            r.wf(),
            r.bytes() == data@,
            r.pos() == 0,
    {
        PacketReader { data, index: 0 }
    }

    /// Bytes left to read, as an executable value.
    pub fn left(&self) -> (r: usize)
        requires
            self.wf(),
        ensures
            r == self.remaining(),
    {
        self.data.len() - self.index
    }

    pub fn read_byte(&mut self) -> (r: u8)
        requires
            old(self).wf(),
            old(self).remaining() >= 1,
        ensures
            final(self).wf(),
            final(self).bytes() == old(self).bytes(),
            final(self).pos() == old(self).pos() + 1,
            r == old(self).bytes()[old(self).pos()],
    {
        let byte = self.data[self.index];
        self.index = self.index + 1;
        byte
    }

    pub fn read_sbyte(&mut self) -> (r: i8)
        requires
            old(self).wf(),
            old(self).remaining() >= 1,
        ensures
            final(self).wf(),
            final(self).bytes() == old(self).bytes(),
            final(self).pos() == old(self).pos() + 1,
            sbyte_bits(r) == old(self).bytes()[old(self).pos()],
    {
        let byte = self.data[self.index];
        self.index = self.index + 1;
        if byte >= 128 {
            (byte as i16 - 256) as i8
        } else {
            byte as i8
        }
    }

    pub fn read_short(&mut self) -> (r: i16)
        requires
            old(self).wf(),
            old(self).remaining() >= 2,
        ensures
            final(self).wf(),
            final(self).bytes() == old(self).bytes(),
            final(self).pos() == old(self).pos() + 2,
            r == short_of_be(old(self).bytes()[old(self).pos()], old(self).bytes()[old(self).pos() + 1]),
    {
        let hi = self.data[self.index];
        let lo = self.data[self.index + 1];
        self.index = self.index + 2;
        let u: u32 = hi as u32 * 256 + lo as u32;
        if u >= 32768 {
            (u as i32 - 65536) as i16
        } else {
            u as i16
        }
    }

    /// Reads a 64-byte string field, decoded lossily and trimmed at the end.
    pub fn read_string(&mut self) -> (r: String)
        requires
            old(self).wf(),
            old(self).remaining() >= STRING_LEN,
        ensures
            final(self).wf(),
            final(self).bytes() == old(self).bytes(),
            final(self).pos() == old(self).pos() + STRING_LEN,
            r@ == trimmed_end(
                utf8_lossy(old(self).bytes().subrange(old(self).pos(), old(self).pos() + STRING_LEN)),
            ),
    {
        let _n = self.data.len();
        let bytes = &self.data[self.index..self.index + STRING_LEN];
        self.index = self.index + STRING_LEN;
        let decoded = decode_lossy(bytes);
        trim_end_of(decoded.as_str())
    }

    pub fn read_byte_array(&mut self, size: usize) -> (r: Vec<u8>)
        requires
            old(self).wf(),
            old(self).remaining() >= size,
        ensures
            final(self).wf(),
            final(self).bytes() == old(self).bytes(),
            final(self).pos() == old(self).pos() + size,
            r@.len() == size,
            r@ == old(self).bytes().subrange(old(self).pos(), old(self).pos() + size),
    {
        let _n = self.data.len();
        let start = self.index;
        let mut out: Vec<u8> = Vec::new();
        let mut i: usize = 0;
        while i < size
            invariant
                self.wf(),
                self.index == start,
                start + size <= self.data@.len() <= usize::MAX,
                i <= size,
                out@ == self.data@.subrange(start as int, start + i),
            decreases size - i,
        {
            out.push(self.data[start + i]);
            i = i + 1;
            assert(out@ =~= self.data@.subrange(start as int, start + i));
        }
        self.index = start + size;
        out
    }
}

/// An append-only buffer that packets are written into.
pub struct PacketWriter {
    data: Vec<u8>,
}

impl View for PacketWriter {
    type V = Seq<u8>;

    closed spec fn view(&self) -> Seq<u8> {
        self.data@
    }
}

impl PacketWriter {
    pub fn new() -> (r: Self)
        ensures
            r@ == Seq::<u8>::empty(),
    {
        PacketWriter { data: Vec::new() }
    }

    pub fn write_byte(&mut self, value: u8)
        ensures
            final(self)@ == old(self)@.push(value),
    {
        self.data.push(value);
    }

    pub fn write_sbyte(&mut self, value: i8)
        ensures
            final(self)@ == old(self)@.push(sbyte_bits(value)),
    {
        let b: u8 = if value < 0 { (value as i16 + 256) as u8 } else { value as u8 };
        self.data.push(b);
    }

    pub fn write_short(&mut self, value: i16)
        ensures
            final(self)@ == old(self)@ + short_be(value),
    {
        let u: u32 = if value < 0 { (value as i32 + 65536) as u32 } else { value as u32 };
        self.data.push((u / 256) as u8);
        self.data.push((u % 256) as u8);
        assert(self.data@ =~= old(self)@ + short_be(value));
    }

    /// Writes the UTF-8 bytes of `value`, cut or space-padded to 64 bytes.
    pub fn write_string(&mut self, value: &str)
        ensures
            final(self)@ == old(self)@ + string_field(value.spec_bytes()),
    {
        let bytes = value.as_bytes();
        self.write_padded(bytes, STRING_LEN, 0x20);
    }

    /// Writes `value`, cut or zero-padded to `size` bytes.
    pub fn write_byte_array(&mut self, value: &[u8], size: usize)
        ensures
            final(self)@ == old(self)@ + pad_to(value@, size as nat, 0),
    {
        self.write_padded(value, size, 0);
    }

    fn write_padded(&mut self, value: &[u8], size: usize, fill: u8)
        ensures
            final(self)@ == old(self)@ + pad_to(value@, size as nat, fill),
    {
        let ghost start = self.data@;
        let mut i: usize = 0;
        while i < size
            invariant
                i <= size,
                self.data@ == start + pad_to(value@, size as nat, fill).subrange(0, i as int),
            decreases size - i,
        {
            let b: u8 = if i < value.len() { value[i] } else { fill };
            self.data.push(b);
            i = i + 1;
            assert(self.data@ =~= start + pad_to(value@, size as nat, fill).subrange(0, i as int));
        }
        assert(pad_to(value@, size as nat, fill).subrange(0, size as int) =~= pad_to(value@, size as nat, fill));
    }

    pub fn to_bytes(&self) -> (r: &Vec<u8>)
        ensures
            r@ == self@,
    {
        &self.data
    }

    pub fn into_inner(self) -> (r: Vec<u8>)
        ensures
            r@ == self@,
    {
        self.data
    }
}

} // verus!
