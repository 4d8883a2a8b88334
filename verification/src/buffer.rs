//! A read cursor over a byte buffer, and the little-endian encodings that the
//! PRAY format is built from.
use vstd::prelude::*;

verus! {

/// The value of four little-endian bytes.
pub open spec fn le_u32(b0: u8, b1: u8, b2: u8, b3: u8) -> u32 {
    (b0 as int + 256 * (b1 as int) + 65536 * (b2 as int) + 16777216 * (b3 as int)) as u32
}

/// The value of two little-endian bytes.
pub open spec fn le_u16(b0: u8, b1: u8) -> u16 {
    (b0 as int + 256 * (b1 as int)) as u16
}

/// The value of the first four bytes of `s`, read little-endian.
pub open spec fn seq_le_u32(s: Seq<u8>) -> u32
    recommends
        s.len() >= 4,
{
    le_u32(s[0], s[1], s[2], s[3])
}

/// The value of the first two bytes of `s`, read little-endian.
pub open spec fn seq_le_u16(s: Seq<u8>) -> u16
    recommends
        s.len() >= 2,
{
    le_u16(s[0], s[1])
}

/// The four little-endian bytes of `v`.
pub open spec fn u32_le_bytes(v: u32) -> Seq<u8> {
    seq![(v % 256) as u8, ((v / 256) % 256) as u8, ((v / 65536) % 256) as u8, (v / 16777216) as u8]
}

/// Reading back the bytes of a `u32` gives the `u32`.
pub proof fn lemma_u32_le_roundtrip(v: u32)
    ensures
        u32_le_bytes(v).len() == 4,
        seq_le_u32(u32_le_bytes(v)) == v,
{
    let b = u32_le_bytes(v);
    assert(b[0] as int + 256 * (b[1] as int) + 65536 * (b[2] as int) + 16777216 * (b[3] as int)
        == v) by (nonlinear_arith)
        requires
            b[0] == (v % 256) as u8,
            b[1] == ((v / 256) % 256) as u8,
            b[2] == ((v / 65536) % 256) as u8,
            b[3] == (v / 16777216) as u8,
    ;
}

/// The little-endian bytes of `v`.
pub fn u32_to_le(v: u32) -> (r: [u8; 4])
    ensures
        r@ == u32_le_bytes(v),
{
    let r = [(v % 256) as u8, ((v / 256) % 256) as u8, ((v / 65536) % 256) as u8, (v / 16777216) as u8];
    assert(r@ == u32_le_bytes(v));
    r
}

/// Appends the four little-endian bytes of `v`.
pub fn put_u32_le(buffer: &mut Vec<u8>, v: u32)
    ensures
        final(buffer)@ == old(buffer)@ + u32_le_bytes(v),
{
    let b = u32_to_le(v);
    buffer.push(b[0]);
    buffer.push(b[1]);
    buffer.push(b[2]);
    buffer.push(b[3]);
    assert(buffer@ == old(buffer)@ + u32_le_bytes(v));
}

/// Appends all of `data`.
pub fn put_slice(buffer: &mut Vec<u8>, data: &[u8])
    ensures
        final(buffer)@ == old(buffer)@ + data@,
{
    let ghost start = buffer@;
    let mut i: usize = 0;
    while i < data.len()
        invariant
            i <= data@.len(),
            buffer@ == start + data@.take(i as int),
        decreases data@.len() - i,
    {
        buffer.push(data[i]);
        i = i + 1;
        assert(buffer@ == start + data@.take(i as int));
    }
    assert(data@.take(data@.len() as int) == data@);
}

/// A read cursor over a byte buffer: its view is the bytes not read yet.
pub struct ByteReader {
    data: Vec<u8>,
    pos: usize,
}

impl View for ByteReader {
    type V = Seq<u8>;

    closed spec fn view(&self) -> Seq<u8> {
        self.data@.subrange(self.pos as int, self.data@.len() as int)
    }
}

impl ByteReader {
    #[verifier::type_invariant]
    spec fn inv(self) -> bool {
        self.pos <= self.data.len()
    }

    /// A cursor at the start of a copy of `bytes`.
    pub fn new(bytes: &[u8]) -> (r: Self)
        ensures
            r@ == bytes@,
    {
        let mut data: Vec<u8> = Vec::new();
        put_slice(&mut data, bytes);
        let r = ByteReader { data, pos: 0 };
        assert(r@ == bytes@);
        r
    }

    /// The number of bytes not read yet.
    pub fn len(&self) -> (n: usize)
        ensures
            n == self@.len(),
    {
        proof {
            use_type_invariant(self);
        }
        self.data.len() - self.pos
    }

    /// Whether every byte has been read.
    pub fn is_empty(&self) -> (b: bool)
        ensures
            b == (self@.len() == 0),
    {
        self.len() == 0
    }

    /// Reads one byte.
    pub fn get_u8(&mut self) -> (b: u8)
        requires
            old(self)@.len() >= 1,
        ensures
            b == old(self)@[0],
            final(self)@ == old(self)@.skip(1),
    {
        proof {
            use_type_invariant(&*self);
        }
        let b = self.data[self.pos];
        self.pos = self.pos + 1;
        assert(self@ =~= old(self)@.skip(1));
        b
    }

    /// Reads a little-endian `u16`.
    pub fn get_u16_le(&mut self) -> (v: u16)
        requires
            old(self)@.len() >= 2,
        ensures
            v == seq_le_u16(old(self)@),
            final(self)@ == old(self)@.skip(2),
    {
        let b0 = self.get_u8();
        let b1 = self.get_u8();
        assert(self@ =~= old(self)@.skip(2));
        (b0 as u16) + 256 * (b1 as u16)
    }

    /// Reads a little-endian `u32`.
    pub fn get_u32_le(&mut self) -> (v: u32)
        requires
            old(self)@.len() >= 4,
        ensures
            v == seq_le_u32(old(self)@),
            final(self)@ == old(self)@.skip(4),
    {
        let b0 = self.get_u8();
        let b1 = self.get_u8();
        let b2 = self.get_u8();
        let b3 = self.get_u8();
        assert(self@ =~= old(self)@.skip(4));
        (b0 as u32) + 256 * (b1 as u32) + 65536 * (b2 as u32) + 16777216 * (b3 as u32)
    }

    /// Skips the next `n` bytes.
    pub fn advance(&mut self, n: usize)
        requires
            n <= old(self)@.len(),
        ensures
            final(self)@ == old(self)@.skip(n as int),
    {
        proof {
            use_type_invariant(&*self);
        }
        self.pos = self.pos + n;
        assert(self@ =~= old(self)@.skip(n as int));
    }

    /// Reads the next `n` bytes into a vector of their own.
    pub fn copy_to_bytes(&mut self, n: usize) -> (r: Vec<u8>)
        requires
            n <= old(self)@.len(),
        ensures
            r@ == old(self)@.take(n as int),
            final(self)@ == old(self)@.skip(n as int),
    {
        proof {
            use_type_invariant(&*self);
        }
        let mut r: Vec<u8> = Vec::new();
        let mut i: usize = 0;
        while i < n
            invariant
                i <= n,
                self.pos + n <= self.data.len(),
                r@ == self.data@.subrange(self.pos as int, self.pos + i),
            decreases n - i,
        {
            r.push(self.data[self.pos + i]);
            i = i + 1;
            assert(r@ =~= self.data@.subrange(self.pos as int, self.pos + i));
        }
        self.pos = self.pos + n;
        assert(r@ =~= old(self)@.take(n as int));
        assert(self@ =~= old(self)@.skip(n as int));
        r
    }
}

} // verus!
