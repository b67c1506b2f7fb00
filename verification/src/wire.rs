//! Byte-level codecs for register words on the wire.
//!
//! The register transfer commands move fixed-width words as raw bytes. The
//! general-purpose bank is always 64 bits wide; the special registers (stack
//! pointer, program counter) take the pointer width of the architecture
//! variant, which is what the [`RegWord`] trait abstracts over.

use vstd::prelude::*;

verus! {

/// Little-endian bytes of a 64-bit word, least significant byte first.
pub open spec fn u64_le_bytes(v: u64) -> Seq<u8> {
    seq![
        (v & 0xff) as u8,
        ((v >> 8) & 0xff) as u8,
        ((v >> 16) & 0xff) as u8,
        ((v >> 24) & 0xff) as u8,
        ((v >> 32) & 0xff) as u8,
        ((v >> 40) & 0xff) as u8,
        ((v >> 48) & 0xff) as u8,
        ((v >> 56) & 0xff) as u8,
    ]
}

/// The 64-bit word read from eight little-endian bytes.
pub open spec fn u64_from_le(s: Seq<u8>) -> u64
    recommends
        s.len() == 8,
{
    (s[0] as u64) | ((s[1] as u64) << 8) | ((s[2] as u64) << 16) | ((s[3] as u64) << 24) | ((
    s[4] as u64) << 32) | ((s[5] as u64) << 40) | ((s[6] as u64) << 48) | ((s[7] as u64) << 56)
}

/// The 64-bit word read from eight big-endian bytes.
pub open spec fn u64_from_be(s: Seq<u8>) -> u64
    recommends
        s.len() == 8,
{
    ((s[0] as u64) << 56) | ((s[1] as u64) << 48) | ((s[2] as u64) << 40) | ((s[3] as u64) << 32)
        | ((s[4] as u64) << 24) | ((s[5] as u64) << 16) | ((s[6] as u64) << 8) | (s[7] as u64)
}

/// Little-endian bytes of a 32-bit word.
pub open spec fn u32_le_bytes(v: u32) -> Seq<u8> {
    seq![
        (v & 0xff) as u8,
        ((v >> 8) & 0xff) as u8,
        ((v >> 16) & 0xff) as u8,
        ((v >> 24) & 0xff) as u8,
    ]
}

/// The 32-bit word read from four little-endian bytes.
pub open spec fn u32_from_le(s: Seq<u8>) -> u32
    recommends
        s.len() == 4,
{
    (s[0] as u32) | ((s[1] as u32) << 8) | ((s[2] as u32) << 16) | ((s[3] as u32) << 24)
}

pub proof fn lemma_u64_le_roundtrip(v: u64)
    ensures
        u64_from_le(u64_le_bytes(v)) == v,
{
    assert((((v & 0xff) as u8) as u64) | ((((v >> 8) & 0xff) as u8) as u64) << 8 | ((((v >> 16)
        & 0xff) as u8) as u64) << 16 | ((((v >> 24) & 0xff) as u8) as u64) << 24 | ((((v >> 32)
        & 0xff) as u8) as u64) << 32 | ((((v >> 40) & 0xff) as u8) as u64) << 40 | ((((v >> 48)
        & 0xff) as u8) as u64) << 48 | ((((v >> 56) & 0xff) as u8) as u64) << 56 == v)
        by (bit_vector);
}

pub proof fn lemma_u64_le_of_from_le(s: Seq<u8>)
    requires
        s.len() == 8,
    ensures
        u64_le_bytes(u64_from_le(s)) == s,
{
    let b0 = s[0];
    let b1 = s[1];
    let b2 = s[2];
    let b3 = s[3];
    let b4 = s[4];
    let b5 = s[5];
    let b6 = s[6];
    let b7 = s[7];
    let v = u64_from_le(s);
    assert(v == (b0 as u64) | ((b1 as u64) << 8) | ((b2 as u64) << 16) | ((b3 as u64) << 24) | ((
    b4 as u64) << 32) | ((b5 as u64) << 40) | ((b6 as u64) << 48) | ((b7 as u64) << 56));
    assert({
        let w = (b0 as u64) | ((b1 as u64) << 8) | ((b2 as u64) << 16) | ((b3 as u64) << 24) | ((
        b4 as u64) << 32) | ((b5 as u64) << 40) | ((b6 as u64) << 48) | ((b7 as u64) << 56);
        (w & 0xff) as u8 == b0 && ((w >> 8) & 0xff) as u8 == b1 && ((w >> 16) & 0xff) as u8 == b2
            && ((w >> 24) & 0xff) as u8 == b3 && ((w >> 32) & 0xff) as u8 == b4 && ((w >> 40)
            & 0xff) as u8 == b5 && ((w >> 48) & 0xff) as u8 == b6 && ((w >> 56) & 0xff) as u8 == b7
    }) by (bit_vector);
    assert(u64_le_bytes(v) =~= s);
}

pub proof fn lemma_u32_le_roundtrip(v: u32)
    ensures
        u32_from_le(u32_le_bytes(v)) == v,
{
    assert((((v & 0xff) as u8) as u32) | ((((v >> 8) & 0xff) as u8) as u32) << 8 | ((((v >> 16)
        & 0xff) as u8) as u32) << 16 | ((((v >> 24) & 0xff) as u8) as u32) << 24 == v)
        by (bit_vector);
}

pub proof fn lemma_u32_le_of_from_le(s: Seq<u8>)
    requires
        s.len() == 4,
    ensures
        u32_le_bytes(u32_from_le(s)) == s,
{
    let b0 = s[0];
    let b1 = s[1];
    let b2 = s[2];
    let b3 = s[3];
    let v = u32_from_le(s);
    assert(v == (b0 as u32) | ((b1 as u32) << 8) | ((b2 as u32) << 16) | ((b3 as u32) << 24));
    assert({
        let w = (b0 as u32) | ((b1 as u32) << 8) | ((b2 as u32) << 16) | ((b3 as u32) << 24);
        (w & 0xff) as u8 == b0 && ((w >> 8) & 0xff) as u8 == b1 && ((w >> 16) & 0xff) as u8 == b2
            && ((w >> 24) & 0xff) as u8 == b3
    }) by (bit_vector);
    assert(u32_le_bytes(v) =~= s);
}

/// Append the little-endian bytes of a 64-bit word to `out`.
pub fn u64_write_le(v: u64, out: &mut Vec<u8>)
    ensures
        final(out)@ == old(out)@ + u64_le_bytes(v),
{
    out.push((v & 0xff) as u8);
    out.push(((v >> 8) & 0xff) as u8);
    out.push(((v >> 16) & 0xff) as u8);
    out.push(((v >> 24) & 0xff) as u8);
    out.push(((v >> 32) & 0xff) as u8);
    out.push(((v >> 40) & 0xff) as u8);
    out.push(((v >> 48) & 0xff) as u8);
    out.push(((v >> 56) & 0xff) as u8);
    proof {
        assert(out@ =~= old(out)@ + u64_le_bytes(v));
    }
}

/// Append the little-endian bytes of a 32-bit word to `out`.
pub fn u32_write_le(v: u32, out: &mut Vec<u8>)
    ensures
        final(out)@ == old(out)@ + u32_le_bytes(v),
{
    out.push((v & 0xff) as u8);
    out.push(((v >> 8) & 0xff) as u8);
    out.push(((v >> 16) & 0xff) as u8);
    out.push(((v >> 24) & 0xff) as u8);
    proof {
        assert(out@ =~= old(out)@ + u32_le_bytes(v));
    }
}

/// Read a 64-bit word from eight big-endian bytes at `off`.
pub fn u64_read_be(b: &[u8], off: usize) -> (r: u64)
    requires
        off + 8 <= b@.len(),
    ensures
        r == u64_from_be(b@.subrange(off as int, off as int + 8)),
{
    let r = ((b[off] as u64) << 56) | ((b[off + 1] as u64) << 48) | ((b[off + 2] as u64) << 40) | ((
    b[off + 3] as u64) << 32) | ((b[off + 4] as u64) << 24) | ((b[off + 5] as u64) << 16) | ((b[off
        + 6] as u64) << 8) | (b[off + 7] as u64);
    proof {
        let s = b@.subrange(off as int, off as int + 8);
        assert(s[0] == b@[off as int]);
        assert(s[1] == b@[off + 1]);
        assert(s[2] == b@[off + 2]);
        assert(s[3] == b@[off + 3]);
        assert(s[4] == b@[off + 4]);
        assert(s[5] == b@[off + 5]);
        assert(s[6] == b@[off + 6]);
        assert(s[7] == b@[off + 7]);
    }
    r
}

/// Read a 64-bit word from eight little-endian bytes at `off`.
pub fn u64_read_le(b: &[u8], off: usize) -> (r: u64)
    requires
        off + 8 <= b@.len(),
    ensures
        r == u64_from_le(b@.subrange(off as int, off as int + 8)),
{
    let r = (b[off] as u64) | ((b[off + 1] as u64) << 8) | ((b[off + 2] as u64) << 16) | ((b[off
        + 3] as u64) << 24) | ((b[off + 4] as u64) << 32) | ((b[off + 5] as u64) << 40) | ((b[off
        + 6] as u64) << 48) | ((b[off + 7] as u64) << 56);
    proof {
        let s = b@.subrange(off as int, off as int + 8);
        assert(s[0] == b@[off as int]);
        assert(s[1] == b@[off + 1]);
        assert(s[2] == b@[off + 2]);
        assert(s[3] == b@[off + 3]);
        assert(s[4] == b@[off + 4]);
        assert(s[5] == b@[off + 5]);
        assert(s[6] == b@[off + 6]);
        assert(s[7] == b@[off + 7]);
    }
    r
}

/// Read a 32-bit word from four little-endian bytes at `off`.
pub fn u32_read_le(b: &[u8], off: usize) -> (r: u32)
    requires
        off + 4 <= b@.len(),
    ensures
        r == u32_from_le(b@.subrange(off as int, off as int + 4)),
{
    let r = (b[off] as u32) | ((b[off + 1] as u32) << 8) | ((b[off + 2] as u32) << 16) | ((b[off
        + 3] as u32) << 24);
    proof {
        let s = b@.subrange(off as int, off as int + 4);
        assert(s[0] == b@[off as int]);
        assert(s[1] == b@[off + 1]);
        assert(s[2] == b@[off + 2]);
        assert(s[3] == b@[off + 3]);
    }
    r
}

/// An unsigned word type wide enough for an address, supplying its own
/// little-endian byte codec. The two BPF variants instantiate this with
/// `u32` and `u64`.
pub trait RegWord: Copy + Sized {
    /// Width of the word on the wire, in bytes.
    spec fn size_spec() -> usize;

    /// Little-endian bytes of the word.
    spec fn le_spec(self) -> Seq<u8>;

    /// The word read from little-endian bytes.
    spec fn from_le_spec(s: Seq<u8>) -> Self;

    /// The wire width is that of a 32-bit or a 64-bit pointer.
    proof fn lemma_size()
        ensures
            Self::size_spec() == 4 || Self::size_spec() == 8,
    ;

    /// Encoding a word gives exactly `size_spec` bytes, and decoding them
    /// gives the word back.
    proof fn lemma_le(self)
        ensures
            self.le_spec().len() == Self::size_spec(),
            Self::from_le_spec(self.le_spec()) == self,
    ;

    /// Decoding any buffer of the wire width and re-encoding reproduces it.
    proof fn lemma_le_of_from_le(s: Seq<u8>)
        requires
            s.len() == Self::size_spec(),
        ensures
            Self::from_le_spec(s).le_spec() == s,
    ;

    /// Width of the word on the wire, in bytes.
    fn size() -> (r: usize)
        ensures
            r == Self::size_spec(),
    ;

    /// Append the word's little-endian bytes to `out`.
    fn write_le(self, out: &mut Vec<u8>)
        ensures
            final(out)@ == old(out)@ + self.le_spec(),
    ;

    /// Read one word from little-endian bytes at `off`.
    fn read_le(b: &[u8], off: usize) -> (r: Self)
        requires
            off + Self::size_spec() <= b@.len(),
        ensures
            r == Self::from_le_spec(b@.subrange(off as int, off as int + Self::size_spec())),
    ;
}

impl RegWord for u64 {
    open spec fn size_spec() -> usize {
        8
    }

    open spec fn le_spec(self) -> Seq<u8> {
        u64_le_bytes(self)
    }

    open spec fn from_le_spec(s: Seq<u8>) -> Self {
        u64_from_le(s)
    }

    proof fn lemma_size() {
    }

    proof fn lemma_le(self) {
        lemma_u64_le_roundtrip(self);
    }

    proof fn lemma_le_of_from_le(s: Seq<u8>) {
        lemma_u64_le_of_from_le(s);
    }

    fn size() -> usize {
        8
    }

    fn write_le(self, out: &mut Vec<u8>) {
        u64_write_le(self, out);
    }

    fn read_le(b: &[u8], off: usize) -> Self {
        u64_read_le(b, off)
    }
}

impl RegWord for u32 {
    open spec fn size_spec() -> usize {
        4
    }

    open spec fn le_spec(self) -> Seq<u8> {
        u32_le_bytes(self)
    }

    open spec fn from_le_spec(s: Seq<u8>) -> Self {
        u32_from_le(s)
    }

    proof fn lemma_size() {
    }

    proof fn lemma_le(self) {
        lemma_u32_le_roundtrip(self);
    }

    proof fn lemma_le_of_from_le(s: Seq<u8>) {
        lemma_u32_le_of_from_le(s);
    }

    fn size() -> usize {
        4
    }

    fn write_le(self, out: &mut Vec<u8>) {
        u32_write_le(self, out);
    }

    fn read_le(b: &[u8], off: usize) -> Self {
        u32_read_le(b, off)
    }
}

} // verus!
