//! Wire-format primitives: big-endian integers, byte-buffer writers and a
//! sequential reader.
//!
//! The media-packet and directory-entry codecs are built from these pieces;
//! each writer states exactly which bytes it appends, and each reader states
//! exactly which bytes it consumed, so codec round trips can be proved from
//! the contracts alone.

use vstd::prelude::*;

verus! {

/// Big-endian bytes of a 16-bit value.
pub open spec fn u16_be(v: u16) -> Seq<u8> {
    seq![((v >> 8) & 0xff) as u8, (v & 0xff) as u8]
}

/// Big-endian bytes of a 32-bit value.
pub open spec fn u32_be(v: u32) -> Seq<u8> {
    seq![
        ((v >> 24) & 0xff) as u8,
        ((v >> 16) & 0xff) as u8,
        ((v >> 8) & 0xff) as u8,
        (v & 0xff) as u8,
    ]
}

/// Little-endian bytes of a 64-bit value.
pub open spec fn u64_le(v: u64) -> Seq<u8> {
    seq![
        (v & 0xff) as u8,
        ((v >> 8) & 0xff) as u8,
        ((v >> 16) & 0xff) as u8,
        ((v >> 24) & 0xff) as u8,
        ((v >> 32) & 0xff) as u8,
        ((v >> 40) & 0xff) as u8,
        ((v >> 48) & 0xff) as u8,
        ((v >> 56) & 0xff) as u8,
    ]
}

/// 16-bit value read from two big-endian bytes.
pub open spec fn be16_val(b0: u8, b1: u8) -> u16 {
    (((b0 as u16) << 8) | (b1 as u16)) as u16
}

/// 32-bit value read from four big-endian bytes.
pub open spec fn be32_val(b0: u8, b1: u8, b2: u8, b3: u8) -> u32 {
    (((b0 as u32) << 24) | ((b1 as u32) << 16) | ((b2 as u32) << 8) | (b3 as u32)) as u32
}

/// Reading back the big-endian bytes of a 16-bit value gives the value.
pub proof fn lemma_u16_be_round_trip(v: u16)
    ensures
        be16_val(u16_be(v)[0], u16_be(v)[1]) == v,
{
    assert((((((v >> 8) & 0xff) as u8) as u16) << 8 | (((v & 0xff) as u8) as u16)) == v)
        by (bit_vector);
}

/// Reading back the big-endian bytes of a 32-bit value gives the value.
pub proof fn lemma_u32_be_round_trip(v: u32)
    ensures
        be32_val(u32_be(v)[0], u32_be(v)[1], u32_be(v)[2], u32_be(v)[3]) == v,
{
    assert(((((v >> 24) & 0xff) as u8 as u32) << 24 | (((v >> 16) & 0xff) as u8 as u32) << 16 | ((
    (v >> 8) & 0xff) as u8 as u32) << 8 | ((v & 0xff) as u8 as u32)) == v) by (bit_vector);
}

/// A signed byte survives the cast to `u8` and back.
pub proof fn lemma_i8_round_trip(v: i8)
    ensures
        (v as u8) as i8 == v,
{
    assert((v as u8) as i8 == v) by (bit_vector);
}

/// Appends one byte.
pub fn push_byte(buf: &mut Vec<u8>, b: u8)
    ensures
        final(buf)@ == old(buf)@ + seq![b],
{
    buf.push(b);
    proof {
        assert(buf@ =~= old(buf)@ + seq![b]);
    }
}

/// Appends a byte slice.
pub fn push_slice(buf: &mut Vec<u8>, s: &[u8])
    ensures
        final(buf)@ == old(buf)@ + s@,
{
    buf.extend_from_slice(s);
}

/// Appends a 64-bit value in little-endian order.
pub fn push_u64_le(buf: &mut Vec<u8>, v: u64)
    ensures
        final(buf)@ == old(buf)@ + u64_le(v),
{
    buf.push((v & 0xff) as u8);
    buf.push(((v >> 8) & 0xff) as u8);
    buf.push(((v >> 16) & 0xff) as u8);
    buf.push(((v >> 24) & 0xff) as u8);
    buf.push(((v >> 32) & 0xff) as u8);
    buf.push(((v >> 40) & 0xff) as u8);
    buf.push(((v >> 48) & 0xff) as u8);
    buf.push(((v >> 56) & 0xff) as u8);
    proof {
        assert(buf@ =~= old(buf)@ + u64_le(v));
    }
}

/// Appends a 16-bit value in big-endian order.
pub fn push_u16_be(buf: &mut Vec<u8>, v: u16)
    ensures
        final(buf)@ == old(buf)@ + u16_be(v),
{
    buf.push(((v >> 8) & 0xff) as u8);
    buf.push((v & 0xff) as u8);
    proof {
        assert(buf@ =~= old(buf)@ + u16_be(v));
    }
}

/// Appends a 32-bit value in big-endian order.
pub fn push_u32_be(buf: &mut Vec<u8>, v: u32)
    ensures
        final(buf)@ == old(buf)@ + u32_be(v),
{
    buf.push(((v >> 24) & 0xff) as u8);
    buf.push(((v >> 16) & 0xff) as u8);
    buf.push(((v >> 8) & 0xff) as u8);
    buf.push((v & 0xff) as u8);
    proof {
        assert(buf@ =~= old(buf)@ + u32_be(v));
    }
}


/// A length-prefixed chunk: two big-endian length bytes, then the payload.
pub open spec fn chunk_bytes(b: Seq<u8>) -> Seq<u8> {
    u16_be(b.len() as u16) + b
}

/// An optional chunk: a presence byte, then the chunk if present.
pub open spec fn opt_chunk_bytes(b: Option<Seq<u8>>) -> Seq<u8> {
    match b {
        Some(bb) => seq![1u8] + chunk_bytes(bb),
        None => seq![0u8],
    }
}

/// Reads a chunk at `pos`: the payload and the position after it.
pub open spec fn spec_read_chunk(s: Seq<u8>, pos: int) -> Option<(Seq<u8>, int)> {
    if pos + 2 <= s.len() {
        let n = be16_val(s[pos], s[pos + 1]) as int;
        if pos + 2 + n <= s.len() {
            Some((s.subrange(pos + 2, pos + 2 + n), pos + 2 + n))
        } else {
            None
        }
    } else {
        None
    }
}

/// Reads an optional chunk at `pos`.
pub open spec fn spec_read_opt_chunk(s: Seq<u8>, pos: int) -> Option<(Option<Seq<u8>>, int)> {
    if pos + 1 <= s.len() {
        if s[pos] == 0 {
            Some((None, pos + 1))
        } else if s[pos] == 1 {
            match spec_read_chunk(s, pos + 1) {
                Some(pair) => Some((Some(pair.0), pair.1)),
                None => None,
            }
        } else {
            None
        }
    } else {
        None
    }
}

/// Reading a chunk written at `pre.len()` gives the payload back.
pub proof fn lemma_chunk_round_trip(pre: Seq<u8>, b: Seq<u8>, post: Seq<u8>)
    requires
        b.len() <= 0xffff,
    ensures
        spec_read_chunk(pre + chunk_bytes(b) + post, pre.len() as int) == Some(
            (b, pre.len() + 2 + b.len() as int),
        ),
{
    let s = pre + chunk_bytes(b) + post;
    let p = pre.len() as int;
    lemma_u16_be_round_trip(b.len() as u16);
    assert(s[p] == u16_be(b.len() as u16)[0]);
    assert(s[p + 1] == u16_be(b.len() as u16)[1]);
    assert(be16_val(s[p], s[p + 1]) == b.len());
    assert(s.subrange(p + 2, p + 2 + b.len()) =~= b);
}

/// Reading an optional chunk written at `pre.len()` gives the payload back.
pub proof fn lemma_opt_chunk_round_trip(pre: Seq<u8>, b: Option<Seq<u8>>, post: Seq<u8>)
    requires
        b is Some ==> b.unwrap().len() <= 0xffff,
    ensures
        spec_read_opt_chunk(pre + opt_chunk_bytes(b) + post, pre.len() as int) == Some(
            (
                b,
                pre.len() + opt_chunk_bytes(b).len() as int,
            ),
        ),
{
    let s = pre + opt_chunk_bytes(b) + post;
    let p = pre.len() as int;
    match b {
        None => {
            assert(s[p] == 0);
        },
        Some(bb) => {
            assert(s[p] == 1);
            assert(pre + opt_chunk_bytes(b) + post =~= (pre + seq![1u8]) + chunk_bytes(bb)
                + post);
            lemma_chunk_round_trip(pre + seq![1u8], bb, post);
        },
    }
}

/// Appends a length-prefixed chunk.
pub fn push_chunk(buf: &mut Vec<u8>, b: &[u8])
    requires
        b@.len() <= 0xffff,
    ensures
        final(buf)@ == old(buf)@ + chunk_bytes(b@),
{
    push_u16_be(buf, b.len() as u16);
    push_slice(buf, b);
    proof {
        assert(buf@ =~= old(buf)@ + chunk_bytes(b@));
    }
}

/// Appends an optional length-prefixed chunk.
pub fn push_opt_chunk(buf: &mut Vec<u8>, b: &Option<Vec<u8>>)
    requires
        match *b {
            Some(ref bb) => bb@.len() <= 0xffff,
            None => true,
        },
    ensures
        final(buf)@ == old(buf)@ + opt_chunk_bytes(match *b {
            Some(ref bb) => Some(bb@),
            None => None,
        }),
{
    match b {
        Some(bb) => {
            push_byte(buf, 1);
            push_chunk(buf, bb.as_slice());
            proof {
                assert(buf@ =~= old(buf)@ + opt_chunk_bytes(Some(bb@)));
            }
        },
        None => {
            push_byte(buf, 0);
        },
    }
}

/// Sequential reader over a byte slice.
pub struct Reader<'a> {
    pub buf: &'a [u8],
    pub pos: usize,
}

impl<'a> Reader<'a> {
    /// The reader's cursor never passes the end of the buffer.
    pub open spec fn wf(&self) -> bool {
        self.pos <= self.buf@.len()
    }

    pub fn new(buf: &'a [u8]) -> (r: Reader<'a>)
        ensures
            r.wf(),
            r.buf@ == buf@,
            r.pos == 0,
    {
        Reader { buf, pos: 0 }
    }

    /// Bytes not yet consumed.
    pub fn remaining(&self) -> (n: usize)
        requires
            self.wf(),
        ensures
            n == self.buf@.len() - self.pos,
    {
        self.buf.len() - self.pos
    }

    /// Reads one byte, advancing the cursor.
    pub fn read_u8(&mut self) -> (r: Option<u8>)
        requires
            old(self).wf(),
        ensures
            final(self).wf(),
            final(self).buf@ == old(self).buf@,
            if old(self).pos < old(self).buf@.len() {
                r == Some(old(self).buf@[old(self).pos as int]) && final(self).pos == old(self).pos
                    + 1
            } else {
                r is None && final(self).pos == old(self).pos
            },
    {
        if self.pos < self.buf.len() {
            let b = self.buf[self.pos];
            self.pos = self.pos + 1;
            Some(b)
        } else {
            None
        }
    }

    /// Reads two bytes as a big-endian 16-bit value.
    pub fn read_u16_be(&mut self) -> (r: Option<u16>)
        requires
            old(self).wf(),
        ensures
            final(self).wf(),
            final(self).buf@ == old(self).buf@,
            if old(self).pos + 2 <= old(self).buf@.len() {
                r == Some(
                    be16_val(
                        old(self).buf@[old(self).pos as int],
                        old(self).buf@[old(self).pos + 1],
                    ),
                ) && final(self).pos == old(self).pos + 2
            } else {
                r is None && final(self).pos == old(self).pos
            },
    {
        if self.buf.len() - self.pos >= 2 {
            let b0 = self.buf[self.pos];
            let b1 = self.buf[self.pos + 1];
            self.pos = self.pos + 2;
            Some(((b0 as u16) << 8) | (b1 as u16))
        } else {
            None
        }
    }

    /// Reads four bytes as a big-endian 32-bit value.
    pub fn read_u32_be(&mut self) -> (r: Option<u32>)
        requires
            old(self).wf(),
        ensures
            final(self).wf(),
            final(self).buf@ == old(self).buf@,
            if old(self).pos + 4 <= old(self).buf@.len() {
                r == Some(
                    be32_val(
                        old(self).buf@[old(self).pos as int],
                        old(self).buf@[old(self).pos + 1],
                        old(self).buf@[old(self).pos + 2],
                        old(self).buf@[old(self).pos + 3],
                    ),
                ) && final(self).pos == old(self).pos + 4
            } else {
                r is None && final(self).pos == old(self).pos
            },
    {
        if self.buf.len() - self.pos >= 4 {
            let b0 = self.buf[self.pos];
            let b1 = self.buf[self.pos + 1];
            let b2 = self.buf[self.pos + 2];
            let b3 = self.buf[self.pos + 3];
            self.pos = self.pos + 4;
            Some(((b0 as u32) << 24) | ((b1 as u32) << 16) | ((b2 as u32) << 8) | (b3 as u32))
        } else {
            None
        }
    }

    /// Copies the next `n` bytes out, advancing the cursor.
    pub fn read_exact(&mut self, n: usize) -> (r: Option<Vec<u8>>)
        requires
            old(self).wf(),
        ensures
            final(self).wf(),
            final(self).buf@ == old(self).buf@,
            if old(self).pos + n <= old(self).buf@.len() {
                {
                    &&& final(self).pos == old(self).pos + n
                    &&& match r {
                        Some(v) => v@ == old(self).buf@.subrange(
                            old(self).pos as int,
                            old(self).pos + n,
                        ),
                        None => false,
                    }
                }
            } else {
                r is None && final(self).pos == old(self).pos
            },
    {
        if n <= self.buf.len() - self.pos {
            let blen = self.buf.len();
            let mut v: Vec<u8> = Vec::new();
            let mut i: usize = 0;
            while i < n
                invariant
                    i <= n,
                    blen == self.buf@.len(),
                    self.pos + n <= blen,
                    v@ == self.buf@.subrange(self.pos as int, self.pos + i),
                decreases n - i,
            {
                v.push(self.buf[self.pos + i]);
                proof {
                    assert(v@ =~= self.buf@.subrange(self.pos as int, self.pos + i + 1));
                }
                i = i + 1;
            }
            self.pos = self.pos + n;
            Some(v)
        } else {
            None
        }
    }
    /// Reads a length-prefixed chunk, advancing the cursor past it.
    pub fn read_chunk(&mut self) -> (r: Option<Vec<u8>>)
        requires
            old(self).wf(),
        ensures
            final(self).wf(),
            final(self).buf@ == old(self).buf@,
            match spec_read_chunk(old(self).buf@, old(self).pos as int) {
                Some(pair) => r is Some && r.unwrap()@ == pair.0 && final(self).pos == pair.1,
                None => r is None,
            },
    {
        let n = match self.read_u16_be() {
            Some(n) => n,
            None => {
                return None;
            },
        };
        self.read_exact(n as usize)
    }

    /// Reads an optional length-prefixed chunk, advancing the cursor past
    /// it.
    pub fn read_opt_chunk(&mut self) -> (r: Option<Option<Vec<u8>>>)
        requires
            old(self).wf(),
        ensures
            final(self).wf(),
            final(self).buf@ == old(self).buf@,
            match spec_read_opt_chunk(old(self).buf@, old(self).pos as int) {
                Some(pair) => {
                    &&& final(self).pos == pair.1
                    &&& match pair.0 {
                        Some(bb) => r is Some && r.unwrap() is Some && r.unwrap().unwrap()@ == bb,
                        None => r == Some(Option::<Vec<u8>>::None),
                    }
                },
                None => r is None,
            },
    {
        let tag = match self.read_u8() {
            Some(t) => t,
            None => {
                return None;
            },
        };
        if tag == 0 {
            Some(None)
        } else if tag == 1 {
            match self.read_chunk() {
                Some(v) => Some(Some(v)),
                None => None,
            }
        } else {
            None
        }
    }
}


} // verus!
