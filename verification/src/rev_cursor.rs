//! Reverse cursors over byte buffers.
//!
//! A `WriteCursor` fills a fixed-size buffer from the back; a `ReadCursor`
//! reads an existing buffer from the back.  The identifier codec is built
//! around them: base64 output written through a reverse cursor comes out in
//! reverse byte order, which is exactly the "flipbase64" textual form.

use vstd::prelude::*;

verus! {

/// The bytes of `s` in reverse order.
pub open spec fn flipped(s: Seq<u8>) -> Seq<u8> {
    Seq::new(s.len(), |i: int| s[s.len() - 1 - i])
}

/// Reversing twice gives the original sequence.
pub proof fn lemma_flipped_involution(s: Seq<u8>)
    ensures
        flipped(flipped(s)) == s,
{
    assert(flipped(flipped(s)) =~= s);
}

/// Writes bytes into a fixed-size buffer from the back towards the front.
pub struct WriteCursor {
    buf: Vec<u8>,
    pos: usize,
}

impl WriteCursor {
    /// How the cursor relates to its buffer.
    pub closed spec fn wf(&self) -> bool {
        self.pos <= self.buf@.len()
    }

    /// The buffer contents.
    pub closed spec fn buf_spec(&self) -> Seq<u8> {
        self.buf@
    }

    /// The write position; bytes at `pos()` and beyond are already written.
    pub closed spec fn pos_spec(&self) -> int {
        self.pos as int
    }

    /// A cursor over a zeroed buffer of `len` bytes, positioned at the end.
    pub fn new(len: usize) -> (r: WriteCursor)
        ensures
            r.wf(),
            r.buf_spec() == Seq::<u8>::new(len as nat, |i: int| 0u8),
            r.pos_spec() == len,
    {
        let mut buf: Vec<u8> = Vec::new();
        let mut i: usize = 0;
        while i < len
            invariant
                i <= len,
                buf@ =~= Seq::<u8>::new(i as nat, |j: int| 0u8),
            decreases len - i,
        {
            buf.push(0);
            i = i + 1;
        }
        proof {
            assert(buf@ =~= Seq::<u8>::new(len as nat, |i: int| 0u8));
        }
        WriteCursor { buf, pos: len }
    }

    /// Bytes still writable in front of the position.
    pub fn remaining(&self) -> (r: usize)
        ensures
            r == self.pos_spec(),
    {
        self.pos
    }

    /// Writes `data` in order, moving backwards: the first byte of `data`
    /// lands just before the old position, the last byte lowest.
    pub fn write(&mut self, data: &[u8])
        requires
            old(self).wf(),
            data@.len() <= old(self).pos_spec(),
        ensures
            final(self).wf(),
            final(self).pos_spec() == old(self).pos_spec() - data@.len(),
            final(self).buf_spec().len() == old(self).buf_spec().len(),
            final(self).buf_spec() =~= old(self).buf_spec().subrange(
                0,
                old(self).pos_spec() - data@.len(),
            ) + flipped(data@) + old(self).buf_spec().subrange(
                old(self).pos_spec(),
                old(self).buf_spec().len() as int,
            ),
    {
        let ghost orig = *self;
        let n = data.len();
        let mut k: usize = 0;
        while k < n
            invariant
                orig.wf(),
                n == data@.len(),
                n <= orig.pos_spec(),
                k <= n,
                self.buf@.len() == orig.buf_spec().len(),
                self.pos == orig.pos_spec() - k,
                forall|i: int|
                    0 <= i < self.pos ==> self.buf@[i] == orig.buf_spec()[i],
                forall|i: int|
                    orig.pos_spec() <= i < self.buf@.len() ==> self.buf@[i] == orig.buf_spec()[i],
                forall|j: int|
                    0 <= j < k ==> self.buf@[orig.pos_spec() - 1 - j] == data@[j],
            decreases n - k,
        {
            let p = self.pos - 1;
            self.buf[p] = data[k];
            self.pos = p;
            k = k + 1;
        }
        proof {
            let fin = self.buf@;
            let lo = orig.pos_spec() - n;
            assert forall|i: int| 0 <= i < fin.len() implies fin[i] == (orig.buf_spec().subrange(
                0,
                lo,
            ) + flipped(data@) + orig.buf_spec().subrange(
                orig.pos_spec(),
                orig.buf_spec().len() as int,
            ))[i] by {
                if lo <= i < orig.pos_spec() {
                    let j = orig.pos_spec() - 1 - i;
                    assert(fin[orig.pos_spec() - 1 - j] == data@[j]);
                }
            }
        }
    }

    /// Gives up the cursor and hands the buffer out.
    pub fn into_vec(self) -> (r: Vec<u8>)
        ensures
            r@ == self.buf_spec(),
    {
        self.buf
    }
}

/// Reads a byte buffer from the back towards the front.
pub struct ReadCursor {
    data: Vec<u8>,
    pos: usize,
}

impl ReadCursor {
    /// How the cursor relates to its buffer.
    pub closed spec fn wf(&self) -> bool {
        self.pos <= self.data@.len()
    }

    /// The buffer contents.
    pub closed spec fn data_spec(&self) -> Seq<u8> {
        self.data@
    }

    /// The read position; bytes at `pos()` and beyond are already consumed.
    pub closed spec fn pos_spec(&self) -> int {
        self.pos as int
    }

    /// A cursor over a copy of `array`, positioned at the end.
    pub fn from(array: &[u8]) -> (r: ReadCursor)
        ensures
            r.wf(),
            r.data_spec() == array@,
            r.pos_spec() == array@.len(),
    {
        let mut data: Vec<u8> = Vec::new();
        let n = array.len();
        let mut i: usize = 0;
        while i < n
            invariant
                n == array@.len(),
                i <= n,
                data@ =~= array@.subrange(0, i as int),
            decreases n - i,
        {
            data.push(array[i]);
            i = i + 1;
        }
        proof {
            assert(data@ =~= array@);
        }
        ReadCursor { pos: n, data }
    }

    /// The next byte from the back, or nothing when the cursor is exhausted.
    pub fn read_byte(&mut self) -> (r: Option<u8>)
        requires
            old(self).wf(),
        ensures
            final(self).wf(),
            final(self).data_spec() == old(self).data_spec(),
            old(self).pos_spec() == 0 ==> r is None && final(self).pos_spec() == 0,
            old(self).pos_spec() > 0 ==> final(self).pos_spec() == old(self).pos_spec() - 1 && r
                == Some(old(self).data_spec()[old(self).pos_spec() - 1]),
    {
        if self.pos == 0 {
            None
        } else {
            self.pos = self.pos - 1;
            Some(self.data[self.pos])
        }
    }
}

/// The bytes of `data` in reverse order, produced through a write cursor.
pub fn flip_bytes(data: &[u8]) -> (r: Vec<u8>)
    ensures
        r@ == flipped(data@),
{
    let mut cursor = WriteCursor::new(data.len());
    cursor.write(data);
    let out = cursor.into_vec();
    proof {
        assert(out@ =~= flipped(data@));
    }
    out
}

} // verus!
