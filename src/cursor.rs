//! A seekable byte source and sink held in memory.
use vstd::prelude::*;

verus! {

/// What can go wrong when reading from or writing to a [`ByteCursor`].
#[derive(Debug, Clone, Copy, PartialEq, Eq, Structural)]
pub enum IoError {
    /// Fewer bytes remain after the position than were asked for.
    UnexpectedEof,
    /// The end of a write lies beyond what a buffer can address.
    PositionOverflow,
}

/// The contents of `d` after writing `b` at position `p`: a gap between the
/// end of `d` and `p` is filled with zero bytes, bytes of `d` under `b` are
/// replaced, and bytes of `d` after `b` are kept.
pub open spec fn spliced(d: Seq<u8>, p: nat, b: Seq<u8>) -> Seq<u8> {
    let padded = if p <= d.len() {
        d
    } else {
        d + Seq::new((p - d.len()) as nat, |i: int| 0u8)
    };
    let tail = if p + b.len() < padded.len() {
        padded.subrange((p + b.len()) as int, padded.len() as int)
    } else {
        Seq::empty()
    };
    padded.subrange(0, p as int) + b + tail
}

/// A buffer of bytes with a position, read and written at that position.
pub struct ByteCursor {
    data: Vec<u8>,
    pos: u64,
}

impl ByteCursor {
    /// The bytes held.
    pub closed spec fn bytes(&self) -> Seq<u8> {
        self.data@
    }

    /// The position at which the next read or write starts; it may lie
    /// beyond the end of the bytes.
    pub closed spec fn pos(&self) -> nat {
        self.pos as nat
    }

    /// A cursor over `data`, at position 0.
    pub fn new(data: Vec<u8>) -> (r: Self)
        ensures
            r.bytes() == data@,
            r.pos() == 0,
    {
        ByteCursor { data, pos: 0 }
    }

    pub fn position(&self) -> (r: u64)
        ensures
            r == self.pos(),
    {
        self.pos
    }

    /// Moves the position to `pos`, counted from the start.
    pub fn seek(&mut self, pos: u64)
        ensures
            final(self).bytes() == old(self).bytes(),
            final(self).pos() == pos,
    {
        self.pos = pos;
    }

    pub fn get_ref(&self) -> (r: &Vec<u8>)
        ensures
            r@ == self.bytes(),
    {
        &self.data
    }

    pub fn into_inner(self) -> (r: Vec<u8>)
        ensures
            r@ == self.bytes(),
    {
        self.data
    }

    /// Reads exactly `n` bytes at the position and moves past them. A short
    /// read is an error and moves nothing.
    pub fn read_exact(&mut self, n: usize) -> (r: Result<Vec<u8>, IoError>)
        ensures
            final(self).bytes() == old(self).bytes(),
            r is Ok <==> old(self).pos() + n <= old(self).bytes().len(),
            match r {
                Ok(b) => {
                    &&& b@ == old(self).bytes().subrange(
                        old(self).pos() as int,
                        old(self).pos() + n,
                    )
                    &&& final(self).pos() == old(self).pos() + n
                },
                Err(e) => e == IoError::UnexpectedEof && final(self).pos() == old(self).pos(),
            },
    {
        let len = self.data.len();
        if self.pos > len as u64 || ((len as u64 - self.pos) as usize) < n {
            return Err(IoError::UnexpectedEof);
        }
        let start = self.pos as usize;
        let mut out: Vec<u8> = Vec::with_capacity(n);
        let mut i: usize = 0;
        while i < n
            invariant
                len == self.data@.len(),
                start + n <= len,
                i <= n,
                out@ == self.data@.subrange(start as int, start + i),
            decreases n - i,
        {
            out.push(self.data[start + i]);
            i = i + 1;
            assert(out@ =~= self.data@.subrange(start as int, start + i));
        }
        self.pos = (start + n) as u64;
        Ok(out)
    }

    /// Writes all of `b` at the position and moves past it; see [`spliced`].
    /// Fails, changing nothing, where the end of the write would lie beyond
    /// `usize::MAX`.
    pub fn write_all(&mut self, b: &[u8]) -> (r: Result<(), IoError>)
        ensures
            r is Ok <==> old(self).pos() + b@.len() <= usize::MAX,
            match r {
                Ok(_) => {
                    &&& final(self).bytes() == spliced(old(self).bytes(), old(self).pos(), b@)
                    &&& final(self).pos() == old(self).pos() + b@.len()
                },
                Err(e) => e == IoError::PositionOverflow && *final(self) == *old(self),
            },
    {
        let n = b.len();
        if self.pos > usize::MAX as u64 || usize::MAX - (self.pos as usize) < n {
            return Err(IoError::PositionOverflow);
        }
        let p = self.pos as usize;
        let ghost d = self.data@;
        let ghost padded = if p <= d.len() {
            d
        } else {
            d + Seq::new((p - d.len()) as nat, |i: int| 0u8)
        };
        while self.data.len() < p
            invariant
                p == old(self).pos(),
                d == old(self).data@,
                padded == (if p <= d.len() {
                    d
                } else {
                    d + Seq::new((p - d.len()) as nat, |i: int| 0u8)
                }),
                d.len() <= self.data@.len() <= padded.len(),
                self.data@ == padded.subrange(0, self.data@.len() as int),
            decreases p - self.data.len(),
        {
            self.data.push(0);
            assert(self.data@ =~= padded.subrange(0, self.data@.len() as int));
        }
        assert(self.data@ =~= padded);
        let mut i: usize = 0;
        while i < n
            invariant
                n == b@.len(),
                p + n <= usize::MAX,
                p <= padded.len(),
                i <= n,
                self.data@.len() == if p + i < padded.len() {
                    padded.len() as int
                } else {
                    p + i
                },
                forall|j: int| 0 <= j < p ==> #[trigger] self.data@[j] == padded[j],
                forall|j: int| p <= j < p + i ==> #[trigger] self.data@[j] == b@[j - p],
                forall|j: int|
                    p + i <= j < self.data@.len() ==> #[trigger] self.data@[j] == padded[j],
            decreases n - i,
        {
            if p + i < self.data.len() {
                self.data.set(p + i, b[i]);
            } else {
                self.data.push(b[i]);
            }
            i = i + 1;
        }
        assert(self.data@ =~= spliced(d, p as nat, b@));
        self.pos = (p + n) as u64;
        Ok(())
    }
}

} // verus!
