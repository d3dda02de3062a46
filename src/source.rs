use vstd::prelude::*;

verus! {

/// Big-endian value of the two bytes of `s` starting at `i`.
pub open spec fn be_u16_at(s: Seq<u8>, i: int) -> int {
    s[i] * 256 + s[i + 1]
}

/// Big-endian value of the four bytes of `s` starting at `i`.
pub open spec fn be_u32_at(s: Seq<u8>, i: int) -> int {
    s[i] * 16777216 + s[i + 1] * 65536 + s[i + 2] * 256 + s[i + 3]
}

/// Why decoding a request stopped.
#[derive(Debug, Clone, Copy, PartialEq, Eq, Structural)]
pub enum DecodeError {
    /// The header's magic number is not the protocol's.
    InvalidMagic,
    /// The header names an action outside the protocol's set.
    InvalidAction,
    /// Fewer bytes remain than a declared length asks for.
    TruncatedStream,
    /// A strictly decoded text field is not valid text in its encoding.
    InvalidText,
}

/// The bytes of one connection, read front to back through a cursor.
pub struct ByteSource {
    data: Vec<u8>,
    pos: usize,
}

impl ByteSource {
    /// Every byte of the stream, read or not.
    pub closed spec fn bytes(&self) -> Seq<u8> {
        self.data@
    }

    /// Index of the next byte to be read.
    pub closed spec fn pos(&self) -> int {
        self.pos as int
    }

    pub open spec fn wf(&self) -> bool {
        0 <= self.pos() <= self.bytes().len()
    }

    /// The bytes not read yet.
    pub open spec fn rest(&self) -> Seq<u8> {
        self.bytes().subrange(self.pos(), self.bytes().len() as int)
    }

    pub fn new(data: Vec<u8>) -> (r: ByteSource)
        ensures
            r.wf(),
            r.bytes() == data@,
            r.pos() == 0,
    {
        ByteSource { data, pos: 0 }
    }

    pub fn position(&self) -> (r: usize)
        ensures
            r == self.pos(),
    {
        self.pos
    }

    pub fn remaining(&self) -> (r: usize)
        requires
            self.wf(),
        ensures
            r == self.bytes().len() - self.pos(),
    {
        self.data.len() - self.pos
    }

    /// Reads exactly `n` bytes, or fails without moving when fewer remain.
    pub fn read_exact(&mut self, n: usize) -> (r: Result<Vec<u8>, DecodeError>)
        requires
            old(self).wf(),
        ensures
            final(self).wf(),
            final(self).bytes() == old(self).bytes(),
            old(self).pos() + n <= old(self).bytes().len() ==> r is Ok && r->Ok_0@
                == old(self).bytes().subrange(old(self).pos(), old(self).pos() + n)
                && final(self).pos() == old(self).pos() + n,
            old(self).pos() + n > old(self).bytes().len() ==> r == Err::<Vec<u8>, DecodeError>(
                DecodeError::TruncatedStream,
            ) && final(self).pos() == old(self).pos(),
    {
        if n > self.data.len() - self.pos {
            return Err(DecodeError::TruncatedStream);
        }
        let mut out: Vec<u8> = Vec::new();
        let start = self.pos;
        let mut i: usize = 0;
        while i < n
            invariant
                self.wf(),
                self.pos == start,
                start + n <= self.data.len(),
                i <= n,
                out@ == self.data@.subrange(start as int, start + i),
            decreases n - i,
        {
            out.push(self.data[start + i]);
            i = i + 1;
        }
        self.pos = start + n;
        Ok(out)
    }
    /// Reads one byte.
    pub fn read_u8(&mut self) -> (r: Result<u8, DecodeError>)
        requires
            old(self).wf(),
        ensures
            final(self).wf(),
            final(self).bytes() == old(self).bytes(),
            old(self).pos() + 1 <= old(self).bytes().len() ==> r == Ok::<u8, DecodeError>(
                old(self).bytes()[old(self).pos()],
            ) && final(self).pos() == old(self).pos() + 1,
            old(self).pos() + 1 > old(self).bytes().len() ==> r == Err::<u8, DecodeError>(
                DecodeError::TruncatedStream,
            ) && final(self).pos() == old(self).pos(),
    {
        if self.pos >= self.data.len() {
            return Err(DecodeError::TruncatedStream);
        }
        let b = self.data[self.pos];
        self.pos = self.pos + 1;
        Ok(b)
    }

    /// Reads a big-endian 16-bit unsigned integer.
    pub fn read_u16(&mut self) -> (r: Result<u16, DecodeError>)
        requires
            old(self).wf(),
        ensures
            final(self).wf(),
            final(self).bytes() == old(self).bytes(),
            old(self).pos() + 2 <= old(self).bytes().len() ==> r is Ok && r->Ok_0
                == be_u16_at(old(self).bytes(), old(self).pos()) && final(self).pos() == old(
                self,
            ).pos() + 2,
            old(self).pos() + 2 > old(self).bytes().len() ==> r == Err::<u16, DecodeError>(
                DecodeError::TruncatedStream,
            ) && final(self).pos() == old(self).pos(),
    {
        if 2 > self.data.len() - self.pos {
            return Err(DecodeError::TruncatedStream);
        }
        let p = self.pos;
        let v = (self.data[p] as u16) * 256 + (self.data[p + 1] as u16);
        self.pos = p + 2;
        Ok(v)
    }

    /// Reads a big-endian 32-bit unsigned integer.
    pub fn read_u32(&mut self) -> (r: Result<u32, DecodeError>)
        requires
            old(self).wf(),
        ensures
            final(self).wf(),
            final(self).bytes() == old(self).bytes(),
            old(self).pos() + 4 <= old(self).bytes().len() ==> r is Ok && r->Ok_0
                == be_u32_at(old(self).bytes(), old(self).pos()) && final(self).pos() == old(
                self,
            ).pos() + 4,
            old(self).pos() + 4 > old(self).bytes().len() ==> r == Err::<u32, DecodeError>(
                DecodeError::TruncatedStream,
            ) && final(self).pos() == old(self).pos(),
    {
        if 4 > self.data.len() - self.pos {
            return Err(DecodeError::TruncatedStream);
        }
        let p = self.pos;
        let v = (self.data[p] as u32) * 16777216 + (self.data[p + 1] as u32) * 65536
            + (self.data[p + 2] as u32) * 256 + (self.data[p + 3] as u32);
        self.pos = p + 4;
        Ok(v)
    }

    /// Discards exactly `n` bytes, or fails without moving when fewer remain.
    pub fn skip(&mut self, n: u64) -> (r: Result<(), DecodeError>)
        requires
            old(self).wf(),
        ensures
            final(self).wf(),
            final(self).bytes() == old(self).bytes(),
            old(self).pos() + n <= old(self).bytes().len() ==> r is Ok && final(self).pos() == old(
                self,
            ).pos() + n,
            old(self).pos() + n > old(self).bytes().len() ==> r == Err::<(), DecodeError>(
                DecodeError::TruncatedStream,
            ) && final(self).pos() == old(self).pos(),
    {
        let left = self.data.len() - self.pos;
        if n > left as u64 {
            return Err(DecodeError::TruncatedStream);
        }
        self.pos = self.pos + n as usize;
        Ok(())
    }

    /// Takes every byte that remains; this never fails.
    pub fn read_to_end(&mut self) -> (r: Vec<u8>)
        requires
            old(self).wf(),
        ensures
            final(self).wf(),
            final(self).bytes() == old(self).bytes(),
            r@ == old(self).rest(),
            final(self).pos() == old(self).bytes().len(),
    {
        let n = self.data.len() - self.pos;
        let r = self.read_exact(n);
        match r {
            Ok(v) => v,
            Err(_) => Vec::new(),
        }
    }
}

} // verus!
