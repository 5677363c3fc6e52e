//! Sequential reader over a byte buffer, used to read BEAM files.
use vstd::prelude::*;
use crate::fail::ReadError;

verus! {

/// Big-endian 16-bit value of `s[p..p+2]`.
pub open spec fn be_u16(s: Seq<u8>, p: int) -> int {
    s[p] * 256 + s[p + 1]
}

/// Big-endian 32-bit value of `s[p..p+4]`.
pub open spec fn be_u32(s: Seq<u8>, p: int) -> int {
    ((s[p] * 256 + s[p + 1]) * 256 + s[p + 2]) * 256 + s[p + 3]
}

/// Whether `s` holds the bytes of valid UTF-8 text.
#[verifier::external_body]
fn utf8_is_valid(s: &[u8]) -> (r: bool)
    ensures
        r == vstd::utf8::valid_utf8(s@),
{
    std::str::from_utf8(s).is_ok()
}

/// Reader state: the bytes and the read position.
pub struct BinaryReader {
    pub data: Vec<u8>,
    pub pos: usize,
}

impl BinaryReader {
    /// The position never passes the end of the data.
    pub open spec fn wf(&self) -> bool {
        self.pos <= self.data@.len()
    }

    /// A reader at the start of `data`.
    pub fn from_bytes(data: Vec<u8>) -> (r: BinaryReader)
        ensures
            r.wf(),
            r.data@ == data@,
            r.pos == 0,
    {
        BinaryReader { data, pos: 0 }
    }

    /// Whether all data has been read.
    pub fn eof(&self) -> (r: bool)
        requires
            self.wf(),
        ensures
            r == (self.pos == self.data@.len()),
    {
        self.pos >= self.data.len()
    }

    /// The read position.
    pub fn pos(&self) -> (r: usize)
        ensures
            r == self.pos,
    {
        self.pos
    }

    /// Go back to the start.
    pub fn reset(&mut self)
        ensures
            final(self).wf(),
            final(self).data@ == old(self).data@,
            final(self).pos == 0,
    {
        self.pos = 0;
    }

    /// Move to position `p`, or to the end if `p` is past it.
    pub fn seek(&mut self, p: usize)
        ensures
            final(self).wf(),
            final(self).data@ == old(self).data@,
            final(self).pos == if p <= old(self).data@.len() { p as int } else { old(self).data@.len() as int },
    {
        if p <= self.data.len() {
            self.pos = p;
        } else {
            self.pos = self.data.len();
        }
    }

    /// Move forward by `n` bytes, stopping at the end.
    pub fn skip(&mut self, n: usize)
        requires
            old(self).wf(),
        ensures
            final(self).wf(),
            final(self).data@ == old(self).data@,
            final(self).pos == if old(self).pos + n <= old(self).data@.len() {
                old(self).pos + n
            } else {
                old(self).data@.len() as int
            },
    {
        if n <= self.data.len() - self.pos {
            self.pos = self.pos + n;
        } else {
            self.pos = self.data.len();
        }
    }

    /// Read one byte.
    pub fn read_u8(&mut self) -> (r: Result<u8, ReadError>)
        requires
            old(self).wf(),
        ensures
            final(self).wf(),
            final(self).data@ == old(self).data@,
            old(self).pos < old(self).data@.len() ==> r == Ok::<u8, ReadError>(old(self).data@[old(self).pos as int])
                && final(self).pos == old(self).pos + 1,
            old(self).pos >= old(self).data@.len() ==> r == Err::<u8, ReadError>(ReadError::PrematureEOF)
                && final(self).pos == old(self).pos,
    {
        if self.pos < self.data.len() {
            let v = self.data[self.pos];
            self.pos = self.pos + 1;
            Ok(v)
        } else {
            Err(ReadError::PrematureEOF)
        }
    }

    /// Read a big-endian 16-bit value.
    pub fn read_u16be(&mut self) -> (r: Result<u16, ReadError>)
        requires
            old(self).wf(),
        ensures
            final(self).wf(),
            final(self).data@ == old(self).data@,
            old(self).pos + 2 <= old(self).data@.len() ==> r is Ok && r->Ok_0 == be_u16(old(self).data@, old(self).pos as int)
                && final(self).pos == old(self).pos + 2,
            old(self).pos + 2 > old(self).data@.len() ==> r == Err::<u16, ReadError>(ReadError::PrematureEOF)
                && final(self).pos == old(self).pos,
    {
        if self.data.len() - self.pos >= 2 {
            let b0 = self.data[self.pos] as u16;
            let b1 = self.data[self.pos + 1] as u16;
            self.pos = self.pos + 2;
            Ok(b0 * 256 + b1)
        } else {
            Err(ReadError::PrematureEOF)
        }
    }

    /// Read a big-endian 32-bit value.
    pub fn read_u32be(&mut self) -> (r: Result<u32, ReadError>)
        requires
            old(self).wf(),
        ensures
            final(self).wf(),
            final(self).data@ == old(self).data@,
            old(self).pos + 4 <= old(self).data@.len() ==> r is Ok && r->Ok_0 == be_u32(old(self).data@, old(self).pos as int)
                && final(self).pos == old(self).pos + 4,
            old(self).pos + 4 > old(self).data@.len() ==> r == Err::<u32, ReadError>(ReadError::PrematureEOF)
                && final(self).pos == old(self).pos,
    {
        if self.data.len() - self.pos >= 4 {
            let b0 = self.data[self.pos] as u32;
            let b1 = self.data[self.pos + 1] as u32;
            let b2 = self.data[self.pos + 2] as u32;
            let b3 = self.data[self.pos + 3] as u32;
            self.pos = self.pos + 4;
            Ok(((b0 * 256 + b1) * 256 + b2) * 256 + b3)
        } else {
            Err(ReadError::PrematureEOF)
        }
    }

    /// Read `n` bytes.
    pub fn read_bytes(&mut self, n: usize) -> (r: Result<Vec<u8>, ReadError>)
        requires
            old(self).wf(),
        ensures
            final(self).wf(),
            final(self).data@ == old(self).data@,
            old(self).pos + n <= old(self).data@.len() ==> r is Ok
                && r->Ok_0@ == old(self).data@.subrange(old(self).pos as int, old(self).pos + n)
                && final(self).pos == old(self).pos + n,
            old(self).pos + n > old(self).data@.len() ==> r is Err && r->Err_0 == ReadError::PrematureEOF
                && final(self).pos == old(self).pos,
    {
        if n > self.data.len() - self.pos {
            return Err(ReadError::PrematureEOF);
        }
        let start = self.pos;
        assert(self.data@.len() <= usize::MAX);
        let mut out: Vec<u8> = Vec::with_capacity(n);
        let mut i: usize = 0;
        while i < n
            invariant
                self.wf(),
                self.pos == start,
                start + n <= self.data@.len(),
                self.data@.len() <= usize::MAX,
                i <= n,
                out@ == self.data@.subrange(start as int, start + i),
            decreases n - i,
        {
            out.push(self.data[start + i]);
            i = i + 1;
            assert(out@ =~= self.data@.subrange(start as int, start + i));
        }
        self.pos = start + n;
        Ok(out)
    }

    /// Read `expected.len()` bytes and check that they equal `expected`.
    pub fn ensure_bytes(&mut self, expected: &[u8]) -> (r: Result<(), ReadError>)
        requires
            old(self).wf(),
        ensures
            final(self).wf(),
            final(self).data@ == old(self).data@,
            old(self).pos + expected@.len() > old(self).data@.len() ==> r == Err::<(), ReadError>(ReadError::PrematureEOF),
            old(self).pos + expected@.len() <= old(self).data@.len() ==> {
                &&& final(self).pos == old(self).pos + expected@.len()
                &&& (r is Ok <==> old(self).data@.subrange(old(self).pos as int, old(self).pos + expected@.len()) == expected@)
                &&& (r is Err ==> r->Err_0 == ReadError::UnexpectedBytes)
            },
    {
        let got = self.read_bytes(expected.len());
        match got {
            Err(e) => Err(e),
            Ok(bytes) => {
                let mut i: usize = 0;
                while i < expected.len()
                    invariant
                        self.wf(),
                        self.data@ == old(self).data@,
                        self.pos == old(self).pos + expected@.len(),
                        old(self).pos + expected@.len() <= old(self).data@.len(),
                        bytes@ == old(self).data@.subrange(old(self).pos as int, old(self).pos + expected@.len()),
                        bytes@.len() == expected@.len(),
                        i <= expected@.len(),
                        forall|j: int| 0 <= j < i ==> bytes@[j] == expected@[j],
                    decreases expected@.len() - i,
                {
                    if bytes[i] != expected[i] {
                        assert(bytes@[i as int] != expected@[i as int]);
                        return Err(ReadError::UnexpectedBytes);
                    }
                    i = i + 1;
                }
                assert(bytes@ =~= expected@);
                Ok(())
            },
        }
    }

    /// Read a string of `n` bytes, one character per byte (Latin-1).
    pub fn read_str_latin1(&mut self, n: usize) -> (r: Result<Vec<u8>, ReadError>)
        requires
            old(self).wf(),
        ensures
            final(self).wf(),
            final(self).data@ == old(self).data@,
            old(self).pos + n <= old(self).data@.len() ==> r is Ok
                && r->Ok_0@ == old(self).data@.subrange(old(self).pos as int, old(self).pos + n)
                && final(self).pos == old(self).pos + n,
            old(self).pos + n > old(self).data@.len() ==> r is Err && r->Err_0 == ReadError::PrematureEOF
                && final(self).pos == old(self).pos,
    {
        self.read_bytes(n)
    }

    /// Read a UTF-8 string of `n` bytes.
    pub fn read_str_utf8(&mut self, n: usize) -> (r: Result<Vec<u8>, ReadError>)
        requires
            old(self).wf(),
        ensures
            final(self).wf(),
            final(self).data@ == old(self).data@,
            old(self).pos + n <= old(self).data@.len() ==> final(self).pos == old(self).pos + n && ({
                let s = old(self).data@.subrange(old(self).pos as int, old(self).pos + n);
                if vstd::utf8::valid_utf8(s) {
                    r is Ok && r->Ok_0@ == s
                } else {
                    r is Err && r->Err_0 == ReadError::BadUtf8
                }
            }),
            old(self).pos + n > old(self).data@.len() ==> r is Err && r->Err_0 == ReadError::PrematureEOF
                && final(self).pos == old(self).pos,
    {
        let bytes = self.read_bytes(n)?;
        if utf8_is_valid(bytes.as_slice()) {
            Ok(bytes)
        } else {
            Err(ReadError::BadUtf8)
        }
    }
}

} // verus!
