use vstd::prelude::*;
use crate::errors::Error;

verus! {

/// The 16-bit little-endian integer stored at index `i` of `d`.
pub open spec fn le16_at(d: Seq<u8>, i: int) -> u16
    recommends
        0 <= i,
        i + 2 <= d.len(),
{
    (d[i] + d[i + 1] * 0x100) as u16
}

/// The 32-bit little-endian integer stored at index `i` of `d`.
pub open spec fn le32_at(d: Seq<u8>, i: int) -> u32
    recommends
        0 <= i,
        i + 4 <= d.len(),
{
    (d[i] + d[i + 1] * 0x100 + d[i + 2] * 0x10000 + d[i + 3] * 0x1000000) as u32
}

/// A forward-only cursor over an in-memory byte buffer.
///
/// This is the byte-stream collaborator of every container reader in this
/// crate: it offers exact-length reads and fixed-width little-endian
/// integer reads over a forward cursor with position tracking. It never
/// seeks backward. A read that would run past the end of the buffer fails
/// with `Error::Truncated` and leaves the cursor where it was.
pub struct ByteStream {
    data: Vec<u8>,
    pos: usize,
}

impl ByteStream {
    /// The whole underlying buffer; reads never change it.
    pub closed spec fn bytes(&self) -> Seq<u8> {
        self.data@
    }

    /// The cursor position, as an offset into `bytes()`.
    pub closed spec fn pos(&self) -> int {
        self.pos as int
    }

    /// The cursor never lies past the end of the buffer.
    pub open spec fn wf(&self) -> bool {
        0 <= self.pos() <= self.bytes().len()
    }

    /// How many bytes remain in front of the cursor.
    pub open spec fn remaining(&self) -> int {
        self.bytes().len() - self.pos()
    }

    pub fn new(data: Vec<u8>) -> (s: Self)
        ensures
            s.wf(),
            s.bytes() == data@,
            s.pos() == 0,
    {
        ByteStream { data, pos: 0 }
    }

    pub fn position(&self) -> (r: usize)
        ensures
            r == self.pos(),
    {
        self.pos
    }

    /// Read one byte and advance the cursor past it.
    pub fn read_u8(&mut self) -> (r: Result<u8, Error>)
        requires
            old(self).wf(),
        ensures
            final(self).wf(),
            final(self).bytes() == old(self).bytes(),
            if old(self).remaining() >= 1 {
                r == Ok::<u8, Error>(old(self).bytes()[old(self).pos()])
                    && final(self).pos() == old(self).pos() + 1
            } else {
                r == Err::<u8, Error>(Error::Truncated) && final(self).pos() == old(self).pos()
            },
    {
        if self.pos < self.data.len() {
            let b = self.data[self.pos];
            self.pos = self.pos + 1;
            Ok(b)
        } else {
            Err(Error::Truncated)
        }
    }

    /// Read a 16-bit little-endian integer.
    pub fn read_u16(&mut self) -> (r: Result<u16, Error>)
        requires
            old(self).wf(),
        ensures
            final(self).wf(),
            final(self).bytes() == old(self).bytes(),
            if old(self).remaining() >= 2 {
                r == Ok::<u16, Error>(le16_at(old(self).bytes(), old(self).pos()))
                    && final(self).pos() == old(self).pos() + 2
            } else {
                r == Err::<u16, Error>(Error::Truncated) && final(self).pos() == old(self).pos()
            },
    {
        if self.data.len() - self.pos >= 2 {
            let b0 = self.data[self.pos];
            let b1 = self.data[self.pos + 1];
            self.pos = self.pos + 2;
            Ok((b0 as u16) + (b1 as u16) * 0x100)
        } else {
            Err(Error::Truncated)
        }
    }

    /// Read a 32-bit little-endian integer.
    pub fn read_u32(&mut self) -> (r: Result<u32, Error>)
        requires
            old(self).wf(),
        ensures
            final(self).wf(),
            final(self).bytes() == old(self).bytes(),
            if old(self).remaining() >= 4 {
                r == Ok::<u32, Error>(le32_at(old(self).bytes(), old(self).pos()))
                    && final(self).pos() == old(self).pos() + 4
            } else {
                r == Err::<u32, Error>(Error::Truncated) && final(self).pos() == old(self).pos()
            },
    {
        if self.data.len() - self.pos >= 4 {
            let b0 = self.data[self.pos];
            let b1 = self.data[self.pos + 1];
            let b2 = self.data[self.pos + 2];
            let b3 = self.data[self.pos + 3];
            self.pos = self.pos + 4;
            Ok((b0 as u32) + (b1 as u32) * 0x100 + (b2 as u32) * 0x10000 + (b3 as u32)
                * 0x1000000)
        } else {
            Err(Error::Truncated)
        }
    }

    /// Read four raw bytes, the width of a chunk identifier or form tag.
    pub fn read_quad_bytes(&mut self) -> (r: Result<[u8; 4], Error>)
        requires
            old(self).wf(),
        ensures
            final(self).wf(),
            final(self).bytes() == old(self).bytes(),
            match r {
                Ok(q) => old(self).remaining() >= 4 && q@ == old(self).bytes().subrange(
                    old(self).pos(),
                    old(self).pos() + 4,
                ) && final(self).pos() == old(self).pos() + 4,
                Err(e) => old(self).remaining() < 4 && e == Error::Truncated && final(self).pos()
                    == old(self).pos(),
            },
    {
        if self.data.len() - self.pos >= 4 {
            let b0 = self.data[self.pos];
            let b1 = self.data[self.pos + 1];
            let b2 = self.data[self.pos + 2];
            let b3 = self.data[self.pos + 3];
            self.pos = self.pos + 4;
            let q = [b0, b1, b2, b3];
            proof {
                assert(q@ =~= old(self).bytes().subrange(old(self).pos(), old(self).pos() + 4));
            }
            Ok(q)
        } else {
            Err(Error::Truncated)
        }
    }

    /// Read exactly `n` raw bytes into a fresh buffer.
    pub fn read_bytes(&mut self, n: u32) -> (r: Result<Vec<u8>, Error>)
        requires
            old(self).wf(),
        ensures
            final(self).wf(),
            final(self).bytes() == old(self).bytes(),
            match r {
                Ok(v) => old(self).remaining() >= n && v@ == old(self).bytes().subrange(
                    old(self).pos(),
                    old(self).pos() + n,
                ) && final(self).pos() == old(self).pos() + n,
                Err(e) => old(self).remaining() < n && e == Error::Truncated && final(self).pos()
                    == old(self).pos(),
            },
    {
        if (self.data.len() - self.pos) as u64 >= n as u64 {
            let mut v: Vec<u8> = Vec::new();
            let mut i: usize = 0;
            let n_us = n as usize;
            let ghost pre = *self;
            while i < n_us
                invariant
                    *self == pre,
                    self.wf(),
                    0 <= i <= n_us,
                    n_us == n as usize,
                    self.pos() + n_us <= self.bytes().len(),
                    self.bytes().len() <= usize::MAX,
                    v@ =~= self.bytes().subrange(self.pos(), self.pos() + i),
                decreases n_us - i,
            {
                let b = self.data[self.pos + i];
                v.push(b);
                i = i + 1;
                proof {
                    assert(v@ =~= self.bytes().subrange(self.pos(), self.pos() + i));
                }
            }
            self.pos = self.pos + n_us;
            Ok(v)
        } else {
            Err(Error::Truncated)
        }
    }

    /// Read every byte from the cursor to the end of the buffer.
    pub fn read_to_end(&mut self) -> (r: Vec<u8>)
        requires
            old(self).wf(),
        ensures
            final(self).wf(),
            final(self).bytes() == old(self).bytes(),
            r@ == old(self).bytes().subrange(old(self).pos(), old(self).bytes().len() as int),
            final(self).pos() == final(self).bytes().len(),
    {
        let mut v: Vec<u8> = Vec::new();
        while self.pos < self.data.len()
            invariant
                self.wf(),
                self.bytes() == old(self).bytes(),
                old(self).pos() <= self.pos() <= self.bytes().len(),
                v@ =~= self.bytes().subrange(old(self).pos(), self.pos()),
            decreases self.bytes().len() - self.pos(),
        {
            let b = self.data[self.pos];
            v.push(b);
            self.pos = self.pos + 1;
            proof {
                assert(v@ =~= self.bytes().subrange(old(self).pos(), self.pos()));
            }
        }
        proof {
            assert(v@ =~= old(self).bytes().subrange(
                old(self).pos(),
                old(self).bytes().len() as int,
            ));
        }
        v
    }

    /// Advance the cursor past `n` bytes without inspecting them.
    pub fn ignore_bytes(&mut self, n: u32) -> (r: Result<(), Error>)
        requires
            old(self).wf(),
        ensures
            final(self).wf(),
            final(self).bytes() == old(self).bytes(),
            if old(self).remaining() >= n {
                r == Ok::<(), Error>(()) && final(self).pos() == old(self).pos() + n
            } else {
                r == Err::<(), Error>(Error::Truncated) && final(self).pos() == old(self).pos()
            },
    {
        if (self.data.len() - self.pos) as u64 >= n as u64 {
            self.pos = self.pos + n as usize;
            Ok(())
        } else {
            Err(Error::Truncated)
        }
    }
}

} // verus!
