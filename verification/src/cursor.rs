//! A read position over a borrowed byte buffer.

use vstd::prelude::*;
use vstd::slice::slice_subrange;
use crate::error::DecodeError;

verus! {

/// A read-only view of a byte buffer together with the offset of the next
/// byte to read. The offset is the only state that changes while decoding.
///
/// The offset may lie past the end of the buffer; every read from there
/// fails with [`DecodeError::UnexpectedEof`].
#[derive(Debug, Clone, Copy)]
pub struct ByteCursor<'a> {
    bytes: &'a [u8],
    pos: usize,
}

impl<'a> ByteCursor<'a> {
    /// The whole buffer, read or not.
    pub closed spec fn data(&self) -> Seq<u8> {
        self.bytes@
    }

    /// The offset of the next byte to read.
    pub closed spec fn offset(&self) -> int {
        self.pos as int
    }

    /// The bytes that have not been read yet: none where the offset lies
    /// past the end.
    pub open spec fn spec_rest(&self) -> Seq<u8> {
        if self.offset() <= self.data().len() {
            self.data().skip(self.offset())
        } else {
            Seq::empty()
        }
    }

    /// The number of bytes from the offset to the end of the buffer.
    pub open spec fn spec_remaining(&self) -> int {
        self.spec_rest().len() as int
    }

    /// Reading `n` bytes, for `n` of 1 or more, succeeds exactly where the
    /// buffer holds `n` bytes from the offset on, and then yields them.
    pub proof fn lemma_window(&self, n: int)
        requires
            1 <= n,
        ensures
            0 <= self.offset() <= usize::MAX,
            n <= self.spec_remaining() <==> self.offset() + n <= self.data().len(),
            self.offset() + n <= self.data().len() ==> self.spec_rest().take(n)
                == self.data().subrange(self.offset(), self.offset() + n),
    {
        if self.offset() + n <= self.data().len() {
            assert(self.spec_rest().take(n) =~= self.data().subrange(
                self.offset(),
                self.offset() + n,
            ));
        }
    }

    /// From an offset within the buffer, reading `n` bytes succeeds exactly
    /// where the buffer holds `n` bytes from there on, and then yields them;
    /// this holds of an empty read too.
    pub proof fn lemma_window_within(&self, n: int)
        requires
            0 <= n,
            self.offset() <= self.data().len(),
        ensures
            0 <= self.offset() <= usize::MAX,
            n <= self.spec_remaining() <==> self.offset() + n <= self.data().len(),
            self.offset() + n <= self.data().len() ==> self.spec_rest().take(n)
                == self.data().subrange(self.offset(), self.offset() + n),
    {
        if self.offset() + n <= self.data().len() {
            assert(self.spec_rest().take(n) =~= self.data().subrange(
                self.offset(),
                self.offset() + n,
            ));
        }
    }

    /// A cursor at the start of `bytes`.
    pub fn new(bytes: &'a [u8]) -> (cursor: Self)
        ensures
            cursor.data() == bytes@,
            cursor.offset() == 0,
    {
        ByteCursor { bytes, pos: 0 }
    }

    /// The offset of the next byte to read.
    pub fn position(&self) -> (pos: usize)
        ensures
            pos == self.offset(),
    {
        self.pos
    }

    /// Moves the cursor to `pos`, which may be any offset, also one past the
    /// end of the buffer.
    pub fn set_position(&mut self, pos: usize)
        ensures
            final(self).data() == old(self).data(),
            final(self).offset() == pos,
    {
        self.pos = pos;
    }

    /// Moves the cursor back to `offset`, a position that it has already
    /// passed.
    pub fn rewind_to(&mut self, offset: usize)
        requires
            offset <= old(self).offset(),
        ensures
            final(self).data() == old(self).data(),
            final(self).offset() == offset,
    {
        self.pos = offset;
    }

    /// The number of bytes that can still be read.
    pub fn remaining(&self) -> (n: usize)
        ensures
            n == self.spec_remaining(),
    {
        let len: usize = self.bytes.len();
        if self.pos <= len {
            len - self.pos
        } else {
            0
        }
    }

    /// The next `n` bytes, without moving the cursor.
    pub fn peek(&self, n: usize) -> (read: Result<&'a [u8], DecodeError>)
        ensures
            match read {
                Ok(slice) => n <= self.spec_remaining() && slice@ == self.spec_rest().take(
                    n as int,
                ),
                Err(e) => n > self.spec_remaining() && e == DecodeError::UnexpectedEof,
            },
    {
        let len: usize = self.bytes.len();
        let start: usize = if self.pos <= len {
            self.pos
        } else {
            len
        };
        if n <= len - start {
            let slice = slice_subrange(self.bytes, start, start + n);
            assert(slice@ =~= self.spec_rest().take(n as int));
            Ok(slice)
        } else {
            Err(DecodeError::UnexpectedEof)
        }
    }

    /// Reads the next `n` bytes and moves past them. Where fewer than `n`
    /// bytes are left the read fails and the cursor stays where it was.
    pub fn read_exact(&mut self, n: usize) -> (read: Result<&'a [u8], DecodeError>)
        ensures
            final(self).data() == old(self).data(),
            match read {
                Ok(slice) => n <= old(self).spec_remaining() && slice@ == old(
                    self,
                ).spec_rest().take(n as int) && final(self).offset() == old(self).offset() + n,
                Err(e) => n > old(self).spec_remaining() && e == DecodeError::UnexpectedEof
                    && final(self).offset() == old(self).offset(),
            },
    {
        let len: usize = self.bytes.len();
        match self.peek(n) {
            Ok(slice) => {
                assert(self.pos > len ==> n == 0);
                assert(self.pos <= len ==> self.pos + n <= len);
                self.pos = self.pos + n;
                Ok(slice)
            },
            Err(e) => Err(e),
        }
    }

    /// Reads one byte and moves past it.
    pub fn read_byte(&mut self) -> (read: Result<u8, DecodeError>)
        ensures
            final(self).data() == old(self).data(),
            match read {
                Ok(byte) => 1 <= old(self).spec_remaining() && byte == old(self).data()[old(
                    self,
                ).offset()] && final(self).offset() == old(self).offset() + 1,
                Err(e) => old(self).spec_remaining() < 1 && e == DecodeError::UnexpectedEof
                    && final(self).offset() == old(self).offset(),
            },
    {
        if 1 <= self.remaining() {
            let byte: u8 = self.bytes[self.pos];
            self.pos = self.pos + 1;
            Ok(byte)
        } else {
            Err(DecodeError::UnexpectedEof)
        }
    }
}

} // verus!
