//! Compact-size integers, the length prefixes of a transaction.

use vstd::prelude::*;
use crate::cursor::ByteCursor;
use crate::error::DecodeError;
use crate::le::{le_decode, le_value};

verus! {

/// The reading of compact-size integers.
#[derive(Debug, PartialEq, Eq, PartialOrd, Ord, Clone, Copy)]
pub struct VarInt;

/// The number of bytes that hold the integer whose first byte is `byte`:
/// the byte itself up to 252, and 2, 4 or 8 bytes behind the markers 253,
/// 254 and 255.
pub open spec fn varint_width(byte: u8) -> int {
    if byte <= 252 {
        1
    } else if byte == 253 {
        2
    } else if byte == 254 {
        4
    } else {
        8
    }
}

/// Whether an integer can be `width` bytes wide.
pub open spec fn is_width(width: int) -> bool {
    width == 1 || width == 2 || width == 4 || width == 8
}

/// Where the bytes of an integer of `width` bytes begin, for a cursor that
/// has just passed the first byte at `pos`: a width of 1 is that byte
/// itself, any other width follows it.
pub open spec fn field_start(width: int, pos: int) -> int {
    if width == 1 {
        pos - 1
    } else {
        pos
    }
}

impl VarInt {
    /// The width in bytes of the integer that `byte` begins.
    pub fn parse(byte: u8) -> (width: usize)
        ensures
            width == varint_width(byte),
            is_width(width as int),
    {
        match byte {
            0..=252 => 1,
            253 => 2,
            254 => 4,
            255 => 8,
        }
    }

    /// Reads an integer of `byte_len` bytes, little-endian, for a cursor that
    /// has just passed the integer's first byte. With a width of 1 that byte
    /// is the integer and is read again; the cursor must have passed it.
    /// Any other width than 1, 2, 4 or 8 is refused with the cursor where it
    /// was. A number too large for `usize` is cut to its low bits.
    pub fn integer(byte_len: usize, bytes: &mut ByteCursor) -> (value: Result<usize, DecodeError>)
        requires
            byte_len == 1 ==> old(bytes).offset() >= 1,
        ensures
            final(bytes).data() == old(bytes).data(),
            match value {
                Ok(number) => {
                    let start = field_start(byte_len as int, old(bytes).offset());
                    &&& is_width(byte_len as int)
                    &&& 0 <= start
                    &&& start + byte_len <= old(bytes).data().len()
                    &&& number == le_value(
                        old(bytes).data().subrange(start, start + byte_len),
                    ) as usize
                    &&& final(bytes).offset() == start + byte_len
                },
                Err(error) => if is_width(byte_len as int) {
                    let start = field_start(byte_len as int, old(bytes).offset());
                    &&& start + byte_len > old(bytes).data().len()
                    &&& error == DecodeError::UnexpectedEof
                    &&& final(bytes).offset() == start
                } else {
                    &&& error == DecodeError::UnsupportedLength
                    &&& final(bytes).offset() == old(bytes).offset()
                },
            },
    {
        if byte_len == 1 {
            let pos: usize = bytes.position();
            bytes.rewind_to(pos - 1);
        } else if byte_len != 2 && byte_len != 4 && byte_len != 8 {
            return Err(DecodeError::UnsupportedLength);
        }
        proof {
            bytes.lemma_window(byte_len as int);
        }
        let field = bytes.read_exact(byte_len)?;
        let number: u64 = le_decode(field);
        Ok(#[verifier::truncate] (number as usize))
    }
}

} // verus!
