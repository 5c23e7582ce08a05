//! The opcodes of the standard script templates.

use vstd::prelude::*;
use vstd::slice::slice_to_vec;
use vstd::string::StringExecFns;
use crate::cursor::ByteCursor;
use crate::error::DecodeError;
use crate::text::{append_decimal, decimal};

verus! {

/// One byte of a script, read as an instruction.
#[derive(Debug, Clone, Copy, PartialEq, Eq, PartialOrd, Ord, Structural)]
#[allow(non_camel_case_types)]
pub enum Opcode {
    OP_HASH160,
    OP_CHECKSIG,
    OP_EQUAL,
    OP_EQUALVERIFY,
    OP_CHECKMULTISIG,
    OP_DUP,
    OP_RETURN,
    /// The empty push, byte 0.
    OP_0,
    /// The small integer 1, byte 81.
    OP_1,
    /// A small integer from 2 to 16, bytes 82 to 96.
    Num(u8),
    /// The next `n` bytes of the script are data, for `n` from 1 to 75.
    PushBytes(u8),
    /// Any byte that the table does not hold.
    UnsupportedOpcode,
}

/// The opcode that a byte stands for. Every byte stands for exactly one.
pub open spec fn decode_opcode(byte: u8) -> Opcode {
    if byte == 0 {
        Opcode::OP_0
    } else if 1 <= byte <= 75 {
        Opcode::PushBytes(byte)
    } else if byte == 81 {
        Opcode::OP_1
    } else if 82 <= byte <= 96 {
        Opcode::Num((byte - 80) as u8)
    } else if byte == 106 {
        Opcode::OP_RETURN
    } else if byte == 118 {
        Opcode::OP_DUP
    } else if byte == 135 {
        Opcode::OP_EQUAL
    } else if byte == 136 {
        Opcode::OP_EQUALVERIFY
    } else if byte == 169 {
        Opcode::OP_HASH160
    } else if byte == 172 {
        Opcode::OP_CHECKSIG
    } else if byte == 174 {
        Opcode::OP_CHECKMULTISIG
    } else {
        Opcode::UnsupportedOpcode
    }
}

/// The canonical name of an opcode. The unsupported opcode has none: for it
/// the text is empty.
pub open spec fn mnemonic(opcode: Opcode) -> Seq<char> {
    match opcode {
        Opcode::OP_HASH160 => "OP_HASH160"@,
        Opcode::OP_CHECKSIG => "OP_CHECKSIG"@,
        Opcode::OP_EQUAL => "OP_EQUAL"@,
        Opcode::OP_EQUALVERIFY => "OP_EQUALVERIFY"@,
        Opcode::OP_CHECKMULTISIG => "OP_CHECKMULTISIG"@,
        Opcode::OP_DUP => "OP_DUP"@,
        Opcode::OP_RETURN => "OP_RETURN"@,
        Opcode::OP_0 => "OP_0"@,
        Opcode::OP_1 => "OP_1"@,
        Opcode::Num(n) => "OP_"@ + decimal(n as nat),
        Opcode::PushBytes(n) => "OP_PUSHBYTES_"@ + decimal(n as nat),
        Opcode::UnsupportedOpcode => Seq::empty(),
    }
}

impl Opcode {
    /// Whether the operand lies in the range that the table gives its
    /// variant: 1 to 75 for a push, 2 to 16 for a small integer.
    pub open spec fn well_formed(&self) -> bool {
        match *self {
            Opcode::PushBytes(n) => 1 <= n <= 75,
            Opcode::Num(n) => 2 <= n <= 16,
            _ => true,
        }
    }

    /// Reads a byte as an opcode.
    pub fn from_byte(byte: u8) -> (opcode: Self)
        ensures
            opcode == decode_opcode(byte),
            opcode.well_formed(),
    {
        match byte {
            169 => Self::OP_HASH160,
            1..=75 => Self::PushBytes(byte),
            172 => Self::OP_CHECKSIG,
            135 => Self::OP_EQUAL,
            136 => Self::OP_EQUALVERIFY,
            174 => Self::OP_CHECKMULTISIG,
            118 => Self::OP_DUP,
            106 => Self::OP_RETURN,
            0 => Self::OP_0,
            81 => Self::OP_1,
            82..=96 => Self::Num(byte - 80),
            _ => Self::UnsupportedOpcode,
        }
    }

    /// The canonical name of the opcode. Only the unsupported opcode has
    /// none; asking for it is the one way in which a byte outside the table
    /// becomes a reported failure.
    pub fn to_mnemonic(&self) -> (name: Result<String, DecodeError>)
        ensures
            match name {
                Ok(text) => *self != Opcode::UnsupportedOpcode && text@ == mnemonic(*self),
                Err(e) => *self == Opcode::UnsupportedOpcode && e
                    == DecodeError::UnsupportedOpcode,
            },
    {
        let fixed: &str = match *self {
            Opcode::OP_HASH160 => "OP_HASH160",
            Opcode::OP_CHECKSIG => "OP_CHECKSIG",
            Opcode::OP_EQUAL => "OP_EQUAL",
            Opcode::OP_EQUALVERIFY => "OP_EQUALVERIFY",
            Opcode::OP_CHECKMULTISIG => "OP_CHECKMULTISIG",
            Opcode::OP_DUP => "OP_DUP",
            Opcode::OP_RETURN => "OP_RETURN",
            Opcode::OP_0 => "OP_0",
            Opcode::OP_1 => "OP_1",
            Opcode::Num(n) => {
                let mut text = String::from_str("OP_");
                append_decimal(&mut text, n);
                return Ok(text);
            },
            Opcode::PushBytes(n) => {
                let mut text = String::from_str("OP_PUSHBYTES_");
                append_decimal(&mut text, n);
                return Ok(text);
            },
            Opcode::UnsupportedOpcode => {
                return Err(DecodeError::UnsupportedOpcode);
            },
        };
        Ok(String::from_str(fixed))
    }

    /// Reads the data that a push opcode announces: for `PushBytes(n)` the
    /// next `n` bytes. Any other opcode announces none and is refused, with
    /// the cursor left where it was, as it is where the data is cut short.
    pub fn read_bytes(&self, bytes: &mut ByteCursor) -> (data: Result<Vec<u8>, DecodeError>)
        ensures
            final(bytes).data() == old(bytes).data(),
            match *self {
                Opcode::PushBytes(n) => match data {
                    Ok(read) => n <= old(bytes).spec_remaining() && read@ == old(
                        bytes,
                    ).spec_rest().take(n as int) && final(bytes).offset() == old(bytes).offset()
                        + n,
                    Err(e) => n > old(bytes).spec_remaining() && e == DecodeError::UnexpectedEof
                        && final(bytes).offset() == old(bytes).offset(),
                },
                _ => data == Err::<Vec<u8>, DecodeError>(DecodeError::UnsupportedOpcode)
                    && final(bytes).offset() == old(bytes).offset(),
            },
    {
        match *self {
            Opcode::PushBytes(n) => {
                match bytes.read_exact(n as usize) {
                    Ok(slice) => Ok(slice_to_vec(slice)),
                    Err(e) => Err(e),
                }
            },
            _ => Err(DecodeError::UnsupportedOpcode),
        }
    }
}

} // verus!
