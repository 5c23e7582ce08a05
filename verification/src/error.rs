//! The failures that decoding can report.

use vstd::prelude::*;
use crate::opcode::Opcode;

verus! {

/// What a template asks for at a fixed position of a script.
#[derive(Debug, Clone, Copy, PartialEq, Eq, Structural)]
pub enum Expected {
    /// This opcode and no other.
    Exactly(Opcode),
    /// A push of 20 or of 32 bytes, as it follows the zero opcode of a
    /// witness program.
    WitnessProgramPush,
    /// One of the small-integer opcodes for 1 to 16, as the threshold of a
    /// multisignature script.
    MultisigThreshold,
}

/// Why a byte sequence could not be decoded. Every failure ends the call
/// that met it; nothing is retried and no partial result is handed out.
#[derive(Debug, Clone, Copy, PartialEq, Eq, Structural)]
pub enum DecodeError {
    /// The input ended before a field was complete.
    UnexpectedEof,
    /// Something other than a push opcode stood where data was due, or the
    /// mnemonic of a byte outside the opcode table was asked for.
    UnsupportedOpcode,
    /// The opcode at a fixed position of the chosen template is not the one
    /// that the template has there.
    TemplateMismatch { expected: Expected, found_byte: u8 },
    /// The leading opcodes begin none of the known templates.
    UnrecognizedTemplate,
    /// Between threshold and key count of a multisignature script stood
    /// something other than a 65-byte key push or a small-integer opcode.
    InvalidMultisigBody,
    /// A multisignature script declares another number of keys than it holds.
    MultisigKeyCountMismatch,
    /// A multisignature script asks for more signatures than it has keys.
    MultisigThresholdExceedsKeys,
    /// A compact-size integer was asked for in a width other than 1, 2, 4 or
    /// 8 bytes.
    UnsupportedLength,
}

} // verus!
