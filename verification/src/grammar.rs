//! The standard script templates as a grammar over plain byte sequences.
//!
//! Each template is a function from a script and the offset at which the
//! template's own part begins to what decoding yields there: the tokens of
//! the script, or the failure, and in both cases the offset at which reading
//! stops. The decoders in [`crate::scripts`] are proved to compute exactly
//! these functions.

use vstd::prelude::*;
use crate::cursor::ByteCursor;
use crate::error::{DecodeError, Expected};
use crate::opcode::{decode_opcode, mnemonic, Opcode};
use crate::text::{hex_string, join_tokens};

verus! {

/// One token of a decoded script: an opcode, or the data that a push
/// carries.
pub enum Token {
    Op(Opcode),
    Data(Seq<u8>),
}

/// What decoding yields: the tokens in the order of the bytes they were read
/// from, or the failure; and the offset at which reading stopped.
pub struct Decoded {
    pub result: Result<Seq<Token>, DecodeError>,
    pub end: int,
}

/// Decoding succeeded with `tokens` and stopped at `end`.
pub open spec fn accept(tokens: Seq<Token>, end: int) -> Decoded {
    Decoded { result: Ok(tokens), end }
}

/// Decoding failed with `error` and stopped at `end`.
pub open spec fn reject(error: DecodeError, end: int) -> Decoded {
    Decoded { result: Err(error), end }
}

/// The text of one token: the opcode's name, or the data in hexadecimal.
pub open spec fn render(token: Token) -> Seq<char> {
    match token {
        Token::Op(opcode) => mnemonic(opcode),
        Token::Data(bytes) => hex_string(bytes),
    }
}

/// The texts of the tokens, in their order.
pub open spec fn render_all(tokens: Seq<Token>) -> Seq<Seq<char>> {
    Seq::new(tokens.len(), |i: int| render(tokens[i]))
}

/// The rendered script: the texts of the tokens joined by single spaces.
pub open spec fn script_text(tokens: Seq<Token>) -> Seq<char> {
    join_tokens(render_all(tokens))
}

/// Whether the result of a decoder is the one that the grammar gives: the
/// rendered tokens where the grammar accepts, the grammar's own failure
/// where it rejects.
pub open spec fn agrees(script: Result<String, DecodeError>, decoded: Decoded) -> bool {
    match script {
        Ok(text) => decoded.result is Ok && text@ == script_text(decoded.result->Ok_0),
        Err(error) => decoded.result == Err::<Seq<Token>, DecodeError>(error),
    }
}

/// Whether a decoder that began at `before` and ended at `after` did what
/// the grammar gives: it left the data alone, stopped where the grammar
/// stops, and returned what the grammar yields.
pub open spec fn follows(
    before: ByteCursor,
    after: ByteCursor,
    script: Result<String, DecodeError>,
    decoded: Decoded,
) -> bool {
    &&& after.data() == before.data()
    &&& after.offset() == decoded.end
    &&& agrees(script, decoded)
}

/// Whether `n` bytes can be read from `pos`.
pub open spec fn has_bytes(s: Seq<u8>, pos: int, n: int) -> bool {
    0 <= pos && pos + n <= s.len()
}

/// What stands in the way of reading `opcode` at `pos`, and where reading
/// stops on it: the end of the script, before the byte; or another byte,
/// after it. `None` where `opcode` is there.
pub open spec fn refusal(s: Seq<u8>, pos: int, opcode: Opcode) -> Option<Decoded> {
    if !has_bytes(s, pos, 1) {
        Some(reject(DecodeError::UnexpectedEof, pos))
    } else if decode_opcode(s[pos]) != opcode {
        Some(
            reject(
                DecodeError::TemplateMismatch {
                    expected: Expected::Exactly(opcode),
                    found_byte: s[pos],
                },
                pos + 1,
            ),
        )
    } else {
        None
    }
}

/// Pay to public key, from behind the 65-byte push: the key and `OP_CHECKSIG`.
pub open spec fn p2pk(s: Seq<u8>, pos: int) -> Decoded {
    if !has_bytes(s, pos, 65) {
        reject(DecodeError::UnexpectedEof, pos)
    } else if refusal(s, pos + 65, Opcode::OP_CHECKSIG) is Some {
        refusal(s, pos + 65, Opcode::OP_CHECKSIG)->Some_0
    } else {
        accept(
            seq![
                Token::Op(Opcode::PushBytes(65)),
                Token::Data(s.subrange(pos, pos + 65)),
                Token::Op(Opcode::OP_CHECKSIG),
            ],
            pos + 66,
        )
    }
}

/// Pay to public key hash, from behind `OP_DUP`: `OP_HASH160`, a push of
/// 20 bytes, `OP_EQUALVERIFY` and `OP_CHECKSIG`.
pub open spec fn p2pkh(s: Seq<u8>, pos: int) -> Decoded {
    if refusal(s, pos, Opcode::OP_HASH160) is Some {
        refusal(s, pos, Opcode::OP_HASH160)->Some_0
    } else if refusal(s, pos + 1, Opcode::PushBytes(20)) is Some {
        refusal(s, pos + 1, Opcode::PushBytes(20))->Some_0
    } else if !has_bytes(s, pos + 2, 20) {
        reject(DecodeError::UnexpectedEof, pos + 2)
    } else if refusal(s, pos + 22, Opcode::OP_EQUALVERIFY) is Some {
        refusal(s, pos + 22, Opcode::OP_EQUALVERIFY)->Some_0
    } else if refusal(s, pos + 23, Opcode::OP_CHECKSIG) is Some {
        refusal(s, pos + 23, Opcode::OP_CHECKSIG)->Some_0
    } else {
        accept(
            seq![
                Token::Op(Opcode::OP_DUP),
                Token::Op(Opcode::OP_HASH160),
                Token::Op(Opcode::PushBytes(20)),
                Token::Data(s.subrange(pos + 2, pos + 22)),
                Token::Op(Opcode::OP_EQUALVERIFY),
                Token::Op(Opcode::OP_CHECKSIG),
            ],
            pos + 24,
        )
    }
}

/// Pay to script hash, from behind `OP_HASH160`: a push of 20 bytes and
/// `OP_EQUAL`.
pub open spec fn p2sh(s: Seq<u8>, pos: int) -> Decoded {
    if refusal(s, pos, Opcode::PushBytes(20)) is Some {
        refusal(s, pos, Opcode::PushBytes(20))->Some_0
    } else if !has_bytes(s, pos + 1, 20) {
        reject(DecodeError::UnexpectedEof, pos + 1)
    } else if refusal(s, pos + 21, Opcode::OP_EQUAL) is Some {
        refusal(s, pos + 21, Opcode::OP_EQUAL)->Some_0
    } else {
        accept(
            seq![
                Token::Op(Opcode::OP_HASH160),
                Token::Op(Opcode::PushBytes(20)),
                Token::Data(s.subrange(pos + 1, pos + 21)),
                Token::Op(Opcode::OP_EQUAL),
            ],
            pos + 22,
        )
    }
}

/// A data carrier, from behind `OP_RETURN`: one push opcode and the bytes
/// that it announces. Anything but a push is refused as unsupported.
pub open spec fn data_carrier(s: Seq<u8>, pos: int) -> Decoded {
    if !has_bytes(s, pos, 1) {
        reject(DecodeError::UnexpectedEof, pos)
    } else {
        match decode_opcode(s[pos]) {
            Opcode::PushBytes(n) => if !has_bytes(s, pos + 1, n as int) {
                reject(DecodeError::UnexpectedEof, pos + 1)
            } else {
                accept(
                    seq![
                        Token::Op(Opcode::OP_RETURN),
                        Token::Op(Opcode::PushBytes(n)),
                        Token::Data(s.subrange(pos + 1, pos + 1 + n)),
                    ],
                    pos + 1 + n,
                )
            },
            _ => reject(DecodeError::UnsupportedOpcode, pos + 1),
        }
    }
}

/// A program of `n` bytes behind the two opcodes `first` and `PushBytes(n)`:
/// the body of the witness templates and of pay to taproot.
pub open spec fn program(s: Seq<u8>, pos: int, first: Opcode, n: u8) -> Decoded {
    if !has_bytes(s, pos, n as int) {
        reject(DecodeError::UnexpectedEof, pos)
    } else {
        accept(
            seq![
                Token::Op(first),
                Token::Op(Opcode::PushBytes(n)),
                Token::Data(s.subrange(pos, pos + n)),
            ],
            pos + n,
        )
    }
}

/// Pay to witness public key hash, from behind `OP_0` and the push opcode.
pub open spec fn p2wpkh(s: Seq<u8>, pos: int) -> Decoded {
    program(s, pos, Opcode::OP_0, 20)
}

/// Pay to witness script hash, from behind `OP_0` and the push opcode.
pub open spec fn p2wsh(s: Seq<u8>, pos: int) -> Decoded {
    program(s, pos, Opcode::OP_0, 32)
}

/// Pay to taproot, from behind `OP_1` and the push opcode.
pub open spec fn p2tr(s: Seq<u8>, pos: int) -> Decoded {
    program(s, pos, Opcode::OP_1, 32)
}

/// The number that a small-integer opcode stands for: 1 for `OP_1`, `n`
/// for `Num(n)`. No other opcode is a small integer.
pub open spec fn small_int(opcode: Opcode) -> Option<nat> {
    match opcode {
        Opcode::OP_1 => Some(1nat),
        Opcode::Num(n) => Some(n as nat),
        _ => None,
    }
}

/// The keys of a multisignature script and the opcode that ends them.
pub struct KeyRun {
    /// The keys in their order and the key-count opcode, or the failure.
    pub result: Result<(Seq<Seq<u8>>, Opcode), DecodeError>,
    /// The offset at which reading stopped.
    pub end: int,
}

/// `run` with `front` before its keys; a failed run stays as it is.
pub open spec fn with_keys(front: Seq<Seq<u8>>, run: KeyRun) -> KeyRun {
    match run.result {
        Ok((keys, count)) => KeyRun { result: Ok((front + keys, count)), end: run.end },
        Err(_) => run,
    }
}

/// The body of a multisignature script from `pos`: pushes of 65-byte keys
/// up to the first small-integer opcode, which declares their number. The
/// opcode that is read decides whether data or the end follows, so the run
/// is known only one opcode at a time.
pub open spec fn key_run(s: Seq<u8>, pos: int) -> KeyRun
    decreases s.len() - pos,
{
    if !has_bytes(s, pos, 1) {
        KeyRun { result: Err(DecodeError::UnexpectedEof), end: pos }
    } else if small_int(decode_opcode(s[pos])) is Some {
        KeyRun { result: Ok((Seq::empty(), decode_opcode(s[pos]))), end: pos + 1 }
    } else if decode_opcode(s[pos]) != Opcode::PushBytes(65) {
        KeyRun { result: Err(DecodeError::InvalidMultisigBody), end: pos + 1 }
    } else if !has_bytes(s, pos + 1, 65) {
        KeyRun { result: Err(DecodeError::UnexpectedEof), end: pos + 1 }
    } else {
        with_keys(seq![s.subrange(pos + 1, pos + 66)], key_run(s, pos + 66))
    }
}

/// The tokens of the keys: for each key the push opcode and the key.
pub open spec fn key_tokens(keys: Seq<Seq<u8>>) -> Seq<Token> {
    Seq::new(
        2 * keys.len(),
        |i: int|
            if i % 2 == 0 {
                Token::Op(Opcode::PushBytes(65))
            } else {
                Token::Data(keys[i / 2])
            },
    )
}

/// A multisignature script, from its threshold: a small-integer opcode, the
/// keys, the small-integer opcode that counts them, and `OP_CHECKMULTISIG`.
/// The count must be the number of keys and no less than the threshold.
pub open spec fn multisig(s: Seq<u8>, pos: int) -> Decoded {
    if !has_bytes(s, pos, 1) {
        reject(DecodeError::UnexpectedEof, pos)
    } else if small_int(decode_opcode(s[pos])) is None {
        reject(
            DecodeError::TemplateMismatch {
                expected: Expected::MultisigThreshold,
                found_byte: s[pos],
            },
            pos + 1,
        )
    } else {
        let threshold = decode_opcode(s[pos]);
        let run = key_run(s, pos + 1);
        match run.result {
            Err(error) => reject(error, run.end),
            Ok((keys, count)) => if keys.len() != small_int(count)->Some_0 {
                reject(DecodeError::MultisigKeyCountMismatch, run.end)
            } else if small_int(count)->Some_0 < small_int(threshold)->Some_0 {
                reject(DecodeError::MultisigThresholdExceedsKeys, run.end)
            } else if refusal(s, run.end, Opcode::OP_CHECKMULTISIG) is Some {
                refusal(s, run.end, Opcode::OP_CHECKMULTISIG)->Some_0
            } else {
                accept(
                    seq![Token::Op(threshold)] + key_tokens(keys) + seq![
                        Token::Op(count),
                        Token::Op(Opcode::OP_CHECKMULTISIG),
                    ],
                    run.end + 1,
                )
            },
        }
    }
}

/// A standard locking script from `pos`. The first opcode chooses the
/// template; after `OP_0`, and wherever the first opcode alone does not
/// decide, the second does. A script that begins none of the templates is
/// refused with reading back at `pos`.
pub open spec fn script(s: Seq<u8>, pos: int) -> Decoded {
    if !has_bytes(s, pos, 1) {
        reject(DecodeError::UnexpectedEof, pos)
    } else {
        let first = decode_opcode(s[pos]);
        if first == Opcode::PushBytes(65) {
            p2pk(s, pos + 1)
        } else if first == Opcode::OP_DUP {
            p2pkh(s, pos + 1)
        } else if first == Opcode::OP_HASH160 {
            p2sh(s, pos + 1)
        } else if first == Opcode::OP_RETURN {
            data_carrier(s, pos + 1)
        } else if !has_bytes(s, pos + 1, 1) {
            reject(DecodeError::UnexpectedEof, pos + 1)
        } else {
            let second = decode_opcode(s[pos + 1]);
            if first == Opcode::OP_0 {
                if second == Opcode::PushBytes(20) {
                    p2wpkh(s, pos + 2)
                } else if second == Opcode::PushBytes(32) {
                    p2wsh(s, pos + 2)
                } else {
                    reject(
                        DecodeError::TemplateMismatch {
                            expected: Expected::WitnessProgramPush,
                            found_byte: s[pos + 1],
                        },
                        pos + 2,
                    )
                }
            } else if first == Opcode::OP_1 && second == Opcode::PushBytes(32) {
                p2tr(s, pos + 2)
            } else if small_int(first) is Some {
                multisig(s, pos)
            } else {
                reject(DecodeError::UnrecognizedTemplate, pos)
            }
        }
    }
}

} // verus!
