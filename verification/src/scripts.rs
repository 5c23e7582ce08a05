//! The decoders of the standard script templates.

use vstd::prelude::*;
use crate::builder::ScriptBuilder;
use crate::cursor::ByteCursor;
use crate::error::{DecodeError, Expected};
use crate::grammar::{
    data_carrier, follows, has_bytes, key_run, key_tokens, multisig, p2pk, p2pkh, p2sh, p2tr,
    p2wpkh, p2wsh, refusal, reject, render_all, small_int, with_keys, Token,
};
use crate::opcode::Opcode;
use crate::text::hex_string;

verus! {

/// The decoders of standard locking scripts: one per template, and `parse`,
/// which chooses among them.
#[derive(Debug, Clone, Copy)]
pub struct StandardScripts;

/// Reads one byte and asks that it be `expected`.
fn expect_opcode(bytes: &mut ByteCursor, expected: Opcode) -> (read: Result<(), DecodeError>)
    ensures
        final(bytes).data() == old(bytes).data(),
        match read {
            Ok(()) => refusal(old(bytes).data(), old(bytes).offset(), expected) is None && final(bytes).offset() == old(bytes).offset() + 1,
            Err(error) => refusal(old(bytes).data(), old(bytes).offset(), expected) == Some(
                reject(error, final(bytes).offset()),
            ),
        },
{
    proof {
        bytes.lemma_window(1);
    }
    let byte: u8 = bytes.read_byte()?;
    if Opcode::from_byte(byte) == expected {
        Ok(())
    } else {
        Err(DecodeError::TemplateMismatch { expected: Expected::Exactly(expected), found_byte: byte })
    }
}

/// Reads `n` bytes of data and adds them to `builder`.
fn read_data(bytes: &mut ByteCursor, n: u8, builder: &mut ScriptBuilder) -> (read: Result<
    (),
    DecodeError,
>)
    requires
        1 <= n,
    ensures
        final(bytes).data() == old(bytes).data(),
        match read {
            Ok(()) => has_bytes(old(bytes).data(), old(bytes).offset(), n as int) && final(bytes).offset() == old(bytes).offset() + n && final(builder)@ == old(builder)@.push(
                hex_string(
                    old(bytes).data().subrange(old(bytes).offset(), old(bytes).offset() + n),
                ),
            ),
            Err(error) => !has_bytes(old(bytes).data(), old(bytes).offset(), n as int) && error
                == DecodeError::UnexpectedEof && final(bytes).offset() == old(bytes).offset()
                && final(builder)@ == old(builder)@,
        },
{
    proof {
        bytes.lemma_window(n as int);
    }
    let data = bytes.read_exact(n as usize)?;
    builder.push_bytes(data)?;
    Ok(())
}

/// The keys of a multisignature script and the opcode that counts them.
fn parse_keys(bytes: &mut ByteCursor, builder: &mut ScriptBuilder) -> (read: Result<
    (usize, Opcode),
    DecodeError,
>)
    ensures
        final(bytes).data() == old(bytes).data(),
        final(bytes).offset() == key_run(old(bytes).data(), old(bytes).offset()).end,
        match read {
            Ok((observed, count)) => {
                let run = key_run(old(bytes).data(), old(bytes).offset());
                &&& run.result is Ok
                &&& observed == run.result->Ok_0.0.len()
                &&& count == run.result->Ok_0.1
                &&& small_int(count) is Some
                &&& count.well_formed()
                &&& final(builder)@ == old(builder)@ + render_all(
                    key_tokens(run.result->Ok_0.0).push(Token::Op(count)),
                )
            },
            Err(error) => key_run(old(bytes).data(), old(bytes).offset()).result == Err::<
                (Seq<Seq<u8>>, Opcode),
                DecodeError,
            >(error),
        },
{
    let ghost s = bytes.data();
    let ghost start = bytes.offset();
    let ghost mut keys: Seq<Seq<u8>> = Seq::empty();
    let mut observed: usize = 0;
    proof {
        bytes.lemma_window(1);
        assert(with_keys(keys, key_run(s, start)) == key_run(s, start)) by {
            let run = key_run(s, start);
            if run.result is Ok {
                assert(keys + run.result->Ok_0.0 =~= run.result->Ok_0.0);
            }
        }
        assert(builder@ =~= old(builder)@ + render_all(key_tokens(keys)));
    }
    loop
        invariant
            s == old(bytes).data(),
            start == old(bytes).offset(),
            bytes.data() == s,
            0 <= start,
            0 <= bytes.offset() <= usize::MAX,
            observed == keys.len(),
            66 * keys.len() <= bytes.offset() - start,
            key_run(s, start) == with_keys(keys, key_run(s, bytes.offset())),
            builder@ == old(builder)@ + render_all(key_tokens(keys)),
        decreases s.len() - bytes.offset(),
    {
        let ghost pos = bytes.offset();
        proof {
            bytes.lemma_window(1);
        }
        let byte: u8 = bytes.read_byte()?;
        let opcode = Opcode::from_byte(byte);
        match opcode {
            Opcode::OP_1 | Opcode::Num(_) => {
                builder.push_opcode(opcode)?;
                proof {
                    assert(keys + Seq::<Seq<u8>>::empty() =~= keys);
                    assert(builder@ =~= old(builder)@ + render_all(
                        key_tokens(keys).push(Token::Op(opcode)),
                    ));
                }
                return Ok((observed, opcode));
            },
            Opcode::PushBytes(n) => {
                if n != 65 {
                    return Err(DecodeError::InvalidMultisigBody);
                }
                builder.push_opcode(opcode)?;
                read_data(bytes, 65, builder)?;
                proof {
                    let key = s.subrange(pos + 1, pos + 66);
                    let rest = key_run(s, pos + 66);
                    assert(key_run(s, pos) == with_keys(seq![key], rest));
                    if rest.result is Ok {
                        assert(keys + (seq![key] + rest.result->Ok_0.0) =~= keys.push(key)
                            + rest.result->Ok_0.0);
                    }
                    assert(key_tokens(keys.push(key)) =~= key_tokens(keys).push(
                        Token::Op(Opcode::PushBytes(65)),
                    ).push(Token::Data(key)));
                    assert(builder@ =~= old(builder)@ + render_all(key_tokens(keys.push(key))));
                    keys = keys.push(key);
                    bytes.lemma_window(1);
                }
                observed = observed + 1;
            },
            _ => {
                return Err(DecodeError::InvalidMultisigBody);
            },
        }
    }
}

impl StandardScripts {
    /// Decodes a standard locking script from the cursor's position and
    /// renders it. The first opcode chooses the template, with the second
    /// where the first does not decide.
    pub fn parse(bytes: &mut ByteCursor) -> (script: Result<String, DecodeError>)
        ensures
            follows(
                *old(bytes),
                *final(bytes),
                script,
                crate::grammar::script(old(bytes).data(), old(bytes).offset()),
            ),
    {
        proof {
            bytes.lemma_window(1);
        }
        let start: usize = bytes.position();
        let first_byte: u8 = bytes.read_byte()?;
        let first = Opcode::from_byte(first_byte);
        match first {
            Opcode::PushBytes(65) => Self::parse_p2pk(bytes),
            Opcode::OP_DUP => Self::parse_p2pkh(bytes),
            Opcode::OP_HASH160 => Self::parse_p2sh(bytes),
            Opcode::OP_RETURN => Self::parse_data(bytes),
            _ => {
                proof {
                    bytes.lemma_window(1);
                }
                let second_byte: u8 = bytes.read_byte()?;
                let second = Opcode::from_byte(second_byte);
                if first == Opcode::OP_0 {
                    if second == Opcode::PushBytes(20) {
                        Self::parse_p2wpkh(bytes)
                    } else if second == Opcode::PushBytes(32) {
                        Self::parse_p2wsh(bytes)
                    } else {
                        Self::to_io_error(
                            DecodeError::TemplateMismatch {
                                expected: Expected::WitnessProgramPush,
                                found_byte: second_byte,
                            },
                        )
                    }
                } else if first == Opcode::OP_1 && second == Opcode::PushBytes(32) {
                    Self::parse_p2tr(bytes)
                } else {
                    bytes.rewind_to(start);
                    match first {
                        Opcode::OP_1 | Opcode::Num(_) => Self::parse_p2ms(bytes),
                        _ => Self::to_io_error(DecodeError::UnrecognizedTemplate),
                    }
                }
            },
        }
    }

    /// The failure `error` as the result of a decoder.
    pub fn to_io_error(error: DecodeError) -> (script: Result<String, DecodeError>)
        ensures
            script == Err::<String, DecodeError>(error),
    {
        Err(error)
    }

    /// Pay to public key, from behind the push opcode.
    pub fn parse_p2pk(bytes: &mut ByteCursor) -> (script: Result<String, DecodeError>)
        ensures
            follows(
                *old(bytes),
                *final(bytes),
                script,
                p2pk(old(bytes).data(), old(bytes).offset()),
            ),
    {
        let ghost s = bytes.data();
        let ghost pos = bytes.offset();
        let mut builder = ScriptBuilder::new();
        builder.push_opcode(Opcode::PushBytes(65))?;
        read_data(bytes, 65, &mut builder)?;
        expect_opcode(bytes, Opcode::OP_CHECKSIG)?;
        builder.push_opcode(Opcode::OP_CHECKSIG)?;
        assert(builder@ =~= render_all(p2pk(s, pos).result->Ok_0));
        Ok(builder.build())
    }

    /// Pay to public key hash, from behind `OP_DUP`.
    pub fn parse_p2pkh(bytes: &mut ByteCursor) -> (script: Result<String, DecodeError>)
        ensures
            follows(
                *old(bytes),
                *final(bytes),
                script,
                p2pkh(old(bytes).data(), old(bytes).offset()),
            ),
    {
        let ghost s = bytes.data();
        let ghost pos = bytes.offset();
        let mut builder = ScriptBuilder::new();
        builder.push_opcode(Opcode::OP_DUP)?;
        expect_opcode(bytes, Opcode::OP_HASH160)?;
        builder.push_opcode(Opcode::OP_HASH160)?;
        expect_opcode(bytes, Opcode::PushBytes(20))?;
        builder.push_opcode(Opcode::PushBytes(20))?;
        read_data(bytes, 20, &mut builder)?;
        expect_opcode(bytes, Opcode::OP_EQUALVERIFY)?;
        builder.push_opcode(Opcode::OP_EQUALVERIFY)?;
        expect_opcode(bytes, Opcode::OP_CHECKSIG)?;
        builder.push_opcode(Opcode::OP_CHECKSIG)?;
        assert(builder@ =~= render_all(p2pkh(s, pos).result->Ok_0));
        Ok(builder.build())
    }

    /// Pay to script hash, from behind `OP_HASH160`.
    pub fn parse_p2sh(bytes: &mut ByteCursor) -> (script: Result<String, DecodeError>)
        ensures
            follows(
                *old(bytes),
                *final(bytes),
                script,
                p2sh(old(bytes).data(), old(bytes).offset()),
            ),
    {
        let ghost s = bytes.data();
        let ghost pos = bytes.offset();
        let mut builder = ScriptBuilder::new();
        builder.push_opcode(Opcode::OP_HASH160)?;
        expect_opcode(bytes, Opcode::PushBytes(20))?;
        builder.push_opcode(Opcode::PushBytes(20))?;
        read_data(bytes, 20, &mut builder)?;
        expect_opcode(bytes, Opcode::OP_EQUAL)?;
        builder.push_opcode(Opcode::OP_EQUAL)?;
        assert(builder@ =~= render_all(p2sh(s, pos).result->Ok_0));
        Ok(builder.build())
    }

    /// A data carrier, from behind `OP_RETURN`.
    pub fn parse_data(bytes: &mut ByteCursor) -> (script: Result<String, DecodeError>)
        ensures
            follows(
                *old(bytes),
                *final(bytes),
                script,
                data_carrier(old(bytes).data(), old(bytes).offset()),
            ),
    {
        let ghost s = bytes.data();
        let ghost pos = bytes.offset();
        proof {
            bytes.lemma_window(1);
        }
        let byte: u8 = bytes.read_byte()?;
        let push = Opcode::from_byte(byte);
        proof {
            if byte >= 1 {
                bytes.lemma_window(byte as int);
            }
        }
        let data = push.read_bytes(bytes)?;
        let mut builder = ScriptBuilder::new();
        builder.push_opcode(Opcode::OP_RETURN)?;
        builder.push_opcode(push)?;
        builder.push_bytes(data.as_slice())?;
        assert(builder@ =~= render_all(data_carrier(s, pos).result->Ok_0));
        Ok(builder.build())
    }

    /// Pay to witness public key hash, from behind `OP_0` and the push
    /// opcode.
    pub fn parse_p2wpkh(bytes: &mut ByteCursor) -> (script: Result<String, DecodeError>)
        ensures
            follows(
                *old(bytes),
                *final(bytes),
                script,
                p2wpkh(old(bytes).data(), old(bytes).offset()),
            ),
    {
        let ghost s = bytes.data();
        let ghost pos = bytes.offset();
        let mut builder = ScriptBuilder::new();
        builder.push_opcode(Opcode::OP_0)?;
        builder.push_opcode(Opcode::PushBytes(20))?;
        read_data(bytes, 20, &mut builder)?;
        assert(builder@ =~= render_all(p2wpkh(s, pos).result->Ok_0));
        Ok(builder.build())
    }

    /// Pay to witness script hash, from behind `OP_0` and the push opcode.
    pub fn parse_p2wsh(bytes: &mut ByteCursor) -> (script: Result<String, DecodeError>)
        ensures
            follows(
                *old(bytes),
                *final(bytes),
                script,
                p2wsh(old(bytes).data(), old(bytes).offset()),
            ),
    {
        let ghost s = bytes.data();
        let ghost pos = bytes.offset();
        let mut builder = ScriptBuilder::new();
        builder.push_opcode(Opcode::OP_0)?;
        builder.push_opcode(Opcode::PushBytes(32))?;
        read_data(bytes, 32, &mut builder)?;
        assert(builder@ =~= render_all(p2wsh(s, pos).result->Ok_0));
        Ok(builder.build())
    }

    /// Pay to taproot, from behind `OP_1` and the push opcode.
    pub fn parse_p2tr(bytes: &mut ByteCursor) -> (script: Result<String, DecodeError>)
        ensures
            follows(
                *old(bytes),
                *final(bytes),
                script,
                p2tr(old(bytes).data(), old(bytes).offset()),
            ),
    {
        let ghost s = bytes.data();
        let ghost pos = bytes.offset();
        let mut builder = ScriptBuilder::new();
        builder.push_opcode(Opcode::OP_1)?;
        builder.push_opcode(Opcode::PushBytes(32))?;
        read_data(bytes, 32, &mut builder)?;
        assert(builder@ =~= render_all(p2tr(s, pos).result->Ok_0));
        Ok(builder.build())
    }

    /// A multisignature script, from its threshold opcode. The keys are
    /// counted as they are read, and the count that the script declares must
    /// be their number and no less than the threshold.
    pub fn parse_p2ms(bytes: &mut ByteCursor) -> (script: Result<String, DecodeError>)
        ensures
            follows(
                *old(bytes),
                *final(bytes),
                script,
                multisig(old(bytes).data(), old(bytes).offset()),
            ),
    {
        let ghost s = bytes.data();
        let ghost pos = bytes.offset();
        proof {
            bytes.lemma_window(1);
        }
        let threshold_byte: u8 = bytes.read_byte()?;
        let threshold_opcode = Opcode::from_byte(threshold_byte);
        let threshold: u8 = match threshold_opcode {
            Opcode::OP_1 => 1,
            Opcode::Num(n) => n,
            _ => {
                return Self::to_io_error(
                    DecodeError::TemplateMismatch {
                        expected: Expected::MultisigThreshold,
                        found_byte: threshold_byte,
                    },
                );
            },
        };
        let mut builder = ScriptBuilder::new();
        builder.push_opcode(threshold_opcode)?;
        let (observed, count) = parse_keys(bytes, &mut builder)?;
        let declared: u8 = match count {
            Opcode::OP_1 => 1,
            Opcode::Num(n) => n,
            _ => 0,
        };
        if observed != declared as usize {
            return Self::to_io_error(DecodeError::MultisigKeyCountMismatch);
        }
        if declared < threshold {
            return Self::to_io_error(DecodeError::MultisigThresholdExceedsKeys);
        }
        expect_opcode(bytes, Opcode::OP_CHECKMULTISIG)?;
        builder.push_opcode(Opcode::OP_CHECKMULTISIG)?;
        assert(builder@ =~= render_all(multisig(s, pos).result->Ok_0));
        Ok(builder.build())
    }
}

} // verus!
