//! What holds of every script: the laws of the grammar.

use vstd::prelude::*;
use crate::error::DecodeError;
use crate::grammar::{
    accept, agrees, has_bytes, key_run, key_tokens, multisig, script, script_text, small_int,
    KeyRun, Token,
};
use crate::le::{
    le_bytes, le_value, lemma_le_bytes_of_value, lemma_le_value_bound, lemma_le_value_of_bytes,
    pow256,
};
use crate::opcode::{decode_opcode, mnemonic, Opcode};
use crate::text::{decimal, hex_string, join_tokens};
use crate::version::{version_of, TxVersion};

verus! {

/// Decoding is a function of the bytes: two results that both are what the
/// grammar gives for one script from one offset render the same text or
/// report the same failure.
pub proof fn lemma_decoding_is_a_function(
    first: Result<String, DecodeError>,
    second: Result<String, DecodeError>,
    s: Seq<u8>,
    pos: int,
)
    requires
        agrees(first, script(s, pos)),
        agrees(second, script(s, pos)),
    ensures
        match (first, second) {
            (Ok(a), Ok(b)) => a@ == b@,
            (Err(a), Err(b)) => a == b,
            _ => false,
        },
{
}

/// The bytes of a pay-to-public-key script for `key`.
pub open spec fn p2pk_script(key: Seq<u8>) -> Seq<u8> {
    seq![65u8] + key + seq![172u8]
}

/// Every pay-to-public-key script is accepted whole, as the push opcode,
/// the key and `OP_CHECKSIG`.
pub proof fn lemma_p2pk_accepted(key: Seq<u8>)
    requires
        key.len() == 65,
    ensures
        script(p2pk_script(key), 0) == accept(
            seq![
                Token::Op(Opcode::PushBytes(65)),
                Token::Data(key),
                Token::Op(Opcode::OP_CHECKSIG),
            ],
            67,
        ),
        script_text(script(p2pk_script(key), 0).result->Ok_0) == "OP_PUSHBYTES_65 "@ + hex_string(
            key,
        ) + " OP_CHECKSIG"@,
{
    let s = p2pk_script(key);
    assert(s.subrange(1, 66) =~= key);
    let tokens = seq![
        Token::Op(Opcode::PushBytes(65)),
        Token::Data(key),
        Token::Op(Opcode::OP_CHECKSIG),
    ];
    assert(script(s, 0) == accept(tokens, 67));
    reveal_with_fuel(join_tokens, 4);
    reveal_with_fuel(decimal, 2);
    reveal_strlit("OP_PUSHBYTES_");
    reveal_strlit("OP_CHECKSIG");
    reveal_strlit("OP_PUSHBYTES_65 ");
    reveal_strlit(" OP_CHECKSIG");
    assert(mnemonic(Opcode::PushBytes(65)) + seq![' '] =~= "OP_PUSHBYTES_65 "@);
    assert(seq![' '] + mnemonic(Opcode::OP_CHECKSIG) =~= " OP_CHECKSIG"@);
    assert(script_text(tokens) =~= "OP_PUSHBYTES_65 "@ + hex_string(key) + " OP_CHECKSIG"@);
}

/// The bytes of a pay-to-public-key-hash script for `hash`.
pub open spec fn p2pkh_script(hash: Seq<u8>) -> Seq<u8> {
    seq![118u8, 169u8, 20u8] + hash + seq![136u8, 172u8]
}

/// Every pay-to-public-key-hash script is accepted whole and renders as
/// its five opcodes around the hash.
pub proof fn lemma_p2pkh_accepted(hash: Seq<u8>)
    requires
        hash.len() == 20,
    ensures
        script(p2pkh_script(hash), 0) == accept(
            seq![
                Token::Op(Opcode::OP_DUP),
                Token::Op(Opcode::OP_HASH160),
                Token::Op(Opcode::PushBytes(20)),
                Token::Data(hash),
                Token::Op(Opcode::OP_EQUALVERIFY),
                Token::Op(Opcode::OP_CHECKSIG),
            ],
            25,
        ),
        script_text(script(p2pkh_script(hash), 0).result->Ok_0)
            == "OP_DUP OP_HASH160 OP_PUSHBYTES_20 "@ + hex_string(hash)
            + " OP_EQUALVERIFY OP_CHECKSIG"@,
{
    let s = p2pkh_script(hash);
    assert(s.subrange(3, 23) =~= hash);
    let tokens = seq![
        Token::Op(Opcode::OP_DUP),
        Token::Op(Opcode::OP_HASH160),
        Token::Op(Opcode::PushBytes(20)),
        Token::Data(hash),
        Token::Op(Opcode::OP_EQUALVERIFY),
        Token::Op(Opcode::OP_CHECKSIG),
    ];
    assert(script(s, 0) == accept(tokens, 25));
    reveal_with_fuel(join_tokens, 7);
    reveal_with_fuel(decimal, 2);
    reveal_strlit("OP_PUSHBYTES_");
    reveal_strlit("OP_CHECKSIG");
    reveal_strlit("OP_DUP");
    reveal_strlit("OP_HASH160");
    reveal_strlit("OP_EQUALVERIFY");
    reveal_strlit("OP_DUP OP_HASH160 OP_PUSHBYTES_20 ");
    reveal_strlit(" OP_EQUALVERIFY OP_CHECKSIG");
    let head = mnemonic(Opcode::OP_DUP) + seq![' '] + mnemonic(Opcode::OP_HASH160) + seq![' ']
        + mnemonic(Opcode::PushBytes(20)) + seq![' '];
    let tail = seq![' '] + mnemonic(Opcode::OP_EQUALVERIFY) + seq![' '] + mnemonic(
        Opcode::OP_CHECKSIG,
    );
    assert(head =~= "OP_DUP OP_HASH160 OP_PUSHBYTES_20 "@);
    assert(tail =~= " OP_EQUALVERIFY OP_CHECKSIG"@);
    assert(script_text(tokens) =~= head + hex_string(hash) + tail);
}

/// The byte of the small-integer opcode for `k`, from 1 to 16.
pub open spec fn small_int_byte(k: nat) -> u8 {
    (80 + k) as u8
}

/// The body of a multisignature script: each key behind its push opcode.
pub open spec fn key_bytes(keys: Seq<Seq<u8>>) -> Seq<u8>
    decreases keys.len(),
{
    if keys.len() == 0 {
        Seq::empty()
    } else {
        seq![65u8] + keys[0] + key_bytes(keys.drop_first())
    }
}

/// The bytes of the multisignature script that asks for `m` signatures of
/// the holders of `keys`.
pub open spec fn multisig_script(m: nat, keys: Seq<Seq<u8>>) -> Seq<u8> {
    seq![small_int_byte(m)] + key_bytes(keys) + seq![small_int_byte(keys.len()), 174u8]
}

/// Whether every key is 65 bytes long.
pub open spec fn all_uncompressed(keys: Seq<Seq<u8>>) -> bool {
    forall|i: int| 0 <= i < keys.len() ==> (#[trigger] keys[i]).len() == 65
}

/// Keys that stand in a script one behind the other, each behind its push
/// opcode and with a small-integer opcode behind the last, are read as
/// exactly those keys.
pub proof fn lemma_key_run_reads_keys(s: Seq<u8>, pos: int, keys: Seq<Seq<u8>>)
    requires
        0 <= pos,
        all_uncompressed(keys),
        pos + key_bytes(keys).len() < s.len(),
        s.subrange(pos, pos + key_bytes(keys).len()) == key_bytes(keys),
        small_int(decode_opcode(s[pos + key_bytes(keys).len()])) is Some,
    ensures
        key_bytes(keys).len() == 66 * keys.len(),
        key_run(s, pos) == (KeyRun {
            result: Ok((keys, decode_opcode(s[pos + 66 * keys.len()]))),
            end: pos + 66 * keys.len() + 1,
        }),
    decreases keys.len(),
{
    let body = key_bytes(keys);
    if keys.len() == 0 {
        assert(keys =~= Seq::empty());
    } else {
        let rest = keys.drop_first();
        let tail = key_bytes(rest);
        assert(body == seq![65u8] + keys[0] + tail);
        assert(keys[0].len() == 65);
        assert(body.len() == 66 + tail.len());
        assert(s[pos] == s.subrange(pos, pos + body.len())[0]);
        assert(body[0] == 65u8);
        assert(s.subrange(pos + 1, pos + 66) =~= keys[0]) by {
            assert forall|i: int| 0 <= i < 65 implies s.subrange(pos + 1, pos + 66)[i]
                == keys[0][i] by {
                assert(s[pos + 1 + i] == s.subrange(pos, pos + body.len())[1 + i]);
                assert(body[1 + i] == keys[0][i]);
            }
        }
        assert(s.subrange(pos + 66, pos + 66 + tail.len()) =~= tail) by {
            assert forall|i: int| 0 <= i < tail.len() implies s.subrange(
                pos + 66,
                pos + 66 + tail.len(),
            )[i] == tail[i] by {
                assert(s[pos + 66 + i] == s.subrange(pos, pos + body.len())[66 + i]);
                assert(body[66 + i] == tail[i]);
            }
        }
        assert(all_uncompressed(rest)) by {
            assert forall|i: int| 0 <= i < rest.len() implies (#[trigger] rest[i]).len()
                == 65 by {
                assert(rest[i] == keys[i + 1]);
            }
        }
        lemma_key_run_reads_keys(s, pos + 66, rest);
        assert(seq![keys[0]] + rest =~= keys);
    }
}

/// Multisignature round trip: the script for `m` of `n` keys, with `m` no
/// greater than `n`, is accepted whole; between the threshold and the count
/// stand exactly the `n` keys, each behind its push opcode, and
/// `OP_CHECKMULTISIG` ends it.
pub proof fn lemma_multisig_accepted(m: nat, keys: Seq<Seq<u8>>)
    requires
        1 <= m <= keys.len() <= 16,
        all_uncompressed(keys),
    ensures
        script(multisig_script(m, keys), 0) == accept(
            seq![Token::Op(decode_opcode(small_int_byte(m)))] + key_tokens(keys) + seq![
                Token::Op(decode_opcode(small_int_byte(keys.len()))),
                Token::Op(Opcode::OP_CHECKMULTISIG),
            ],
            66 * keys.len() as int + 3,
        ),
        small_int(decode_opcode(small_int_byte(m))) == Some(m),
        small_int(decode_opcode(small_int_byte(keys.len()))) == Some(keys.len()),
        key_tokens(keys).len() == 2 * keys.len(),
{
    let s = multisig_script(m, keys);
    let body = key_bytes(keys);
    let n = keys.len() as int;
    let len = body.len() as int;
    assert(body == seq![65u8] + keys[0] + key_bytes(keys.drop_first()));
    assert(s[1] == body[0]);
    assert(s.subrange(1, 1 + len) =~= body);
    assert(s[1 + len] == small_int_byte(keys.len()));
    lemma_key_run_reads_keys(s, 1, keys);
    assert(s[66 * n + 2] == 174u8);
    assert(s.len() == 66 * n + 3);
    assert(multisig(s, 0) == script(s, 0));
}

/// Cutting a script short at `k` leaves every byte before `k` in place.
proof fn lemma_take(s: Seq<u8>, k: int)
    requires
        0 <= k <= s.len(),
    ensures
        s.take(k).len() == k,
        forall|i: int| 0 <= i < k ==> s.take(k)[i] == s[i],
        forall|a: int, b: int|
            0 <= a <= b <= k ==> #[trigger] s.take(k).subrange(a, b) == s.subrange(a, b),
{
    assert forall|a: int, b: int| 0 <= a <= b <= k implies #[trigger] s.take(k).subrange(a, b)
        == s.subrange(a, b) by {
        assert(s.take(k).subrange(a, b) =~= s.subrange(a, b));
    }
}

/// A run of keys that was read whole is read the same from a script cut
/// behind it, and fails for want of input in a script cut within it.
proof fn lemma_key_run_truncated(s: Seq<u8>, pos: int, k: int)
    requires
        key_run(s, pos).result is Ok,
        0 <= k <= s.len(),
    ensures
        key_run(s, pos).end <= s.len(),
        k >= key_run(s, pos).end ==> key_run(s.take(k), pos) == key_run(s, pos),
        k < key_run(s, pos).end ==> key_run(s.take(k), pos).result == Err::<
            (Seq<Seq<u8>>, Opcode),
            DecodeError,
        >(DecodeError::UnexpectedEof),
    decreases s.len() - pos,
{
    lemma_take(s, k);
    let t = s.take(k);
    if small_int(decode_opcode(s[pos])) is None {
        lemma_key_run_truncated(s, pos + 66, k);
        if k >= pos + 66 {
            assert(t.subrange(pos + 1, pos + 66) == s.subrange(pos + 1, pos + 66));
        }
    }
}

/// Truncation: a script that is accepted is refused for want of input when
/// it is cut short anywhere before the offset at which its decoding ends.
pub proof fn lemma_truncated_is_eof(s: Seq<u8>, pos: int, k: int)
    requires
        script(s, pos).result is Ok,
        0 <= k < script(s, pos).end,
    ensures
        k < s.len(),
        script(s.take(k), pos).result == Err::<Seq<Token>, DecodeError>(
            DecodeError::UnexpectedEof,
        ),
{
    let first = decode_opcode(s[pos]);
    if first != Opcode::PushBytes(65) && first != Opcode::OP_DUP && first != Opcode::OP_HASH160
        && first != Opcode::OP_RETURN && first != Opcode::OP_0 && !(first == Opcode::OP_1
        && decode_opcode(s[pos + 1]) == Opcode::PushBytes(32)) {
        assert(script(s, pos) == multisig(s, pos));
        let run = key_run(s, pos + 1);
        assert(run.result is Ok);
        if k <= s.len() {
            lemma_key_run_truncated(s, pos + 1, k);
        }
        lemma_key_run_truncated(s, pos + 1, s.len() as int);
        assert(k < s.len());
        lemma_take(s, k);
    } else {
        assert(k < s.len());
        lemma_take(s, k);
    }
}

/// A byte outside the opcode table at the head of a script is reported: the
/// script is refused as beginning no template, or, where it ends with that
/// byte, for want of input.
pub proof fn lemma_unsupported_head_is_refused(s: Seq<u8>, pos: int)
    requires
        has_bytes(s, pos, 1),
        decode_opcode(s[pos]) == Opcode::UnsupportedOpcode,
    ensures
        script(s, pos).result == Err::<Seq<Token>, DecodeError>(
            if has_bytes(s, pos, 2) {
                DecodeError::UnrecognizedTemplate
            } else {
                DecodeError::UnexpectedEof
            },
        ),
{
}

/// Behind `OP_RETURN` only a push is taken: any other byte there, one
/// outside the opcode table among them, is reported as unsupported.
pub proof fn lemma_data_carrier_needs_a_push(s: Seq<u8>, pos: int)
    requires
        has_bytes(s, pos, 2),
        decode_opcode(s[pos]) == Opcode::OP_RETURN,
        !(decode_opcode(s[pos + 1]) is PushBytes),
    ensures
        script(s, pos).result == Err::<Seq<Token>, DecodeError>(DecodeError::UnsupportedOpcode),
{
}

/// The opcode that ends a run of keys is a small integer from the table.
proof fn lemma_key_run_count(s: Seq<u8>, pos: int)
    requires
        key_run(s, pos).result is Ok,
    ensures
        small_int(key_run(s, pos).result->Ok_0.1) is Some,
        key_run(s, pos).result->Ok_0.1.well_formed(),
    decreases s.len() - pos,
{
    if small_int(decode_opcode(s[pos])) is None {
        lemma_key_run_count(s, pos + 66);
    }
}

/// No byte outside the opcode table passes unnoticed: every opcode among the
/// tokens of an accepted script is one of the table, with its operand in
/// range.
pub proof fn lemma_accepted_opcodes_are_supported(s: Seq<u8>, pos: int)
    requires
        script(s, pos).result is Ok,
    ensures
        forall|i: int|
            0 <= i < script(s, pos).result->Ok_0.len() && (#[trigger] script(
                s,
                pos,
            ).result->Ok_0[i]) is Op ==> {
                let opcode = script(s, pos).result->Ok_0[i]->Op_0;
                opcode != Opcode::UnsupportedOpcode && opcode.well_formed()
            },
{
    let first = decode_opcode(s[pos]);
    if first != Opcode::PushBytes(65) && first != Opcode::OP_DUP && first != Opcode::OP_HASH160
        && first != Opcode::OP_RETURN && first != Opcode::OP_0 && !(first == Opcode::OP_1
        && decode_opcode(s[pos + 1]) == Opcode::PushBytes(32)) {
        assert(script(s, pos) == multisig(s, pos));
        lemma_key_run_count(s, pos + 1);
        let run = key_run(s, pos + 1);
        let keys = run.result->Ok_0.0;
        let count = run.result->Ok_0.1;
        let tokens = script(s, pos).result->Ok_0;
        assert(tokens == seq![Token::Op(first)] + key_tokens(keys) + seq![
            Token::Op(count),
            Token::Op(Opcode::OP_CHECKMULTISIG),
        ]);
        assert forall|i: int| 0 <= i < tokens.len() && (#[trigger] tokens[i]) is Op implies {
            let opcode = tokens[i]->Op_0;
            opcode != Opcode::UnsupportedOpcode && opcode.well_formed()
        } by {
            if i == 0 {
            } else if i <= 2 * keys.len() {
                assert(tokens[i] == key_tokens(keys)[i - 1]);
            } else if i == 2 * keys.len() + 1 {
                assert(tokens[i] == Token::Op(count));
            } else {
                assert(tokens[i] == Token::Op(Opcode::OP_CHECKMULTISIG));
            }
        }
    }
}

/// The four bytes of a version field, read as a version and written again,
/// are the same four bytes.
pub proof fn lemma_version_bytes_round_trip(bytes: Seq<u8>)
    requires
        bytes.len() == 4,
    ensures
        le_bytes(version_of(le_value(bytes)).number(), 4) == bytes,
{
    lemma_le_value_bound(bytes);
    reveal_with_fuel(pow256, 5);
    lemma_le_bytes_of_value(bytes);
}

/// A version written as four bytes and read again is the same version; only
/// a custom version that carries the number 1 or 2 comes back as the
/// standard version of that number.
pub proof fn lemma_version_round_trip(version: TxVersion)
    ensures
        version_of(le_value(le_bytes(version.number(), 4))) == (if version == TxVersion::Custom(
            1,
        ) {
            TxVersion::One
        } else if version == TxVersion::Custom(2) {
            TxVersion::Two
        } else {
            version
        }),
{
    lemma_le_value_of_bytes(version.number(), 4);
    reveal_with_fuel(pow256, 5);
    let n = version.number();
    assert(pow256(4) == 0x1_0000_0000);
    assert(n % 0x1_0000_0000 == n) by (nonlinear_arith)
        requires
            n < 0x1_0000_0000,
    ;
}

} // verus!
