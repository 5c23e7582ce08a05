use btc_tx::{ByteCursor, DecodeError, Expected, Opcode, StandardScripts};

fn parse(script: &[u8]) -> Result<String, DecodeError> {
    let mut cursor = ByteCursor::new(script);
    StandardScripts::parse(&mut cursor)
}

fn parse_with_end(script: &[u8]) -> (Result<String, DecodeError>, usize) {
    let mut cursor = ByteCursor::new(script);
    let parsed = StandardScripts::parse(&mut cursor);
    (parsed, cursor.position())
}

fn key(fill: u8) -> Vec<u8> {
    vec![fill; 65]
}

fn multisig(threshold: u8, keys: &[Vec<u8>], count: u8) -> Vec<u8> {
    let mut script = vec![threshold];
    for key in keys {
        script.push(key.len() as u8);
        script.extend_from_slice(key);
    }
    script.push(count);
    script.push(0xae);
    script
}

#[test]
fn p2pk_of_zero_key() {
    let mut script = vec![0x41u8];
    script.extend_from_slice(&[0u8; 65]);
    script.push(0xac);
    let expected = format!("OP_PUSHBYTES_65 {} OP_CHECKSIG", "0".repeat(130));
    assert_eq!(parse_with_end(&script), (Ok(expected), 67));
}

#[test]
fn p2pk_renders_the_key_in_hex() {
    let mut script = vec![0x41u8];
    let key: Vec<u8> = (0u8..65).map(|i| i.wrapping_mul(7).wrapping_add(0xa0)).collect();
    script.extend_from_slice(&key);
    script.push(0xac);
    let expected = format!("OP_PUSHBYTES_65 {} OP_CHECKSIG", hex::encode(&key));
    assert_eq!(parse(&script), Ok(expected));
}

#[test]
fn p2pkh_of_zero_hash() {
    let script = hex::decode("76a914000000000000000000000000000000000000000088ac").unwrap();
    assert_eq!(
        parse_with_end(&script),
        (
            Ok(
                "OP_DUP OP_HASH160 OP_PUSHBYTES_20 0000000000000000000000000000000000000000 OP_EQUALVERIFY OP_CHECKSIG"
                    .to_string()
            ),
            25
        )
    );
}

#[test]
fn p2pkh_of_a_real_output() {
    let script = hex::decode("76a9140ce17649c1306c291ca9e587f8793b5b06563cea88ac").unwrap();
    assert_eq!(
        parse(&script),
        Ok(
            "OP_DUP OP_HASH160 OP_PUSHBYTES_20 0ce17649c1306c291ca9e587f8793b5b06563cea OP_EQUALVERIFY OP_CHECKSIG"
                .to_string()
        )
    );
}

#[test]
fn p2sh_script() {
    let script = hex::decode("a914748284390f9e263a4b766a75d0633c50426eb87587").unwrap();
    assert_eq!(
        parse_with_end(&script),
        (
            Ok("OP_HASH160 OP_PUSHBYTES_20 748284390f9e263a4b766a75d0633c50426eb875 OP_EQUAL".to_string()),
            23
        )
    );
}

#[test]
fn p2wpkh_script() {
    let script = hex::decode("0014853ec3166860371ee67b7754ff85e13d7a0d6698").unwrap();
    assert_eq!(
        parse_with_end(&script),
        (Ok("OP_0 OP_PUSHBYTES_20 853ec3166860371ee67b7754ff85e13d7a0d6698".to_string()), 22)
    );
}

#[test]
fn p2wsh_script() {
    let script =
        hex::decode("002065f91a53cb7120057db3d378bd0f7d944167d43a7dcbff15d6afc4823f1d3ed3").unwrap();
    assert_eq!(
        parse_with_end(&script),
        (
            Ok("OP_0 OP_PUSHBYTES_32 65f91a53cb7120057db3d378bd0f7d944167d43a7dcbff15d6afc4823f1d3ed3"
                .to_string()),
            34
        )
    );
}

#[test]
fn p2tr_script() {
    let script =
        hex::decode("51200f0c8db753acbd17343a39c2f3f4e35e4be6da749f9e35137ab220e7b238a667").unwrap();
    assert_eq!(
        parse_with_end(&script),
        (
            Ok("OP_1 OP_PUSHBYTES_32 0f0c8db753acbd17343a39c2f3f4e35e4be6da749f9e35137ab220e7b238a667"
                .to_string()),
            34
        )
    );
}

#[test]
fn data_carrier_script() {
    let script = hex::decode("6a0b68656c6c6f20776f726c64").unwrap();
    assert_eq!(
        parse_with_end(&script),
        (Ok("OP_RETURN OP_PUSHBYTES_11 68656c6c6f20776f726c64".to_string()), 13)
    );
}

#[test]
fn data_carrier_needs_a_push() {
    assert_eq!(parse(&[0x6a, 0xff]), Err(DecodeError::UnsupportedOpcode));
    assert_eq!(parse(&[0x6a, 0x00]), Err(DecodeError::UnsupportedOpcode));
    assert_eq!(parse(&[0x6a, 0x51]), Err(DecodeError::UnsupportedOpcode));
    assert_eq!(parse(&[0x6a, 0x4c, 0x01, 0x01]), Err(DecodeError::UnsupportedOpcode));
}

#[test]
fn data_carrier_cut_short_is_eof() {
    assert_eq!(parse(&[0x6a]), Err(DecodeError::UnexpectedEof));
    assert_eq!(parse(&[0x6a, 0x03, 0x01, 0x02]), Err(DecodeError::UnexpectedEof));
}

#[test]
fn multisig_two_of_three() {
    let script = hex::decode("524104d81fd577272bbe73308c93009eec5dc9fc319fc1ee2e7066e17220a5d47a18314578be2faea34b9f1f8ca078f8621acd4bc22897b03daa422b9bf56646b342a24104ec3afff0b2b66e8152e9018fe3be3fc92b30bf886b3487a525997d00fd9da2d012dce5d5275854adc3106572a5d1e12d4211b228429f5a7b2f7ba92eb0475bb14104b49b496684b02855bc32f5daefa2e2e406db4418f3b86bca5195600951c7d918cdbe5e6d3736ec2abf2dd7610995c3086976b2c0c7b4e459d10b34a316d5a5e753ae").unwrap();
    let expected = "OP_2 \
OP_PUSHBYTES_65 04d81fd577272bbe73308c93009eec5dc9fc319fc1ee2e7066e17220a5d47a18314578be2faea34b9f1f8ca078f8621acd4bc22897b03daa422b9bf56646b342a2 \
OP_PUSHBYTES_65 04ec3afff0b2b66e8152e9018fe3be3fc92b30bf886b3487a525997d00fd9da2d012dce5d5275854adc3106572a5d1e12d4211b228429f5a7b2f7ba92eb0475bb1 \
OP_PUSHBYTES_65 04b49b496684b02855bc32f5daefa2e2e406db4418f3b86bca5195600951c7d918cdbe5e6d3736ec2abf2dd7610995c3086976b2c0c7b4e459d10b34a316d5a5e7 \
OP_3 OP_CHECKMULTISIG";
    assert_eq!(parse_with_end(&script), (Ok(expected.to_string()), 201));
}

#[test]
fn multisig_one_of_one() {
    let script = multisig(0x51, &[key(0x11)], 0x51);
    let expected = format!("OP_1 OP_PUSHBYTES_65 {} OP_1 OP_CHECKMULTISIG", "11".repeat(65));
    assert_eq!(parse(&script), Ok(expected));
}

#[test]
fn multisig_round_trip_for_every_threshold_and_count() {
    for n in 1u8..=16 {
        let keys: Vec<Vec<u8>> = (0..n).map(|i| key(i + 1)).collect();
        for m in 1u8..=n {
            let script = multisig(0x50 + m, &keys, 0x50 + n);
            let mut tokens = vec![format!("OP_{}", m)];
            for key in &keys {
                tokens.push("OP_PUSHBYTES_65".to_string());
                tokens.push(hex::encode(key));
            }
            tokens.push(format!("OP_{}", n));
            tokens.push("OP_CHECKMULTISIG".to_string());
            assert_eq!(parse_with_end(&script), (Ok(tokens.join(" ")), script.len()));
        }
    }
}

#[test]
fn multisig_with_compressed_keys_is_refused() {
    let script = hex::decode("51210000000000000000000000000000000000000000000000000000000000000000002100000000000000000000000000000000000000000000000000000000000000000052ae").unwrap();
    assert_eq!(parse(&script), Err(DecodeError::InvalidMultisigBody));
}

#[test]
fn multisig_body_takes_keys_and_small_integers_only() {
    let mut script = vec![0x52u8, 0x41];
    script.extend_from_slice(&key(1));
    script.push(0xff);
    assert_eq!(parse(&script), Err(DecodeError::InvalidMultisigBody));

    let mut script = vec![0x52u8, 0x41];
    script.extend_from_slice(&key(1));
    script.push(0xae);
    assert_eq!(parse(&script), Err(DecodeError::InvalidMultisigBody));
}

#[test]
fn multisig_with_fewer_keys_than_declared() {
    let script = multisig(0x53, &[key(1), key(2)], 0x53);
    assert_eq!(parse(&script), Err(DecodeError::MultisigKeyCountMismatch));
}

#[test]
fn multisig_with_more_keys_than_declared() {
    let script = multisig(0x51, &[key(1), key(2), key(3)], 0x52);
    assert_eq!(parse(&script), Err(DecodeError::MultisigKeyCountMismatch));
}

#[test]
fn multisig_threshold_above_the_key_count() {
    let script = multisig(0x53, &[key(1), key(2)], 0x52);
    assert_eq!(parse(&script), Err(DecodeError::MultisigThresholdExceedsKeys));
}

#[test]
fn multisig_count_is_checked_before_the_threshold() {
    let script = multisig(0x53, &[key(1)], 0x52);
    assert_eq!(parse(&script), Err(DecodeError::MultisigKeyCountMismatch));
}

#[test]
fn multisig_needs_checkmultisig_at_the_end() {
    let mut script = multisig(0x51, &[key(1), key(2)], 0x52);
    let last = script.len() - 1;
    script[last] = 0xac;
    assert_eq!(
        parse(&script),
        Err(DecodeError::TemplateMismatch {
            expected: Expected::Exactly(Opcode::OP_CHECKMULTISIG),
            found_byte: 0xac
        })
    );
    script.pop();
    assert_eq!(parse(&script), Err(DecodeError::UnexpectedEof));
}

#[test]
fn multisig_decoder_needs_a_threshold() {
    let script = [0x76u8, 0x41];
    let mut cursor = ByteCursor::new(&script);
    assert_eq!(
        StandardScripts::parse_p2ms(&mut cursor),
        Err(DecodeError::TemplateMismatch {
            expected: Expected::MultisigThreshold,
            found_byte: 0x76
        })
    );
    assert_eq!(cursor.position(), 1);
}

#[test]
fn empty_script_is_eof() {
    assert_eq!(parse_with_end(&[]), (Err(DecodeError::UnexpectedEof), 0));
}

#[test]
fn p2pk_without_checksig_is_eof() {
    let mut script = vec![0x41u8];
    script.extend_from_slice(&[0u8; 65]);
    assert_eq!(parse(&script), Err(DecodeError::UnexpectedEof));
}

#[test]
fn every_truncation_of_an_accepted_script_is_eof() {
    let mut p2pk = vec![0x41u8];
    p2pk.extend_from_slice(&key(3));
    p2pk.push(0xac);
    let scripts: Vec<Vec<u8>> = vec![
        p2pk,
        hex::decode("76a9140ce17649c1306c291ca9e587f8793b5b06563cea88ac").unwrap(),
        hex::decode("a914748284390f9e263a4b766a75d0633c50426eb87587").unwrap(),
        hex::decode("0014853ec3166860371ee67b7754ff85e13d7a0d6698").unwrap(),
        hex::decode("002065f91a53cb7120057db3d378bd0f7d944167d43a7dcbff15d6afc4823f1d3ed3").unwrap(),
        hex::decode("51200f0c8db753acbd17343a39c2f3f4e35e4be6da749f9e35137ab220e7b238a667").unwrap(),
        hex::decode("6a0b68656c6c6f20776f726c64").unwrap(),
        multisig(0x52, &[key(1), key(2), key(3)], 0x53),
        multisig(0x51, &[key(9)], 0x51),
    ];
    for script in scripts {
        assert!(parse(&script).is_ok());
        for cut in 0..script.len() {
            assert_eq!(parse(&script[..cut]), Err(DecodeError::UnexpectedEof));
        }
    }
}

#[test]
fn byte_255_at_the_head_is_refused() {
    assert_eq!(parse_with_end(&[255, 0]), (Err(DecodeError::UnrecognizedTemplate), 0));
    assert_eq!(parse(&[255, 255, 255]), Err(DecodeError::UnrecognizedTemplate));
    assert_eq!(parse(&[255]), Err(DecodeError::UnexpectedEof));
}

#[test]
fn opcodes_that_begin_no_template_are_refused() {
    for head in [0xacu8, 0x87, 0x88, 0xae, 0x01, 0x14, 0x20, 0x40, 0x42, 0x4b, 0x4c, 0x50, 0x61] {
        assert_eq!(parse(&[head, 0x41, 0x00]), Err(DecodeError::UnrecognizedTemplate));
    }
}

#[test]
fn wrong_opcode_at_a_fixed_position_is_a_mismatch() {
    let mut p2pk = vec![0x41u8];
    p2pk.extend_from_slice(&key(3));
    p2pk.push(0xab);
    assert_eq!(
        parse_with_end(&p2pk),
        (
            Err(DecodeError::TemplateMismatch {
                expected: Expected::Exactly(Opcode::OP_CHECKSIG),
                found_byte: 0xab
            }),
            67
        )
    );

    let p2pkh = hex::decode("76a814000000000000000000000000000000000000000088ac").unwrap();
    assert_eq!(
        parse(&p2pkh),
        Err(DecodeError::TemplateMismatch {
            expected: Expected::Exactly(Opcode::OP_HASH160),
            found_byte: 0xa8
        })
    );
    let p2pkh = hex::decode("76a915000000000000000000000000000000000000000088ac").unwrap();
    assert_eq!(
        parse(&p2pkh),
        Err(DecodeError::TemplateMismatch {
            expected: Expected::Exactly(Opcode::PushBytes(20)),
            found_byte: 0x15
        })
    );
    let p2pkh = hex::decode("76a914000000000000000000000000000000000000000087ac").unwrap();
    assert_eq!(
        parse(&p2pkh),
        Err(DecodeError::TemplateMismatch {
            expected: Expected::Exactly(Opcode::OP_EQUALVERIFY),
            found_byte: 0x87
        })
    );
    let p2pkh = hex::decode("76a914000000000000000000000000000000000000000088ae").unwrap();
    assert_eq!(
        parse(&p2pkh),
        Err(DecodeError::TemplateMismatch {
            expected: Expected::Exactly(Opcode::OP_CHECKSIG),
            found_byte: 0xae
        })
    );

    let p2sh = hex::decode("a914748284390f9e263a4b766a75d0633c50426eb87588").unwrap();
    assert_eq!(
        parse(&p2sh),
        Err(DecodeError::TemplateMismatch {
            expected: Expected::Exactly(Opcode::OP_EQUAL),
            found_byte: 0x88
        })
    );
    let p2sh = hex::decode("a920748284390f9e263a4b766a75d0633c50426eb87587").unwrap();
    assert_eq!(
        parse(&p2sh),
        Err(DecodeError::TemplateMismatch {
            expected: Expected::Exactly(Opcode::PushBytes(20)),
            found_byte: 0x20
        })
    );
}

#[test]
fn zero_opcode_needs_a_witness_program() {
    assert_eq!(
        parse_with_end(&[0x00, 0x15, 0x00]),
        (
            Err(DecodeError::TemplateMismatch {
                expected: Expected::WitnessProgramPush,
                found_byte: 0x15
            }),
            2
        )
    );
    assert_eq!(
        parse(&[0x00, 0xff]),
        Err(DecodeError::TemplateMismatch {
            expected: Expected::WitnessProgramPush,
            found_byte: 0xff
        })
    );
    assert_eq!(parse(&[0x00]), Err(DecodeError::UnexpectedEof));
}

#[test]
fn parsing_twice_gives_the_same() {
    let scripts: Vec<Vec<u8>> = vec![
        hex::decode("76a9140ce17649c1306c291ca9e587f8793b5b06563cea88ac").unwrap(),
        multisig(0x52, &[key(1), key(2), key(3)], 0x53),
        multisig(0x53, &[key(1), key(2)], 0x52),
        vec![255, 1],
        vec![],
    ];
    for script in scripts {
        assert_eq!(parse_with_end(&script), parse_with_end(&script));
    }
}

#[test]
fn bytes_behind_the_template_are_left_unread() {
    let mut script = hex::decode("0014853ec3166860371ee67b7754ff85e13d7a0d6698").unwrap();
    script.extend_from_slice(&[0xde, 0xad]);
    assert_eq!(
        parse_with_end(&script),
        (Ok("OP_0 OP_PUSHBYTES_20 853ec3166860371ee67b7754ff85e13d7a0d6698".to_string()), 22)
    );
}

#[test]
fn parsing_starts_at_the_cursor() {
    let mut script = vec![0xffu8, 0xff, 0xff];
    script.extend_from_slice(&hex::decode("a914748284390f9e263a4b766a75d0633c50426eb87587").unwrap());
    let mut cursor = ByteCursor::new(&script);
    cursor.set_position(3);
    assert_eq!(
        StandardScripts::parse(&mut cursor),
        Ok("OP_HASH160 OP_PUSHBYTES_20 748284390f9e263a4b766a75d0633c50426eb875 OP_EQUAL".to_string())
    );
    assert_eq!(cursor.position(), 26);
}

#[test]
fn template_decoders_start_behind_their_head() {
    let body = [0x11u8; 32];
    let mut cursor = ByteCursor::new(&body);
    assert_eq!(
        StandardScripts::parse_p2wpkh(&mut cursor),
        Ok(format!("OP_0 OP_PUSHBYTES_20 {}", "11".repeat(20)))
    );
    assert_eq!(cursor.position(), 20);

    let mut cursor = ByteCursor::new(&body);
    assert_eq!(
        StandardScripts::parse_p2wsh(&mut cursor),
        Ok(format!("OP_0 OP_PUSHBYTES_32 {}", "11".repeat(32)))
    );
    let mut cursor = ByteCursor::new(&body);
    assert_eq!(
        StandardScripts::parse_p2tr(&mut cursor),
        Ok(format!("OP_1 OP_PUSHBYTES_32 {}", "11".repeat(32)))
    );
    let mut cursor = ByteCursor::new(&body[..31]);
    assert_eq!(StandardScripts::parse_p2tr(&mut cursor), Err(DecodeError::UnexpectedEof));
    assert_eq!(cursor.position(), 0);

    let mut tail = vec![0u8; 65];
    tail.push(0xac);
    let mut cursor = ByteCursor::new(&tail);
    assert_eq!(
        StandardScripts::parse_p2pk(&mut cursor),
        Ok(format!("OP_PUSHBYTES_65 {} OP_CHECKSIG", "00".repeat(65)))
    );

    let tail = hex::decode("a914000000000000000000000000000000000000000088ac").unwrap();
    let mut cursor = ByteCursor::new(&tail);
    assert!(StandardScripts::parse_p2pkh(&mut cursor).is_ok());
    let tail = hex::decode("14748284390f9e263a4b766a75d0633c50426eb87587").unwrap();
    let mut cursor = ByteCursor::new(&tail);
    assert!(StandardScripts::parse_p2sh(&mut cursor).is_ok());
    let tail = [0x02u8, 0xca, 0xfe];
    let mut cursor = ByteCursor::new(&tail);
    assert_eq!(StandardScripts::parse_data(&mut cursor), Ok("OP_RETURN OP_PUSHBYTES_2 cafe".to_string()));
}

#[test]
fn failure_is_handed_back_as_it_is() {
    assert_eq!(
        StandardScripts::to_io_error(DecodeError::UnrecognizedTemplate),
        Err(DecodeError::UnrecognizedTemplate)
    );
    assert_eq!(
        StandardScripts::to_io_error(DecodeError::UnexpectedEof),
        Err(DecodeError::UnexpectedEof)
    );
}
