use btc_tx::{BtcTx, ByteCursor, DecodeError, StandardScripts, TxVersion};

const RAW_TX: &str = "010000000269adb42422fb021f38da0ebe12a8d2a14c0fe484bcb0b7cb365841871f2d5e24000000006a4730440220199a6aa56306cebcdacd1eba26b55eaf6f92eb46eb90d1b7e7724bacbe1d19140220101c0d46e033361c60536b6989efdd6fa692265fcda164676e2f49885871038a0121039ac8bac8f6d916b8a85b458e087e0cd07e6a76a6bfdde9bb766b17086d9a5c8affffffff69adb42422fb021f38da0ebe12a8d2a14c0fe484bcb0b7cb365841871f2d5e24010000006b48304502210084ec4323ed07da4af6462091b4676250c377527330191a3ff3f559a88beae2e2022077251392ec2f52327cb7296be89cc001516e4039badd2ad7bbc950c4c1b6d7cc012103b9b554e25022c2ae549b0c30c18df0a8e0495223f627ae38df0992efb4779475ffffffff0118730100000000001976a9140ce17649c1306c291ca9e587f8793b5b06563cea88ac00000000";

#[test]
fn transaction_with_two_inputs_and_one_output() {
    let raw = hex::decode(RAW_TX).unwrap();
    let tx = BtcTx::from_hex_bytes(&raw).unwrap();

    assert_eq!(tx.version, TxVersion::One);
    assert_eq!(tx.locktime, 0);

    assert_eq!(tx.inputs.len(), 2);
    let id = hex::decode("245e2d1f87415836cbb7b0bc84e40f4ca1d2a812be0eda381f02fb2224b4ad69").unwrap();
    assert_eq!(tx.inputs[0].previous_tx_id.to_vec(), id);
    assert_eq!(tx.inputs[0].previous_output_index, 0);
    assert_eq!(
        tx.inputs[0].signature_script,
        hex::decode("4730440220199a6aa56306cebcdacd1eba26b55eaf6f92eb46eb90d1b7e7724bacbe1d19140220101c0d46e033361c60536b6989efdd6fa692265fcda164676e2f49885871038a0121039ac8bac8f6d916b8a85b458e087e0cd07e6a76a6bfdde9bb766b17086d9a5c8a").unwrap()
    );
    assert_eq!(tx.inputs[0].sequence_number, 4294967295);
    assert_eq!(tx.inputs[1].previous_tx_id.to_vec(), id);
    assert_eq!(tx.inputs[1].previous_output_index, 1);
    assert_eq!(
        tx.inputs[1].signature_script,
        hex::decode("48304502210084ec4323ed07da4af6462091b4676250c377527330191a3ff3f559a88beae2e2022077251392ec2f52327cb7296be89cc001516e4039badd2ad7bbc950c4c1b6d7cc012103b9b554e25022c2ae549b0c30c18df0a8e0495223f627ae38df0992efb4779475").unwrap()
    );
    assert_eq!(tx.inputs[1].sequence_number, 4294967295);

    assert_eq!(tx.outputs.len(), 1);
    assert_eq!(tx.outputs[0].amount, 95000);
    assert_eq!(
        tx.outputs[0].locking_script,
        hex::decode("76a9140ce17649c1306c291ca9e587f8793b5b06563cea88ac").unwrap()
    );
}

#[test]
fn locking_script_of_a_decoded_output_is_rendered() {
    let raw = hex::decode(RAW_TX).unwrap();
    let tx = BtcTx::from_hex_bytes(&raw).unwrap();
    let mut cursor = ByteCursor::new(&tx.outputs[0].locking_script);
    assert_eq!(
        StandardScripts::parse(&mut cursor),
        Ok(
            "OP_DUP OP_HASH160 OP_PUSHBYTES_20 0ce17649c1306c291ca9e587f8793b5b06563cea OP_EQUALVERIFY OP_CHECKSIG"
                .to_string()
        )
    );
}

#[test]
fn every_truncated_transaction_is_eof() {
    let raw = hex::decode(RAW_TX).unwrap();
    for cut in 0..raw.len() {
        assert_eq!(BtcTx::from_hex_bytes(&raw[..cut]).err(), Some(DecodeError::UnexpectedEof));
    }
}

#[test]
fn bytes_behind_the_lock_time_are_left_unread() {
    let mut raw = hex::decode(RAW_TX).unwrap();
    let tx = BtcTx::from_hex_bytes(&raw).unwrap();
    raw.extend_from_slice(&[1, 2, 3]);
    assert_eq!(BtcTx::from_hex_bytes(&raw).unwrap(), tx);
}

#[test]
fn transaction_without_inputs_and_outputs() {
    let raw = [2u8, 0, 0, 0, 0, 0, 0x78, 0x56, 0x34, 0x12];
    let tx = BtcTx::from_hex_bytes(&raw).unwrap();
    assert_eq!(tx.version, TxVersion::Two);
    assert!(tx.inputs.is_empty());
    assert!(tx.outputs.is_empty());
    assert_eq!(tx.locktime, 0x12345678);
}

#[test]
fn transaction_with_a_custom_version_and_a_wide_count() {
    // One output, counted in a two-byte compact size, with an empty script.
    let raw = [
        7u8, 0, 0, 0, // version
        0, // inputs
        253, 1, 0, // outputs
        1, 2, 3, 4, 5, 6, 7, 8, // amount
        0, // script length
        9, 0, 0, 0, // lock time
    ];
    let tx = BtcTx::from_hex_bytes(&raw).unwrap();
    assert_eq!(tx.version, TxVersion::Custom(7));
    assert_eq!(tx.outputs.len(), 1);
    assert_eq!(tx.outputs[0].amount, 0x0807060504030201);
    assert!(tx.outputs[0].locking_script.is_empty());
    assert_eq!(tx.locktime, 9);
}

#[test]
fn input_identifier_is_reversed() {
    let mut raw = vec![1u8, 0, 0, 0, 1];
    raw.extend(0u8..32);
    raw.extend_from_slice(&[5, 0, 0, 0]);
    raw.extend_from_slice(&[2, 0xaa, 0xbb]);
    raw.extend_from_slice(&[0xfe, 0xff, 0xff, 0xff]);
    raw.extend_from_slice(&[0, 0, 0, 0, 0]);
    let tx = BtcTx::from_hex_bytes(&raw).unwrap();
    assert_eq!(tx.inputs.len(), 1);
    let expected: Vec<u8> = (0u8..32).rev().collect();
    assert_eq!(tx.inputs[0].previous_tx_id.to_vec(), expected);
    assert_eq!(tx.inputs[0].previous_output_index, 5);
    assert_eq!(tx.inputs[0].signature_script, vec![0xaa, 0xbb]);
    assert_eq!(tx.inputs[0].sequence_number, 0xfffffffe);
    assert!(tx.outputs.is_empty());
}

#[test]
fn outputs_are_read_in_order() {
    let raw = [
        1u8, 0, 0, 0, // version
        0, // inputs
        2, // outputs
        1, 0, 0, 0, 0, 0, 0, 0, 1, 0x51, // amount 1, script 51
        2, 0, 0, 0, 0, 0, 0, 0, 2, 0x52, 0x53, // amount 2, script 52 53
        0x01, 0x02, 0x03, 0x04, // lock time
    ];
    let tx = BtcTx::from_hex_bytes(&raw).unwrap();
    assert!(tx.inputs.is_empty());
    assert_eq!(tx.outputs.len(), 2);
    assert_eq!((tx.outputs[0].amount, tx.outputs[0].locking_script.clone()), (1, vec![0x51]));
    assert_eq!((tx.outputs[1].amount, tx.outputs[1].locking_script.clone()), (2, vec![0x52, 0x53]));
    assert_eq!(tx.locktime, 0x04030201);
}

#[test]
fn a_count_beyond_the_input_is_eof() {
    // Declares 2^64 - 1 inputs and holds none.
    let raw = [1u8, 0, 0, 0, 255, 255, 255, 255, 255, 255, 255, 255, 255];
    assert_eq!(BtcTx::from_hex_bytes(&raw).err(), Some(DecodeError::UnexpectedEof));
}
