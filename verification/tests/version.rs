use btc_tx::TxVersion;

#[test]
fn tx_version() {
    assert_eq!([1u8, 0, 0, 0], TxVersion::One.to_bytes());
    assert_eq!([2u8, 0, 0, 0], TxVersion::Two.to_bytes());
    assert_eq!([30u8, 0, 0, 0], TxVersion::Custom(30).to_bytes());

    assert_eq!(TxVersion::One, TxVersion::from_bytes([1u8, 0, 0, 0]));
    assert_eq!(TxVersion::Two, TxVersion::from_bytes([2u8, 0, 0, 0]));
    assert_eq!(
        TxVersion::Custom(30),
        TxVersion::from_bytes([30u8, 0, 0, 0])
    );
}

#[test]
fn tx_version_default_is_one() {
    assert_eq!(TxVersion::default(), TxVersion::One);
}

#[test]
fn tx_version_bytes_are_little_endian() {
    assert_eq!(TxVersion::Custom(0x0102_0304).to_bytes(), [4u8, 3, 2, 1]);
    assert_eq!(TxVersion::Custom(u32::MAX).to_bytes(), [255u8, 255, 255, 255]);
    assert_eq!(TxVersion::Custom(0).to_bytes(), [0u8, 0, 0, 0]);
    assert_eq!(TxVersion::from_bytes([4, 3, 2, 1]), TxVersion::Custom(0x0102_0304));
    assert_eq!(TxVersion::from_bytes([255, 255, 255, 255]), TxVersion::Custom(u32::MAX));
    assert_eq!(TxVersion::from_bytes([0, 1, 0, 0]), TxVersion::Custom(256));
}

#[test]
fn tx_version_bytes_round_trip() {
    for bytes in [[1u8, 0, 0, 0], [2, 0, 0, 0], [0, 0, 0, 0], [9, 8, 7, 6], [1, 0, 0, 1]] {
        assert_eq!(TxVersion::from_bytes(bytes).to_bytes(), bytes);
    }
    // A custom version that carries a standard number reads back as the
    // standard version.
    assert_eq!(TxVersion::from_bytes(TxVersion::Custom(1).to_bytes()), TxVersion::One);
    assert_eq!(TxVersion::from_bytes(TxVersion::Custom(2).to_bytes()), TxVersion::Two);
}
