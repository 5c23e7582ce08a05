use btc_tx::{ByteCursor, DecodeError};

#[test]
fn cursor_reads_in_order() {
    let data = [1u8, 2, 3, 4, 5];
    let mut cursor = ByteCursor::new(&data);
    assert_eq!(cursor.position(), 0);
    assert_eq!(cursor.remaining(), 5);
    assert_eq!(cursor.read_exact(2), Ok(&data[0..2]));
    assert_eq!(cursor.position(), 2);
    assert_eq!(cursor.read_byte(), Ok(3));
    assert_eq!(cursor.read_exact(2), Ok(&data[3..5]));
    assert_eq!(cursor.position(), 5);
    assert_eq!(cursor.remaining(), 0);
}

#[test]
fn cursor_failed_read_does_not_advance() {
    let data = [1u8, 2, 3];
    let mut cursor = ByteCursor::new(&data);
    cursor.set_position(1);
    assert_eq!(cursor.read_exact(3), Err(DecodeError::UnexpectedEof));
    assert_eq!(cursor.position(), 1);
    assert_eq!(cursor.read_exact(2), Ok(&data[1..3]));
    assert_eq!(cursor.read_byte(), Err(DecodeError::UnexpectedEof));
    assert_eq!(cursor.position(), 3);
}

#[test]
fn cursor_peek_does_not_advance() {
    let data = [1u8, 2, 3];
    let cursor = ByteCursor::new(&data);
    assert_eq!(cursor.peek(2), Ok(&data[0..2]));
    assert_eq!(cursor.peek(4), Err(DecodeError::UnexpectedEof));
    assert_eq!(cursor.position(), 0);
}

#[test]
fn cursor_rewinds() {
    let data = [1u8, 2, 3];
    let mut cursor = ByteCursor::new(&data);
    cursor.read_exact(2).unwrap();
    cursor.rewind_to(1);
    assert_eq!(cursor.position(), 1);
    assert_eq!(cursor.read_byte(), Ok(2));
}

#[test]
fn cursor_past_the_end_reads_nothing() {
    let data = [1u8, 2, 3];
    let mut cursor = ByteCursor::new(&data);
    cursor.set_position(10);
    assert_eq!(cursor.remaining(), 0);
    assert_eq!(cursor.read_byte(), Err(DecodeError::UnexpectedEof));
    assert_eq!(cursor.read_exact(1), Err(DecodeError::UnexpectedEof));
    let empty: &[u8] = &[];
    assert_eq!(cursor.read_exact(0), Ok(empty));
    assert_eq!(cursor.position(), 10);
}

#[test]
fn cursor_on_empty_input() {
    let data: [u8; 0] = [];
    let mut cursor = ByteCursor::new(&data);
    assert_eq!(cursor.remaining(), 0);
    assert_eq!(cursor.read_byte(), Err(DecodeError::UnexpectedEof));
}
