use dandelion::codec::{PacketReader, PacketWriter};

#[test]
fn short_round_trip_big_endian() {
    let mut w = PacketWriter::new();
    w.write_short(0x1020);
    w.write_short(-2);
    let bytes = w.into_inner();
    assert_eq!(bytes, vec![0x10, 0x20, 0xff, 0xfe]);
    let mut r = PacketReader::new(&bytes);
    assert_eq!(r.read_short(), 0x1020);
    assert_eq!(r.read_short(), -2);
    assert_eq!(r.left(), 0);
}

#[test]
fn bytes_and_signed_bytes() {
    let mut w = PacketWriter::new();
    w.write_byte(0x64);
    w.write_sbyte(-1);
    let bytes = w.into_inner();
    assert_eq!(bytes, vec![0x64, 0xff]);
    let mut r = PacketReader::new(&bytes);
    assert_eq!(r.read_byte(), 0x64);
    assert_eq!(r.read_sbyte(), -1);
}

#[test]
fn string_is_space_padded_and_trimmed() {
    let mut w = PacketWriter::new();
    w.write_string("Alice");
    let bytes = w.into_inner();
    assert_eq!(bytes.len(), 64);
    assert_eq!(&bytes[..5], b"Alice");
    assert!(bytes[5..].iter().all(|b| *b == b' '));
    let mut r = PacketReader::new(&bytes);
    assert_eq!(r.read_string(), "Alice");
}

#[test]
fn long_string_is_cut_to_sixty_four_bytes() {
    let long = "x".repeat(100);
    let mut w = PacketWriter::new();
    w.write_string(&long);
    assert_eq!(w.to_bytes().len(), 64);
}

#[test]
fn invalid_utf8_is_replaced() {
    let mut bytes = vec![b' '; 64];
    bytes[0] = b'a';
    bytes[1] = 0xff;
    let mut r = PacketReader::new(&bytes);
    assert_eq!(r.read_string(), "a\u{fffd}");
}

#[test]
fn byte_array_is_zero_padded() {
    let mut w = PacketWriter::new();
    w.write_byte_array(&[1, 2, 3], 1024);
    let bytes = w.into_inner();
    assert_eq!(bytes.len(), 1024);
    assert_eq!(&bytes[..3], &[1, 2, 3]);
    assert!(bytes[3..].iter().all(|b| *b == 0));
    let mut r = PacketReader::new(&bytes);
    assert_eq!(r.read_byte_array(3), vec![1, 2, 3]);
}
