use bittorrent_peer::{
    decode_bitfield, encode_frame, interested_frame, parse_message, parse_piece_block, read_be32,
    request_frame, write_be32, WireMessage,
};

#[test]
fn be32_reads_big_endian() {
    assert_eq!(read_be32(&[0x12, 0x34, 0x56, 0x78]), 0x1234_5678);
    assert_eq!(read_be32(&[0, 0, 0x40, 0, 9]), 16384);
    assert_eq!(read_be32(&[0xff, 0xff, 0xff, 0xff]), u32::MAX);
}

#[test]
fn be32_writes_big_endian() {
    let mut out = vec![9u8];
    write_be32(&mut out, 0x0102_0304);
    assert_eq!(out, vec![9, 1, 2, 3, 4]);
}

#[test]
fn frame_counts_id_and_payload() {
    assert_eq!(encode_frame(5, &[0xa0, 0x01]), vec![0, 0, 0, 3, 5, 0xa0, 0x01]);
    assert_eq!(encode_frame(1, &[]), vec![0, 0, 0, 1, 1]);
}

#[test]
fn interested_is_five_bytes() {
    assert_eq!(interested_frame(), vec![0, 0, 0, 1, 2]);
}

#[test]
fn request_carries_index_begin_length() {
    let r = request_frame(1, 16384, 100);
    assert_eq!(r, vec![0, 0, 0, 13, 6, 0, 0, 0, 1, 0, 0, 0x40, 0, 0, 0, 0, 100]);
}

#[test]
fn empty_body_is_keep_alive() {
    assert_eq!(parse_message(&[]), None);
}

#[test]
fn body_splits_into_id_and_payload() {
    assert_eq!(parse_message(&[7, 1, 2]), Some(WireMessage { id: 7, payload: vec![1, 2] }));
    assert_eq!(parse_message(&[1]), Some(WireMessage { id: 1, payload: vec![] }));
}

#[test]
fn piece_payload_is_parsed() {
    let b = parse_piece_block(&[0, 0, 0, 3, 0, 0, 0x40, 0, 0xaa, 0xbb]).unwrap();
    assert_eq!(b.index, 3);
    assert_eq!(b.begin, 16384);
    assert_eq!(b.data, vec![0xaa, 0xbb]);
}

#[test]
fn short_piece_payload_is_rejected() {
    assert!(parse_piece_block(&[0, 0, 0, 3, 0, 0, 0]).is_none());
}

#[test]
fn bitfield_single_byte_yields_zero_and_two() {
    assert_eq!(decode_bitfield(&[0b1010_0000]), vec![0, 2]);
}

#[test]
fn bitfield_reads_msb_first_across_bytes() {
    assert_eq!(decode_bitfield(&[0b0000_0001, 0b1000_0001]), vec![7, 8, 15]);
    assert_eq!(decode_bitfield(&[0xff]), vec![0, 1, 2, 3, 4, 5, 6, 7]);
    assert_eq!(decode_bitfield(&[0, 0]), Vec::<usize>::new());
    assert_eq!(decode_bitfield(&[]), Vec::<usize>::new());
}
