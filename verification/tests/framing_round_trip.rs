use zk_mlp::framing::{
    encode_frame, length_prefix, payload_length, read_frame, FramingError, MAX_PAYLOAD_LEN,
    PREFIX_LEN,
};

fn patterned(len: usize) -> Vec<u8> {
    (0..len).map(|i| (i * 31 + 7) as u8).collect()
}

fn send_then_read(len: usize) {
    let payload = patterned(len);
    let frame = encode_frame(&payload).expect("payload fits a length prefix");
    assert_eq!(frame.len(), PREFIX_LEN + len);
    assert_eq!(&frame[..4], &(len as u32).to_be_bytes());
    assert_eq!(&frame[4..], &payload[..]);
    assert_eq!(read_frame(&frame), Ok((payload, PREFIX_LEN + len)));
}

#[test]
fn round_trip_of_an_empty_payload() {
    send_then_read(0);
    assert_eq!(encode_frame(&[]), Ok(vec![0, 0, 0, 0]));
}

#[test]
fn round_trip_of_one_byte() {
    send_then_read(1);
    assert_eq!(encode_frame(&[0xab]), Ok(vec![0, 0, 0, 1, 0xab]));
}

#[test]
fn round_trip_of_4096_bytes() {
    send_then_read(4096);
}

#[test]
fn round_trip_of_a_million_bytes() {
    send_then_read(1_000_000);
}

#[test]
fn prefix_is_big_endian() {
    assert_eq!(length_prefix(0), Ok([0, 0, 0, 0]));
    assert_eq!(length_prefix(1), Ok([0, 0, 0, 1]));
    assert_eq!(length_prefix(4096), Ok([0, 0, 0x10, 0]));
    assert_eq!(length_prefix(1_000_000), Ok([0x00, 0x0f, 0x42, 0x40]));
    assert_eq!(length_prefix(0x0102_0304), Ok([1, 2, 3, 4]));
    assert_eq!(length_prefix(u32::MAX as usize), Ok([0xff, 0xff, 0xff, 0xff]));
    assert_eq!(MAX_PAYLOAD_LEN, u32::MAX);
}

#[test]
fn prefix_value_is_big_endian() {
    assert_eq!(payload_length(&[0, 0, 0, 0]), 0);
    assert_eq!(payload_length(&[0, 0, 0x10, 0]), 4096);
    assert_eq!(payload_length(&[1, 2, 3, 4]), 0x0102_0304);
    assert_eq!(payload_length(&[0xff, 0xff, 0xff, 0xff]), u32::MAX as usize);
    for n in [0u32, 1, 255, 256, 65_535, 65_536, 16_777_215, 16_777_216, u32::MAX] {
        assert_eq!(payload_length(&n.to_be_bytes()), n as usize);
        assert_eq!(length_prefix(n as usize), Ok(n.to_be_bytes()));
    }
}

#[test]
fn length_that_no_prefix_can_express_is_rejected() {
    if usize::BITS > 32 {
        let too_long = u32::MAX as usize + 1;
        assert_eq!(length_prefix(too_long), Err(FramingError::PayloadTooLarge));
        assert_eq!(length_prefix(usize::MAX), Err(FramingError::PayloadTooLarge));
    }
}

#[test]
fn short_reads_are_framing_errors() {
    assert_eq!(read_frame(&[]), Err(FramingError::ShortRead));
    assert_eq!(read_frame(&[0, 0, 0]), Err(FramingError::ShortRead));
    // The prefix announces five bytes and four arrive.
    assert_eq!(read_frame(&[0, 0, 0, 5, 1, 2, 3, 4]), Err(FramingError::ShortRead));
    // A prefix without any payload.
    assert_eq!(read_frame(&[0, 0, 1, 0]), Err(FramingError::ShortRead));
    assert_eq!(read_frame(&[0xff, 0xff, 0xff, 0xff, 9]), Err(FramingError::ShortRead));
}

#[test]
fn reading_stops_at_the_end_of_the_frame() {
    let stream = [0, 0, 0, 2, 10, 11, 0, 0, 0, 1, 12];
    assert_eq!(read_frame(&stream), Ok((vec![10, 11], 6)));
    assert_eq!(read_frame(&stream[6..]), Ok((vec![12], 5)));
    assert_eq!(read_frame(&stream[11..]), Err(FramingError::ShortRead));
}
