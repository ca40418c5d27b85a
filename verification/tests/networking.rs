use shared::networking::{
    encode_frame, ReadOutcome, ReceiveBuffer, ReceiveError, ReceiveStep,
};

#[test]
fn frame_header_is_little_endian_length() {
    assert_eq!(encode_frame(&[]), vec![0, 0, 0, 0]);
    assert_eq!(encode_frame(&[9, 8, 7]), vec![3, 0, 0, 0, 9, 8, 7]);
    let payload = vec![0xaau8; 0x0102];
    let frame = encode_frame(&payload);
    assert_eq!(&frame[..4], &[0x02, 0x01, 0, 0]);
    assert_eq!(&frame[4..], &payload[..]);
}

#[test]
fn frame_roundtrip_through_buffer() {
    let mut buf = ReceiveBuffer::new();
    let mut bytes = encode_frame(b"first");
    bytes.extend(encode_frame(b""));
    bytes.extend(encode_frame(b"third"));
    buf.extend(&bytes);
    assert_eq!(buf.next_frame(), Some(b"first".to_vec()));
    buf.consume_frame();
    assert_eq!(buf.next_frame(), Some(vec![]));
    buf.consume_frame();
    assert_eq!(buf.next_frame(), Some(b"third".to_vec()));
    buf.consume_frame();
    assert_eq!(buf.next_frame(), None);
    assert!(!buf.has_frame());
}

#[test]
fn partial_frame_is_pending() {
    let frame = encode_frame(b"hello");
    let mut buf = ReceiveBuffer::new();
    for (i, byte) in frame.iter().enumerate() {
        let step = buf.receive_step(ReadOutcome::Data(vec![*byte]));
        if i + 1 < frame.len() {
            assert!(matches!(step, ReceiveStep::Pending));
        } else {
            match step {
                ReceiveStep::Decode(p) => assert_eq!(p, b"hello".to_vec()),
                _ => panic!("expected a complete frame"),
            }
        }
    }
}

#[test]
fn receive_keeps_frame_until_consumed() {
    let mut buf = ReceiveBuffer::new();
    let step = buf.receive_step(ReadOutcome::Data(encode_frame(&[1, 2])));
    assert!(matches!(step, ReceiveStep::Decode(ref p) if p == &vec![1, 2]));
    // an empty read (closed peer) does not change the buffer: the same frame is offered again
    let step = buf.receive_step(ReadOutcome::Data(vec![]));
    assert!(matches!(step, ReceiveStep::Decode(ref p) if p == &vec![1, 2]));
    buf.consume_frame();
    assert!(matches!(buf.receive_step(ReadOutcome::Data(vec![])), ReceiveStep::Pending));
}

#[test]
fn would_block_and_failure() {
    let mut buf = ReceiveBuffer::new();
    buf.extend(&encode_frame(&[5]));
    assert!(matches!(buf.receive_step(ReadOutcome::WouldBlock), ReceiveStep::Pending));
    let err = std::io::Error::new(std::io::ErrorKind::Other, "boom");
    assert!(matches!(
        buf.receive_step(ReadOutcome::Failed(err)),
        ReceiveStep::Failed(ReceiveError::Io(_))
    ));
    // the buffered frame is still there
    assert_eq!(buf.next_frame(), Some(vec![5]));
}

#[test]
fn header_announcing_more_than_available_waits() {
    let mut buf = ReceiveBuffer::new();
    buf.extend(&[10, 0, 0, 0, 1, 2, 3]);
    assert_eq!(buf.next_frame(), None);
    buf.extend(&[4, 5, 6, 7, 8, 9, 10, 99]);
    assert_eq!(buf.next_frame(), Some(vec![1, 2, 3, 4, 5, 6, 7, 8, 9, 10]));
    buf.consume_frame();
    buf.extend(&[0, 0, 0]);
    // leftover byte 99 and three more: header 99 announces 99 bytes
    assert_eq!(buf.next_frame(), None);
}

#[test]
fn decoded_frame_is_dropped_and_failed_decode_keeps_it() {
    let mut buf = ReceiveBuffer::new();
    let mut bytes = encode_frame(&[1]);
    bytes.extend(encode_frame(&[2]));
    buf.extend(&bytes);
    let bad = wincode::deserialize::<u32>(&[1]);
    assert!(bad.is_err());
    assert!(matches!(
        buf.finish_decode(bad),
        Err(ReceiveError::DeserializeFailed(_))
    ));
    assert_eq!(buf.next_frame(), Some(vec![1]));
    assert_eq!(buf.finish_decode::<u8>(Ok(1)).unwrap(), Some(1));
    assert_eq!(buf.next_frame(), Some(vec![2]));
    assert_eq!(buf.finish_decode::<u8>(Ok(2)).unwrap(), Some(2));
    assert_eq!(buf.next_frame(), None);
}

#[test]
fn read_chunk_length() {
    assert_eq!(shared::networking::READ_CHUNK_LEN, 2401);
}
