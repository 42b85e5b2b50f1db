use portus::transport::{
    message_length, recv_message, send_message, TransportError, MAX_MESSAGE_SIZE,
};

#[test]
fn roundtrip_message() {
    let payload = b"hello portus";
    let frame = send_message(payload).unwrap();

    let received = recv_message(&frame).unwrap().unwrap();
    assert_eq!(received, payload);
}

#[test]
fn eof_returns_none() {
    let result = recv_message(&[]).unwrap();
    assert!(result.is_none());
}

#[test]
fn the_length_comes_first_and_big_endian() {
    assert_eq!(send_message(b"abc").unwrap(), [0, 0, 0, 3, b'a', b'b', b'c']);
    let frame = send_message(&vec![7; 0x012345]).unwrap();
    assert_eq!(frame[..4], [0x00, 0x01, 0x23, 0x45]);
    assert_eq!(frame.len(), 4 + 0x012345);
    assert_eq!(message_length([0x00, 0x01, 0x23, 0x45]).unwrap(), 0x012345);
}

#[test]
fn what_follows_a_frame_is_left() {
    let mut bytes = send_message(b"one").unwrap();
    bytes.extend(send_message(b"two").unwrap());
    assert_eq!(recv_message(&bytes).unwrap().unwrap(), b"one");
    assert_eq!(recv_message(&bytes[7..]).unwrap().unwrap(), b"two");
    assert_eq!(recv_message(&send_message(b"").unwrap()).unwrap().unwrap(), b"");
}

#[test]
fn messages_have_a_largest_size() {
    let largest = vec![1; MAX_MESSAGE_SIZE as usize];
    assert_eq!(recv_message(&send_message(&largest).unwrap()).unwrap().unwrap(), largest);
    let error = send_message(&vec![1; MAX_MESSAGE_SIZE as usize + 1]).unwrap_err();
    assert_eq!(error, TransportError::TooLarge { len: 1_048_577 });
    assert_eq!(error.message(), "message too large: 1048577 bytes (max 1048576)");
    assert_eq!(message_length([0x00, 0x10, 0x00, 0x00]).unwrap(), MAX_MESSAGE_SIZE);
    let error = recv_message(&[0x00, 0x10, 0x00, 0x01, 5]).unwrap_err();
    assert_eq!(error, TransportError::IncomingTooLarge { announced: 1_048_577 });
    assert_eq!(error.message(), "incoming message too large: 1048577 bytes (max 1048576)");
    assert!(message_length([0xff, 0xff, 0xff, 0xff]).is_err());
}

#[test]
fn a_cut_frame_delivers_nothing() {
    let frame = send_message(b"abc").unwrap();
    for n in 0..4 {
        assert_eq!(recv_message(&frame[..n]), Ok(None));
    }
    for n in 4..7 {
        assert_eq!(recv_message(&frame[..n]), Err(TransportError::CutShort));
    }
    assert_eq!(TransportError::CutShort.message(), "failed to read message body");
}
