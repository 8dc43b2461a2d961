use hazel::frame::{
    decode_frame, encode_frame, parse_rpc_method, parse_uuid, process_payload, Empty, FrameBuffer,
    RpcError, UUID_LEN,
};

fn request_bytes() -> Vec<u8> {
    let mut expected = vec![5u8];
    expected.extend_from_slice(b"Login");
    expected.push(1);
    expected.extend_from_slice(&[7u8; 16]);
    expected.extend_from_slice(&[3, 0, 0, 0]);
    expected.extend_from_slice(&[1, 2, 3]);
    expected
}

#[test]
fn encode_request_frame() {
    let bytes = encode_frame("Login", Some(&[7u8; 16]), &[1, 2, 3]);
    assert_eq!(bytes, request_bytes());
}

#[test]
fn encode_notification_frame() {
    let bytes = encode_frame("Ping", None, &[]);
    assert_eq!(bytes, vec![4, b'P', b'i', b'n', b'g', 0, 0, 0, 0, 0]);
}

#[test]
fn encode_long_body_length_is_little_endian() {
    let body = vec![9u8; 300];
    let bytes = encode_frame("k", None, &body);
    assert_eq!(&bytes[..7], &[1, b'k', 0, 44, 1, 0, 0]);
    assert_eq!(bytes.len(), 7 + 300);
}

#[test]
fn decode_request_frame() {
    let bytes = request_bytes();
    let (frame, used) = decode_frame(&bytes).unwrap().unwrap();
    assert_eq!(frame.key, "Login");
    assert_eq!(frame.id, Some([7u8; 16]));
    assert_eq!(frame.body, &[1, 2, 3]);
    assert_eq!(used, bytes.len());
}

#[test]
fn decode_gives_back_what_encode_wrote() {
    let id = [0xabu8; UUID_LEN];
    for (key, id, body) in [
        ("GetVoiceChannels", None, vec![]),
        ("JoinVoiceChannel", Some(&id), vec![0x91, 0x05]),
        ("ключ", Some(&id), vec![1; 70]),
    ] {
        let bytes = encode_frame(key, id, &body);
        let (frame, used) = decode_frame(&bytes).unwrap().unwrap();
        assert_eq!(frame.key, key);
        assert_eq!(frame.id, id.copied());
        assert_eq!(frame.body, &body[..]);
        assert_eq!(used, bytes.len());
    }
}

#[test]
fn decode_every_prefix_asks_for_more() {
    let bytes = request_bytes();
    for n in 0..bytes.len() {
        assert!(matches!(decode_frame(&bytes[..n]), Ok(None)), "prefix of {n} bytes");
    }
}

#[test]
fn decode_two_frames_in_a_row() {
    let mut bytes = encode_frame("a", None, &[1]);
    let second = encode_frame("bc", Some(&[2u8; 16]), &[4, 5]);
    bytes.extend_from_slice(&second);
    let (first, used) = decode_frame(&bytes).unwrap().unwrap();
    assert_eq!(first.key, "a");
    assert_eq!(first.body, &[1]);
    assert_eq!(used, 8);
    let (next, used2) = decode_frame(&bytes[used..]).unwrap().unwrap();
    assert_eq!(next.key, "bc");
    assert_eq!(next.id, Some([2u8; 16]));
    assert_eq!(next.body, &[4, 5]);
    assert_eq!(used2, second.len());
}

#[test]
fn decode_rejects_invalid_utf8_key() {
    let bytes = [2u8, 0xff, 0xfe, 0, 0, 0, 0, 0];
    assert_eq!(decode_frame(&bytes).err(), Some(RpcError::KeyDeserializeError));
}

#[test]
fn parse_rpc_method_cases() {
    assert_eq!(parse_rpc_method(&[3, b'a', b'b']), Ok(None));
    assert_eq!(parse_rpc_method(&[2, b'h', b'i', 9]), Ok(Some(("hi".to_string(), 2))));
    assert_eq!(parse_rpc_method(&[0]), Ok(Some((String::new(), 0))));
    assert_eq!(parse_rpc_method(&[1, 0xc3]), Err(RpcError::KeyDeserializeError));
}

#[test]
fn parse_uuid_cases() {
    assert_eq!(parse_uuid(&[], 0), Ok(None));
    assert_eq!(parse_uuid(&[5, 0, 9], 1), Ok(Some((None, 2))));
    assert_eq!(parse_uuid(&[1, 1, 2], 0), Ok(None));
    let mut buf = vec![9u8, 1];
    buf.extend(0u8..16);
    let mut id = [0u8; 16];
    for (i, b) in id.iter_mut().enumerate() {
        *b = i as u8;
    }
    assert_eq!(parse_uuid(&buf, 1), Ok(Some((Some(id), 18))));
    assert_eq!(parse_uuid(&buf[..17], 1), Ok(None));
}

#[test]
fn process_payload_cases() {
    assert_eq!(process_payload(&[2, 0, 0, 0, 9, 8], 0), Some((4, 6)));
    assert_eq!(process_payload(&[7, 2, 0, 0, 0, 9, 8, 1], 1), Some((5, 7)));
    assert_eq!(process_payload(&[2, 0, 0, 0, 9], 0), None);
    assert_eq!(process_payload(&[1, 0], 0), None);
    assert_eq!(process_payload(&[0, 0, 0, 0], 0), Some((4, 4)));
}

#[test]
fn empty_body_type() {
    let e = Empty {};
    assert_eq!(e, Empty {});
}

#[test]
fn frame_buffer_hands_out_frames_in_order() {
    let mut stream = encode_frame("first", Some(&[1u8; 16]), &[10, 11]);
    stream.extend_from_slice(&encode_frame("second", None, &[12]));
    let mut buf = FrameBuffer::new();
    assert!(matches!(buf.next_frame(), Ok(None)));
    let (head, tail) = stream.split_at(9);
    buf.extend(head);
    assert!(matches!(buf.next_frame(), Ok(None)));
    assert_eq!(buf.len(), 9);
    buf.extend(tail);
    let first = buf.next_frame().unwrap().unwrap();
    assert_eq!(first.key, "first");
    assert_eq!(first.id, Some([1u8; 16]));
    assert_eq!(first.body, vec![10, 11]);
    let second = buf.next_frame().unwrap().unwrap();
    assert_eq!(second.key, "second");
    assert_eq!(second.id, None);
    assert_eq!(second.body, vec![12]);
    assert_eq!(buf.len(), 0);
    assert!(matches!(buf.next_frame(), Ok(None)));
}

#[test]
fn frame_buffer_keeps_bytes_on_error() {
    let mut buf = FrameBuffer::new();
    buf.extend(&[1, 0xff, 0, 0, 0, 0, 0]);
    assert!(matches!(buf.next_frame(), Err(RpcError::KeyDeserializeError)));
    assert_eq!(buf.len(), 7);
    buf.clear();
    assert_eq!(buf.len(), 0);
}
