use dezap::protocol::{
    decode_message, encode_message, frame_length, read_message, utc_timestamp, write_message,
    CipherFrame, ControlMessage, FileAccept, FileChunk, FileMetadata, FileOffer, FileReject,
    HelloMessage, ProtocolError, TextMessage, WireMessage, MAX_FRAME_BYTES,
};

fn text(id: u64, author: &str, body: &str, timestamp: i64) -> WireMessage {
    WireMessage::Text(TextMessage {
        id,
        author: author.to_string(),
        body: body.to_string(),
        timestamp,
    })
}

#[test]
fn frame_round_trip() {
    let message = text(42, "tester", "hello", utc_timestamp());
    let mut buffer = Vec::new();
    write_message(&mut buffer, &message).unwrap();
    let decoded = read_message(&buffer).unwrap().unwrap();
    assert_eq!(message, decoded.0);
    assert_eq!(decoded.1, buffer.len());
}

#[test]
fn encode_decode() {
    let meta = WireMessage::FileMeta(FileMetadata {
        id: 7,
        name: "file.bin".into(),
        original_size: 128,
        compressed_size: 128,
    });
    let bytes = encode_message(&meta);
    let decoded = decode_message(&bytes).unwrap();
    assert_eq!(meta, decoded);
}

fn every_variant() -> Vec<WireMessage> {
    vec![
        text(1, "alice", "héllo wörld", -5),
        WireMessage::FileMeta(FileMetadata { id: 2, name: "a.txt".into(), original_size: 10, compressed_size: 9 }),
        WireMessage::FileChunk(FileChunk { id: 3, offset: 64, bytes: vec![1, 2, 3], last: true }),
        WireMessage::Control(ControlMessage::Hello(HelloMessage {
            username: "bob".into(),
            password: Some("pw".into()),
            public_key: [7u8; 32],
        })),
        WireMessage::Control(ControlMessage::Hello(HelloMessage { username: "bob".into(), password: None, public_key: [0u8; 32] })),
        WireMessage::Control(ControlMessage::FileOffer(FileOffer { id: 4, name: "x".into(), original_size: 5, compressed_size: 6 })),
        WireMessage::Control(ControlMessage::FileAccept(FileAccept { id: 5 })),
        WireMessage::Control(ControlMessage::FileReject(FileReject { id: 6, reason: Some("no".into()) })),
        WireMessage::Control(ControlMessage::FileReject(FileReject { id: 6, reason: None })),
        WireMessage::Control(ControlMessage::Denied("Senha incorreta".into())),
        WireMessage::Control(ControlMessage::Info("hi".into())),
        WireMessage::Ciphertext(CipherFrame { nonce: [9u8; 12], body: vec![0xde, 0xad] }),
    ]
}

#[test]
fn every_variant_round_trips() {
    for m in every_variant() {
        let bytes = encode_message(&m);
        let back = decode_message(&bytes).unwrap();
        assert_eq!(m, back);
    }
}

#[test]
fn frames_read_back_in_sequence() {
    let mut buffer = Vec::new();
    let all = every_variant();
    for m in &all {
        write_message(&mut buffer, m).unwrap();
    }
    let mut pos = 0;
    for m in &all {
        let (got, used) = read_message(&buffer[pos..]).unwrap().unwrap();
        assert_eq!(*m, got);
        pos += used;
    }
    assert!(read_message(&buffer[pos..]).unwrap().is_none());
}

#[test]
fn text_payload_layout() {
    let bytes = encode_message(&text(1, "a", "b", 2));
    let mut expected = vec![0u8];
    expected.extend_from_slice(&1u64.to_le_bytes());
    expected.extend_from_slice(&1u64.to_le_bytes());
    expected.push(b'a');
    expected.extend_from_slice(&1u64.to_le_bytes());
    expected.push(b'b');
    expected.extend_from_slice(&2u64.to_le_bytes());
    assert_eq!(bytes, expected);
}

#[test]
fn empty_input_has_no_frame() {
    assert!(read_message(&[]).unwrap().is_none());
}

#[test]
fn three_byte_prefix_is_truncated() {
    assert_eq!(read_message(&[0, 0, 1]).unwrap_err(), ProtocolError::Truncated);
}

#[test]
fn oversize_length_prefix_is_rejected_before_body() {
    let header = ((MAX_FRAME_BYTES as u32) + 1).to_be_bytes();
    assert_eq!(frame_length(&header).unwrap_err(), ProtocolError::FrameTooLarge);
    assert_eq!(read_message(&header).unwrap_err(), ProtocolError::FrameTooLarge);
    assert_eq!(frame_length(&(MAX_FRAME_BYTES as u32).to_be_bytes()).unwrap(), MAX_FRAME_BYTES);
}

#[test]
fn cut_body_is_truncated() {
    let mut buffer = Vec::new();
    write_message(&mut buffer, &text(1, "a", "b", 2)).unwrap();
    buffer.pop();
    assert_eq!(read_message(&buffer).unwrap_err(), ProtocolError::Truncated);
}

#[test]
fn garbage_payload_is_malformed() {
    let frame = [0u8, 0, 0, 2, 9, 9];
    assert_eq!(read_message(&frame).unwrap_err(), ProtocolError::Malformed);
    assert_eq!(decode_message(&[0u8, 1]).unwrap_err(), ProtocolError::Malformed);
}

#[test]
fn trailing_bytes_are_malformed() {
    let mut bytes = encode_message(&text(1, "a", "b", 2));
    bytes.push(0);
    assert_eq!(decode_message(&bytes).unwrap_err(), ProtocolError::Malformed);
}

#[test]
fn oversize_frame_writes_nothing() {
    let big = WireMessage::FileChunk(FileChunk { id: 1, offset: 0, bytes: vec![0u8; 300 * 1024], last: true });
    let mut buffer = vec![1u8, 2, 3];
    assert_eq!(write_message(&mut buffer, &big).unwrap_err(), ProtocolError::FrameTooLarge);
    assert_eq!(buffer, vec![1u8, 2, 3]);
}

#[test]
fn frame_prefix_is_big_endian_length() {
    let m = WireMessage::Control(ControlMessage::FileAccept(FileAccept { id: 5 }));
    let mut buffer = Vec::new();
    write_message(&mut buffer, &m).unwrap();
    let payload = encode_message(&m);
    assert_eq!(&buffer[..4], &(payload.len() as u32).to_be_bytes());
    assert_eq!(&buffer[4..], &payload[..]);
}

#[test]
fn timestamp_is_after_2020() {
    assert!(utc_timestamp() > 1_577_836_800);
    assert_eq!(dezap::protocol::timestamp_from(None), 0);
    assert_eq!(dezap::protocol::timestamp_from(Some(12)), 12);
}
