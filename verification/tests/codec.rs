use tftpd::packet::{DecodeError, ErrorCode, Packet};
use tftpd::protocol::Protocol;

fn rrq(filename: &str, mode: &str) -> Packet {
    Packet::RRQ(filename.to_string(), mode.to_string())
}

fn wrq(filename: &str, mode: &str) -> Packet {
    Packet::WRQ(filename.to_string(), mode.to_string())
}

#[test]
fn encode_rrq_exact() {
    let bytes = Protocol::encode(rrq("hi", "octet"));
    assert_eq!(
        bytes,
        vec![0, 1, b'h', b'i', 0, b'o', b'c', b't', b'e', b't', 0]
    );
}

#[test]
fn encode_wrq_exact() {
    let bytes = Protocol::encode(wrq("up", "octet"));
    assert_eq!(
        bytes,
        vec![0, 2, b'u', b'p', 0, b'o', b'c', b't', b'e', b't', 0]
    );
}

#[test]
fn encode_data_exact() {
    let bytes = Protocol::encode(Packet::Data(1, Box::new(b"world".to_vec())));
    assert_eq!(bytes, vec![0, 3, 0, 1, b'w', b'o', b'r', b'l', b'd']);
}

#[test]
fn encode_ack_exact() {
    assert_eq!(Protocol::encode(Packet::ACK(5)), vec![0, 4, 0, 5]);
    assert_eq!(Protocol::encode(Packet::ACK(0x1234)), vec![0, 4, 0x12, 0x34]);
}

#[test]
fn encode_error_exact() {
    let bytes = Protocol::encode(Packet::ERROR(
        ErrorCode::FileNotFound,
        "nope".to_string(),
    ));
    assert_eq!(bytes, vec![0, 5, 0, 1, b'n', b'o', b'p', b'e', 0]);
}

#[test]
fn round_trip_rrq() {
    let p = rrq("hello", "octet");
    let decoded = Protocol::decode(&Protocol::encode(p.clone())).unwrap();
    assert_eq!(decoded, p);
}

#[test]
fn round_trip_wrq() {
    let p = wrq("upload.bin", "netascii");
    let decoded = Protocol::decode(&Protocol::encode(p.clone())).unwrap();
    assert_eq!(decoded, p);
}

#[test]
fn round_trip_rrq_non_ascii() {
    let p = rrq("na\u{ef}ve \u{1F600}", "octet");
    let decoded = Protocol::decode(&Protocol::encode(p.clone())).unwrap();
    assert_eq!(decoded, p);
}

#[test]
fn round_trip_data() {
    let p = Packet::Data(7, Box::new(vec![0, 1, 2, 255, 0]));
    let decoded = Protocol::decode(&Protocol::encode(p.clone())).unwrap();
    assert_eq!(decoded, p);
}

#[test]
fn round_trip_data_empty_payload() {
    let p = Packet::Data(2, Box::new(Vec::new()));
    let decoded = Protocol::decode(&Protocol::encode(p.clone())).unwrap();
    assert_eq!(decoded, p);
}

#[test]
fn round_trip_ack() {
    for block_no in [0u16, 1, 512, 0xffff] {
        let p = Packet::ACK(block_no);
        let decoded = Protocol::decode(&Protocol::encode(p.clone())).unwrap();
        assert_eq!(decoded, p);
    }
}

#[test]
fn round_trip_error_every_code() {
    for code in 0..8u16 {
        let p = Packet::ERROR(ErrorCode::from_u16(code), format!("detail {}", code));
        let decoded = Protocol::decode(&Protocol::encode(p.clone())).unwrap();
        assert_eq!(decoded, p);
    }
}

#[test]
fn truncated_rrq_every_prefix() {
    let bytes = Protocol::encode(rrq("hello", "octet"));
    for cut in 0..bytes.len() {
        assert_eq!(
            Protocol::decode(&bytes[..cut]),
            Err(DecodeError::Truncated),
            "prefix of length {}",
            cut
        );
    }
}

#[test]
fn truncated_wrq_every_prefix() {
    let bytes = Protocol::encode(wrq("up", "octet"));
    for cut in 0..bytes.len() {
        assert_eq!(Protocol::decode(&bytes[..cut]), Err(DecodeError::Truncated));
    }
}

#[test]
fn truncated_ack_every_prefix() {
    let bytes = Protocol::encode(Packet::ACK(9));
    for cut in 0..bytes.len() {
        assert_eq!(Protocol::decode(&bytes[..cut]), Err(DecodeError::Truncated));
    }
}

#[test]
fn truncated_error_every_prefix() {
    let bytes = Protocol::encode(Packet::ERROR(ErrorCode::NotDefined, "x".to_string()));
    for cut in 0..bytes.len() {
        assert_eq!(Protocol::decode(&bytes[..cut]), Err(DecodeError::Truncated));
    }
}

#[test]
fn truncated_data_header() {
    // A DATA packet cut inside its 4-byte header is truncated; a longer
    // prefix is a valid DATA packet with a shorter payload, because the
    // payload is all remaining bytes.
    let bytes = Protocol::encode(Packet::Data(3, Box::new(b"abc".to_vec())));
    for cut in 0..4 {
        assert_eq!(Protocol::decode(&bytes[..cut]), Err(DecodeError::Truncated));
    }
    let shorter = Protocol::decode(&bytes[..5]).unwrap();
    assert_eq!(shorter, Packet::Data(3, Box::new(b"a".to_vec())));
}

#[test]
fn invalid_utf8_filename() {
    // 0xff never appears in valid UTF-8.
    let buf = vec![0, 1, 0xff, 0xfe, 0, b'o', 0];
    assert_eq!(Protocol::decode(&buf), Err(DecodeError::InvalidText));
}

#[test]
fn invalid_utf8_mode() {
    let buf = vec![0, 2, b'f', 0, 0xff, 0];
    assert_eq!(Protocol::decode(&buf), Err(DecodeError::InvalidText));
}

#[test]
fn invalid_utf8_error_message() {
    let buf = vec![0, 5, 0, 1, 0xc0, 0x20, 0];
    assert_eq!(Protocol::decode(&buf), Err(DecodeError::InvalidText));
}

#[test]
fn unknown_opcodes() {
    assert_eq!(
        Protocol::decode(&[0, 0, 1, 2]),
        Err(DecodeError::UnknownOpcode)
    );
    assert_eq!(
        Protocol::decode(&[0, 6, 0, 0]),
        Err(DecodeError::UnknownOpcode)
    );
    assert_eq!(
        Protocol::decode(&[9, 9, 0, 0]),
        Err(DecodeError::UnknownOpcode)
    );
}

#[test]
fn empty_and_tiny_buffers() {
    assert_eq!(Protocol::decode(&[]), Err(DecodeError::Truncated));
    assert_eq!(Protocol::decode(&[0]), Err(DecodeError::Truncated));
}

#[test]
fn ack_ignores_trailing_bytes() {
    let decoded = Protocol::decode(&[0, 4, 0, 5, 9, 9]).unwrap();
    assert_eq!(decoded, Packet::ACK(5));
}

#[test]
fn error_code_round_trip() {
    for code in 0..8u16 {
        assert_eq!(ErrorCode::from_u16(code).to_u16(), code);
    }
}

#[test]
fn error_code_fallback() {
    assert_eq!(ErrorCode::from_u16(8), ErrorCode::NotDefined);
    assert_eq!(ErrorCode::from_u16(0xffff), ErrorCode::NotDefined);
}

#[test]
fn decode_error_with_out_of_range_code() {
    // Code 9 on the wire falls back to NotDefined.
    let buf = vec![0, 5, 0, 9, b'm', 0];
    let decoded = Protocol::decode(&buf).unwrap();
    assert_eq!(decoded, Packet::ERROR(ErrorCode::NotDefined, "m".to_string()));
}
