use tftpd::packet::{ErrorCode, Packet};
use tftpd::stream::{ReadStream, StringStream, WriteStream};
use tftpd::text::expected_got_message;
use tftpd::tftp::{
    handle_ack, handle_data, handle_error, handle_file_read, handle_rrq, handle_wrq, BLOCK_SIZE,
    MAX_PACKET_SIZE, Peer,
};

fn memory_sink() -> WriteStream {
    WriteStream::Memory(StringStream::from_bytes(Vec::new()))
}

fn sink_bytes(peer: &Peer) -> Vec<u8> {
    match &peer.write_stream {
        WriteStream::Memory(stream) => stream.bytes.clone(),
        WriteStream::Null(_) => panic!("no sink attached"),
    }
}

#[test]
fn constants() {
    assert_eq!(BLOCK_SIZE, 512);
    assert_eq!(MAX_PACKET_SIZE, 516);
}

#[test]
fn rrq_hello_serves_world() {
    // The resolver maps "hello" to the five-byte resource "world".
    let stream = handle_file_read(&"hello".to_string()).expect("fixture resolves");
    let mut peer = Peer::new(0);
    let reply = handle_rrq(&mut peer, Ok(stream));
    assert_eq!(reply, Some(Packet::Data(1, Box::new(b"world".to_vec()))));
    assert_eq!(peer.last_block_no, 1);
    // The short block (5 < 512 bytes) was the whole transfer: the
    // acknowledgment finds the stream exhausted and draws no reply.
    let reply = handle_ack(&mut peer, 1);
    assert_eq!(reply, None);
    assert_eq!(peer.last_block_no, 1);
}

#[test]
fn rrq_miss_replies_file_not_found() {
    assert!(handle_file_read(&"missing.txt".to_string()).is_none());
    let mut peer = Peer::new(0);
    let reply = handle_rrq(&mut peer, Err("no such resource".to_string()));
    assert_eq!(
        reply,
        Some(Packet::ERROR(
            ErrorCode::FileNotFound,
            "no such resource".to_string()
        ))
    );
    assert_eq!(peer.last_block_no, 0);
    assert!(!peer.dead);
}

#[test]
fn rrq_multi_block_read() {
    let mut content = vec![7u8; 600];
    content[0] = 1;
    content[599] = 9;
    let mut peer = Peer::new(0);
    let reply = handle_rrq(
        &mut peer,
        Ok(ReadStream::Memory(StringStream::from_bytes(content.clone()))),
    );
    assert_eq!(
        reply,
        Some(Packet::Data(1, Box::new(content[..512].to_vec())))
    );
    assert_eq!(peer.last_block_no, 1);
    let reply = handle_ack(&mut peer, 1);
    assert_eq!(
        reply,
        Some(Packet::Data(2, Box::new(content[512..].to_vec())))
    );
    assert_eq!(peer.last_block_no, 2);
    // The 88-byte block was short, so the next acknowledgment ends the
    // transfer silently.
    assert_eq!(handle_ack(&mut peer, 2), None);
}

#[test]
fn wrq_then_data_then_retransmission() {
    let mut peer = Peer::new(0);
    let reply = handle_wrq(&mut peer, Ok(memory_sink()));
    assert_eq!(reply, Some(Packet::ACK(0)));
    assert_eq!(peer.last_block_no, 0);

    let reply = handle_data(&mut peer, 1, Box::new(b"abc".to_vec()));
    assert_eq!(reply, Some(Packet::ACK(1)));
    assert_eq!(peer.last_block_no, 1);
    assert_eq!(sink_bytes(&peer), b"abc".to_vec());

    // The same block again: re-acknowledged, appended only once.
    let reply = handle_data(&mut peer, 1, Box::new(b"abc".to_vec()));
    assert_eq!(reply, Some(Packet::ACK(1)));
    assert_eq!(sink_bytes(&peer), b"abc".to_vec());

    let reply = handle_data(&mut peer, 2, Box::new(b"def".to_vec()));
    assert_eq!(reply, Some(Packet::ACK(2)));
    assert_eq!(sink_bytes(&peer), b"abcdef".to_vec());
}

#[test]
fn wrq_failure_replies_not_defined() {
    let mut peer = Peer::new(0);
    let reply = handle_wrq(&mut peer, Err("cannot create".to_string()));
    assert_eq!(
        reply,
        Some(Packet::ERROR(
            ErrorCode::NotDefined,
            "cannot create".to_string()
        ))
    );
}

#[test]
fn stale_ack_reports_expected_and_got() {
    let stream = handle_file_read(&"hello".to_string()).unwrap();
    let mut peer = Peer::new(0);
    handle_rrq(&mut peer, Ok(stream));
    assert_eq!(peer.last_block_no, 1);
    let reply = handle_ack(&mut peer, 5);
    assert_eq!(
        reply,
        Some(Packet::ERROR(
            ErrorCode::UnknownTransferId,
            "expected=1, got=5".to_string()
        ))
    );
    assert_eq!(peer.last_block_no, 1);
}

#[test]
fn out_of_order_data_reports_expected_and_got() {
    let mut peer = Peer::new(0);
    handle_wrq(&mut peer, Ok(memory_sink()));
    let reply = handle_data(&mut peer, 3, Box::new(b"zzz".to_vec()));
    assert_eq!(
        reply,
        Some(Packet::ERROR(
            ErrorCode::UnknownTransferId,
            "expected=1, got=3".to_string()
        ))
    );
    assert_eq!(peer.last_block_no, 0);
    assert_eq!(sink_bytes(&peer), Vec::<u8>::new());
}

#[test]
fn peer_abort_silences_every_later_packet() {
    let mut peer = Peer::new(0);
    handle_wrq(&mut peer, Ok(memory_sink()));
    handle_data(&mut peer, 1, Box::new(b"abc".to_vec()));

    let reply = handle_error(&mut peer, ErrorCode::NotDefined, "client gave up".to_string());
    assert_eq!(reply, None);
    assert!(peer.dead);

    // Every subsequent packet: no reply, no state mutation.
    assert_eq!(handle_data(&mut peer, 2, Box::new(b"def".to_vec())), None);
    assert_eq!(sink_bytes(&peer), b"abc".to_vec());
    assert_eq!(handle_ack(&mut peer, 1), None);
    assert_eq!(
        handle_rrq(&mut peer, Ok(ReadStream::Null(tftpd::stream::NullStream))),
        None
    );
    assert_eq!(handle_wrq(&mut peer, Ok(memory_sink())), None);
    assert_eq!(peer.last_block_no, 1);
    assert!(peer.dead);
}

#[test]
fn expected_got_message_renders_decimals() {
    assert_eq!(expected_got_message(1, 5), "expected=1, got=5".to_string());
    assert_eq!(
        expected_got_message(10, 255),
        "expected=10, got=255".to_string()
    );
    assert_eq!(
        expected_got_message(65536, 0),
        "expected=65536, got=0".to_string()
    );
    assert_eq!(expected_got_message(0, 0), "expected=0, got=0".to_string());
}
