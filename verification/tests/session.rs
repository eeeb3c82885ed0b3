use tftpd::packet::{ErrorCode, Packet};
use tftpd::protocol::Protocol;
use tftpd::session::{reap_due, PeerAddr, SessionTable, PEER_MAX_AGE_SEC};
use tftpd::stream::{StringStream, WriteStream};
use tftpd::tftp::{handle_file_read, Resolution};

fn addr(n: u16) -> PeerAddr {
    PeerAddr { ip: 0xffff_0a00_0001, port: n }
}

fn memory_sink() -> WriteStream {
    WriteStream::Memory(StringStream::from_bytes(Vec::new()))
}

#[test]
fn lookup_creates_then_refreshes() {
    let mut table = SessionTable::new();
    assert_eq!(table.len(), 0);
    assert!(!table.contains_addr(addr(1)));

    table.lookup_or_create(addr(1), 7);
    assert_eq!(table.len(), 1);
    assert!(table.contains_addr(addr(1)));
    assert_eq!(table.get(addr(1)).unwrap().last_activity, 7);
    assert_eq!(table.get(addr(1)).unwrap().last_block_no, 0);
    assert!(!table.get(addr(1)).unwrap().dead);

    // A second datagram from the same address refreshes, not duplicates.
    table.lookup_or_create(addr(1), 30);
    assert_eq!(table.len(), 1);
    assert_eq!(table.get(addr(1)).unwrap().last_activity, 30);
}

#[test]
fn peer_isolation() {
    let mut table = SessionTable::new();

    // Peer A and peer B each start a write transfer.
    let reply = table.handle_packet(
        addr(1),
        0,
        Packet::WRQ("a.bin".to_string(), "octet".to_string()),
        Resolution::Write(Ok(memory_sink())),
    );
    assert_eq!(reply, Some(Packet::ACK(0)));
    let reply = table.handle_packet(
        addr(2),
        0,
        Packet::WRQ("b.bin".to_string(), "octet".to_string()),
        Resolution::Write(Ok(memory_sink())),
    );
    assert_eq!(reply, Some(Packet::ACK(0)));

    // Packets addressed to A move only A.
    let reply = table.handle_packet(
        addr(1),
        1,
        Packet::Data(1, Box::new(b"abc".to_vec())),
        Resolution::NotNeeded,
    );
    assert_eq!(reply, Some(Packet::ACK(1)));
    let reply = table.handle_packet(
        addr(1),
        2,
        Packet::ERROR(ErrorCode::NotDefined, "bye".to_string()),
        Resolution::NotNeeded,
    );
    assert_eq!(reply, None);

    let a = table.get(addr(1)).unwrap();
    assert_eq!(a.last_block_no, 1);
    assert!(a.dead);

    let b = table.get(addr(2)).unwrap();
    assert_eq!(b.last_block_no, 0);
    assert!(!b.dead);
    match &b.write_stream {
        WriteStream::Memory(stream) => assert_eq!(stream.bytes, Vec::<u8>::new()),
        WriteStream::Null(_) => panic!("B lost its sink"),
    }
}

#[test]
fn reaping_by_age() {
    let mut table = SessionTable::new();
    table.lookup_or_create(addr(1), 0);
    table.lookup_or_create(addr(2), 250);

    // At 301 ticks, peer 1 has been idle 301 > 300 and is evicted;
    // peer 2 has been idle 51 and survives the same sweep.
    table.reap(301, PEER_MAX_AGE_SEC);
    assert!(!table.contains_addr(addr(1)));
    assert!(table.contains_addr(addr(2)));
    assert_eq!(table.len(), 1);
    assert_eq!(table.get(addr(2)).unwrap().last_activity, 250);
}

#[test]
fn reaping_dead_peers() {
    let mut table = SessionTable::new();
    table.lookup_or_create(addr(1), 5);
    let reply = table.handle_packet(
        addr(1),
        5,
        Packet::ERROR(ErrorCode::NotDefined, "stop".to_string()),
        Resolution::NotNeeded,
    );
    assert_eq!(reply, None);
    table.lookup_or_create(addr(2), 5);

    // The dead peer is gone right after the next sweep, however young.
    table.reap(6, PEER_MAX_AGE_SEC);
    assert!(!table.contains_addr(addr(1)));
    assert!(table.contains_addr(addr(2)));
}

#[test]
fn reap_cadence() {
    assert!(!reap_due(0, 0));
    assert!(!reap_due(10, 0));
    assert!(reap_due(11, 0));
    assert!(!reap_due(5, 10));
}

#[test]
fn datagram_to_reply_end_to_end() {
    // The full inbound path: decode the wire bytes, resolve, dispatch,
    // encode the reply — as the receive loop drives it.
    let mut table = SessionTable::new();
    let request = Protocol::encode(Packet::RRQ("hello".to_string(), "octet".to_string()));
    let packet = Protocol::decode(&request).unwrap();
    let resolution = match &packet {
        Packet::RRQ(filename, _) => Resolution::Read(
            handle_file_read(filename).ok_or_else(|| "file not found".to_string()),
        ),
        _ => Resolution::NotNeeded,
    };
    let reply = table.handle_packet(addr(9), 0, packet, resolution).unwrap();
    assert_eq!(
        Protocol::encode(reply),
        vec![0, 3, 0, 1, b'w', b'o', b'r', b'l', b'd']
    );
    assert_eq!(table.get(addr(9)).unwrap().last_block_no, 1);
}
