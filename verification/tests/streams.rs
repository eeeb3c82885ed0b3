use tftpd::stream::{NullStream, StringStream, TftpReadStream, TftpWriteStream};

#[test]
fn null_stream_reads_nothing() {
    let mut stream = NullStream;
    assert_eq!(stream.get_block(0, 512), Ok(Vec::new()));
    assert_eq!(stream.get_block(4096, 16), Ok(Vec::new()));
}

#[test]
fn null_stream_discards_writes() {
    let mut stream = NullStream;
    assert_eq!(stream.add_block(Box::new(b"dropped".to_vec())), Ok(()));
}

#[test]
fn string_stream_new_holds_utf8_bytes() {
    let stream = StringStream::new("world".to_string());
    assert_eq!(stream.bytes, b"world".to_vec());
}

#[test]
fn string_stream_windows() {
    let mut stream = StringStream::from_bytes(b"abcdef".to_vec());
    assert_eq!(stream.get_block(0, 3), Ok(b"abc".to_vec()));
    assert_eq!(stream.get_block(3, 3), Ok(b"def".to_vec()));
    // The same window again: reads are repeatable.
    assert_eq!(stream.get_block(0, 3), Ok(b"abc".to_vec()));
    // A window over the end comes back short.
    assert_eq!(stream.get_block(4, 10), Ok(b"ef".to_vec()));
    // A window at or past the end comes back empty.
    assert_eq!(stream.get_block(6, 10), Ok(Vec::new()));
    assert_eq!(stream.get_block(100, 10), Ok(Vec::new()));
    // A zero-length window is empty.
    assert_eq!(stream.get_block(2, 0), Ok(Vec::new()));
}

#[test]
fn string_stream_appends() {
    let mut stream = StringStream::from_bytes(Vec::new());
    assert_eq!(stream.add_block(Box::new(b"abc".to_vec())), Ok(()));
    assert_eq!(stream.add_block(Box::new(b"def".to_vec())), Ok(()));
    assert_eq!(stream.bytes, b"abcdef".to_vec());
}
