//! The per-peer protocol engine: the lock-step block-transfer state
//! machine driving RRQ/WRQ/DATA/ACK/ERROR handling against a peer's
//! state.
//!
//! Every handler takes the addressed peer and yields at most one reply
//! packet; the caller sends it. Resolving a requested name to a
//! readable or writable resource is the storage resolver's business, an
//! external collaborator: the RRQ/WRQ handlers take its outcome as an
//! argument.

use vstd::prelude::*;
use vstd::string::StringExecFns;

use crate::packet::{ErrorCode, Packet, PacketModel};
use crate::stream::{read_window, ReadStream, TftpReadStream, TftpWriteStream, WriteStream};
use crate::stream::NullStream;
use crate::text::{expected_got, expected_got_message};

verus! {

/// Payload bytes per DATA packet; a shorter DATA payload signals the
/// final block of a read transfer.
pub const BLOCK_SIZE: usize = 512;

/// The largest datagram the protocol produces: opcode, block number,
/// and a full DATA payload.
pub const MAX_PACKET_SIZE: usize = 2 + 2 + 512;

/// The per-peer transfer state, keyed outside by the remote address.
pub struct Peer {
    /// The lock-step counter: 0 before any block is exchanged.
    pub last_block_no: u16,
    /// When the peer last sent a datagram, in the server's tick count.
    pub last_activity: u64,
    /// The resource serving this peer's read transfer; the sentinel
    /// until an RRQ attaches one.
    pub read_stream: ReadStream,
    /// The sink serving this peer's write transfer; the sentinel until
    /// a WRQ attaches one.
    pub write_stream: WriteStream,
    /// The payload of the block most recently sent to the peer.
    pub buffer: Vec<u8>,
    /// The terminal marker: a dead peer accepts no further transitions
    /// and waits for the reaper.
    pub dead: bool,
}

/// True when the peer is in its initial state: sentinel streams, block
/// counter 0, last active at `now`.
pub open spec fn is_fresh_peer(peer: Peer, now: u64) -> bool {
    &&& peer.last_block_no == 0
    &&& peer.last_activity == now
    &&& peer.read_stream == ReadStream::Null(NullStream)
    &&& peer.write_stream == WriteStream::Null(NullStream)
    &&& peer.buffer@ == Seq::<u8>::empty()
    &&& !peer.dead
}

impl Peer {
    /// A peer in its initial state, last active now.
    pub fn new(now: u64) -> (peer: Peer)
        ensures
            is_fresh_peer(peer, now),
    {
        Peer {
            last_block_no: 0,
            last_activity: now,
            read_stream: ReadStream::Null(NullStream),
            write_stream: WriteStream::Null(NullStream),
            buffer: Vec::new(),
            dead: false,
        }
    }
}

/// The resolver outcome the caller hands in beside a packet: nothing
/// for the packet kinds that need no resource, else the resolved
/// stream or the resolver's error text.
pub enum Resolution {
    NotNeeded,
    Read(Result<ReadStream, String>),
    Write(Result<WriteStream, String>),
}

/// True when `reply` is exactly one ERROR packet with this code and
/// message.
pub open spec fn reply_is_error(reply: Option<Packet>, code: ErrorCode, message: Seq<char>) -> bool {
    reply matches Some(p) && p@ == (PacketModel::ERROR { code, message })
}

/// What fetching and sending block `block_no` does to a reading peer:
/// a non-empty window is sent as DATA and recorded, an empty window
/// ends the transfer silently.
pub open spec fn data_send_transition(
    pre: Peer,
    block_no: u16,
    post: Peer,
    reply: Option<Packet>,
) -> bool
    recommends
        block_no >= 1,
{
    let bytes = read_window(
        pre.read_stream.read_content(),
        (block_no - 1) * (BLOCK_SIZE as int),
        BLOCK_SIZE as int,
    );
    if bytes.len() > 0 {
        &&& post == (Peer { last_block_no: block_no, buffer: post.buffer, ..pre })
        &&& post.buffer@ == bytes
        &&& reply matches Some(p) && p@ == (PacketModel::Data { block_no, payload: bytes })
    } else {
        &&& post == pre
        &&& reply is None
    }
}

/// What an RRQ does: nothing to a dead peer; on a resolver miss an
/// ERROR(FileNotFound) reply and no state change; on success the
/// resolved resource is attached, the counter resets, and block 1 is
/// fetched and sent.
pub open spec fn rrq_transition(
    pre: Peer,
    resolved: Result<ReadStream, String>,
    post: Peer,
    reply: Option<Packet>,
) -> bool {
    if pre.dead {
        &&& post == pre
        &&& reply is None
    } else {
        match resolved {
            Result::Err(detail) => {
                &&& post == pre
                &&& reply_is_error(reply, ErrorCode::FileNotFound, detail@)
            },
            Result::Ok(stream) => data_send_transition(
                (Peer { read_stream: stream, last_block_no: 0, ..pre }),
                1,
                post,
                reply,
            ),
        }
    }
}

/// What a WRQ does: nothing to a dead peer; on a resolver failure an
/// ERROR(NotDefined) reply and no state change; on success the
/// resolved sink is attached, the counter resets, and ACK(0) answers.
pub open spec fn wrq_transition(
    pre: Peer,
    resolved: Result<WriteStream, String>,
    post: Peer,
    reply: Option<Packet>,
) -> bool {
    if pre.dead {
        &&& post == pre
        &&& reply is None
    } else {
        match resolved {
            Result::Err(detail) => {
                &&& post == pre
                &&& reply_is_error(reply, ErrorCode::NotDefined, detail@)
            },
            Result::Ok(sink) => {
                &&& post == (Peer { write_stream: sink, last_block_no: 0, ..pre })
                &&& reply matches Some(p) && p@ == (PacketModel::ACK { block_no: 0 })
            },
        }
    }
}

/// What an ACK does: nothing to a dead peer; the expected number
/// advances the transfer to the next block (none past the 16-bit cap,
/// wraparound being out of scope); any other number answers
/// ERROR(UnknownTransferId) naming the expected and received numbers
/// and leaves the peer unchanged.
pub open spec fn ack_transition(pre: Peer, block_no: u16, post: Peer, reply: Option<Packet>) -> bool {
    if pre.dead {
        &&& post == pre
        &&& reply is None
    } else if block_no == pre.last_block_no {
        if block_no == 0xffff {
            &&& post == pre
            &&& reply is None
        } else {
            data_send_transition(pre, (block_no + 1) as u16, post, reply)
        }
    } else {
        &&& post == pre
        &&& reply_is_error(
            reply,
            ErrorCode::UnknownTransferId,
            expected_got(pre.last_block_no as int, block_no as int),
        )
    }
}

/// What a DATA block does: nothing to a dead peer; the last committed
/// number is a retransmission and is re-acknowledged without another
/// append; the next number is appended to the sink (stored only where
/// the sink keeps data) and acknowledged; any other number answers
/// ERROR(UnknownTransferId) and leaves the peer unchanged.
pub open spec fn data_transition(
    pre: Peer,
    block_no: u16,
    payload: Seq<u8>,
    post: Peer,
    reply: Option<Packet>,
) -> bool {
    if pre.dead {
        &&& post == pre
        &&& reply is None
    } else if block_no == pre.last_block_no {
        &&& post == pre
        &&& reply matches Some(p) && p@ == (PacketModel::ACK { block_no })
    } else if block_no == pre.last_block_no + 1 {
        &&& post == (Peer { last_block_no: block_no, write_stream: post.write_stream, ..pre })
        &&& post.write_stream.keeps_data() == pre.write_stream.keeps_data()
        &&& post.write_stream.write_content() == (if pre.write_stream.keeps_data() {
            pre.write_stream.write_content() + payload
        } else {
            pre.write_stream.write_content()
        })
        &&& reply matches Some(p) && p@ == (PacketModel::ACK { block_no })
    } else {
        &&& post == pre
        &&& reply_is_error(
            reply,
            ErrorCode::UnknownTransferId,
            expected_got(pre.last_block_no + 1, block_no as int),
        )
    }
}

/// What a peer-sent ERROR does: marks the peer dead; no reply is sent
/// (an ERROR packet is never acknowledged).
pub open spec fn error_transition(pre: Peer, post: Peer, reply: Option<Packet>) -> bool {
    &&& post == (Peer { dead: true, ..pre })
    &&& reply is None
}

/// What any packet does to the addressed peer, by kind.
pub open spec fn packet_transition(
    pre: Peer,
    packet: PacketModel,
    res: Resolution,
    post: Peer,
    reply: Option<Packet>,
) -> bool {
    match packet {
        PacketModel::RRQ { .. } => {
            &&& res matches Resolution::Read(resolved)
            &&& rrq_transition(pre, resolved, post, reply)
        },
        PacketModel::WRQ { .. } => {
            &&& res matches Resolution::Write(resolved)
            &&& wrq_transition(pre, resolved, post, reply)
        },
        PacketModel::ACK { block_no } => ack_transition(pre, block_no, post, reply),
        PacketModel::Data { block_no, payload } => data_transition(
            pre,
            block_no,
            payload,
            post,
            reply,
        ),
        PacketModel::ERROR { .. } => error_transition(pre, post, reply),
    }
}

/// True when the resolution fits the packet: a stream outcome exactly
/// for the request kinds that consult the resolver.
pub open spec fn resolution_fits(packet: PacketModel, res: Resolution) -> bool {
    match packet {
        PacketModel::RRQ { .. } => res is Read,
        PacketModel::WRQ { .. } => res is Write,
        _ => res is NotNeeded,
    }
}

/// Fetch block `block_no` from the peer's read stream; send it as DATA
/// and advance the counter when it is non-empty, else end silently.
pub fn send_data_block(peer: &mut Peer, block_no: u16) -> (reply: Option<Packet>)
    requires
        block_no >= 1,
    ensures
        data_send_transition(*old(peer), block_no, *final(peer), reply),
{
    let start: usize = ((block_no - 1) as usize) * BLOCK_SIZE;
    match peer.read_stream.get_block(start, BLOCK_SIZE) {
        Ok(bytes) => {
            if bytes.len() > 0 {
                let payload = bytes.clone();
                proof {
                    assert(payload@ =~= bytes@);
                }
                peer.buffer = bytes;
                peer.last_block_no = block_no;
                Some(Packet::Data(block_no, Box::new(payload)))
            } else {
                None
            }
        },
        Err(_) => {
            // The streams of this crate never fail a read; this arm
            // mirrors the wire behaviour for a sink that could.
            Some(Packet::ERROR(ErrorCode::NotDefined, String::new()))
        },
    }
}

/// Serve a read request against the resolver's outcome.
pub fn handle_rrq(peer: &mut Peer, resolved: Result<ReadStream, String>) -> (reply: Option<Packet>)
    ensures
        rrq_transition(*old(peer), resolved, *final(peer), reply),
{
    if peer.dead {
        return None;
    }
    match resolved {
        Err(detail) => Some(Packet::ERROR(ErrorCode::FileNotFound, detail)),
        Ok(stream) => {
            peer.read_stream = stream;
            peer.last_block_no = 0;
            send_data_block(peer, 1)
        },
    }
}

/// Serve a write request against the resolver's outcome.
pub fn handle_wrq(peer: &mut Peer, resolved: Result<WriteStream, String>) -> (reply: Option<Packet>)
    ensures
        wrq_transition(*old(peer), resolved, *final(peer), reply),
{
    if peer.dead {
        return None;
    }
    match resolved {
        Err(detail) => Some(Packet::ERROR(ErrorCode::NotDefined, detail)),
        Ok(sink) => {
            peer.write_stream = sink;
            peer.last_block_no = 0;
            Some(Packet::ACK(0))
        },
    }
}

/// Serve an acknowledgment: the expected number advances the transfer,
/// any other is answered with a protocol error.
pub fn handle_ack(peer: &mut Peer, block_no: u16) -> (reply: Option<Packet>)
    ensures
        ack_transition(*old(peer), block_no, *final(peer), reply),
{
    if peer.dead {
        return None;
    }
    if block_no == peer.last_block_no {
        if block_no == 0xffff {
            None
        } else {
            send_data_block(peer, block_no + 1)
        }
    } else {
        let message = expected_got_message(peer.last_block_no as u32, block_no);
        Some(Packet::ERROR(ErrorCode::UnknownTransferId, message))
    }
}

/// Serve an incoming DATA block: commit the next block, re-acknowledge
/// a retransmission, reject any other number.
pub fn handle_data(peer: &mut Peer, block_no: u16, data: Box<Vec<u8>>) -> (reply: Option<Packet>)
    ensures
        data_transition(*old(peer), block_no, data@, *final(peer), reply),
{
    if peer.dead {
        return None;
    }
    if block_no == peer.last_block_no {
        return Some(Packet::ACK(block_no));
    }
    let expected: u32 = peer.last_block_no as u32 + 1;
    if block_no as u32 == expected {
        match peer.write_stream.add_block(data) {
            Ok(_) => {
                peer.last_block_no = block_no;
                Some(Packet::ACK(block_no))
            },
            Err(_) => {
                // The sinks of this crate never fail an append; this
                // arm mirrors the wire behaviour for a sink that could.
                Some(Packet::ERROR(ErrorCode::DiskFullOrAllocationFailed, String::new()))
            },
        }
    } else {
        let message = expected_got_message(expected, block_no);
        Some(Packet::ERROR(ErrorCode::UnknownTransferId, message))
    }
}

/// Serve a peer-sent ERROR: mark the peer dead and answer nothing.
#[allow(unused_variables)]
pub fn handle_error(peer: &mut Peer, code: ErrorCode, message: String) -> (reply: Option<Packet>)
    ensures
        error_transition(*old(peer), *final(peer), reply),
{
    peer.dead = true;
    None
}

/// Dispatch one decoded packet against the addressed peer, with the
/// resolver outcome the request kinds need.
pub fn handle_packet(peer: &mut Peer, packet: Packet, res: Resolution) -> (reply: Option<Packet>)
    requires
        resolution_fits(packet@, res),
    ensures
        packet_transition(*old(peer), packet@, res, *final(peer), reply),
{
    match packet {
        Packet::RRQ(_, _) => match res {
            Resolution::Read(resolved) => handle_rrq(peer, resolved),
            _ => {
                proof {
                    assert(false);
                }
                None
            },
        },
        Packet::WRQ(_, _) => match res {
            Resolution::Write(resolved) => handle_wrq(peer, resolved),
            _ => {
                proof {
                    assert(false);
                }
                None
            },
        },
        Packet::ACK(block_no) => handle_ack(peer, block_no),
        Packet::Data(block_no, data) => handle_data(peer, block_no, data),
        Packet::ERROR(code, message) => handle_error(peer, code, message),
    }
}

/// Peer abort: once a peer-sent ERROR has terminated a peer, every
/// subsequent packet from it, of any kind and with any resolver
/// outcome, leaves the peer's state untouched and draws no reply,
/// until the reaper reclaims the entry.
pub proof fn lemma_peer_abort(
    before: Peer,
    aborted: Peer,
    abort_reply: Option<Packet>,
    packet: PacketModel,
    res: Resolution,
    after: Peer,
    reply: Option<Packet>,
)
    requires
        error_transition(before, aborted, abort_reply),
        packet_transition(aborted, packet, res, after, reply),
    ensures
        after == aborted,
        reply is None,
{
}

/// Within a transfer, the lock-step counter never decreases: every
/// packet other than the RRQ/WRQ reattachments leaves `last_block_no`
/// equal or advances it.
pub proof fn lemma_counter_monotonic(
    pre: Peer,
    packet: PacketModel,
    res: Resolution,
    post: Peer,
    reply: Option<Packet>,
)
    requires
        packet_transition(pre, packet, res, post, reply),
        !(packet is RRQ),
        !(packet is WRQ),
    ensures
        post.last_block_no >= pre.last_block_no,
{
}

/// The built-in fixture of the storage resolver: the name "hello" maps
/// to the in-memory five-byte resource "world". Other names fall to the
/// resolver's external side.
pub fn handle_file_read(filename: &String) -> (r: Option<ReadStream>)
    ensures
        (filename@ == "hello"@) <==> r is Some,
        r matches Some(stream) ==> stream.read_content() == vstd::utf8::encode_utf8("world"@),
{
    let fixture_name = String::from_str("hello");
    if *filename == fixture_name {
        let fixture = crate::stream::StringStream::new(String::from_str("world"));
        Some(ReadStream::Memory(fixture))
    } else {
        None
    }
}

} // verus!
