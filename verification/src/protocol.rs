//! The packet codec: binary encode and decode of the five packet kinds.
//!
//! Wire layout (RFC 1350, all multi-byte integers big-endian): a 2-byte
//! opcode, then per kind: RRQ/WRQ carry two NUL-terminated text fields
//! (filename, mode); DATA carries a 2-byte block number and all
//! remaining bytes as payload; ACK carries a 2-byte block number; ERROR
//! carries a 2-byte code and a NUL-terminated message.

use vstd::prelude::*;
use vstd::slice::slice_to_vec;
use vstd::utf8::{decode_utf8, encode_scalar, encode_utf8, has_width_1_encoding, valid_utf8};

use crate::packet::{lemma_code_round_trip, DecodeError, ErrorCode, Packet, PacketModel};
use crate::packet::{spec_code_from_u16, spec_code_to_u16};

verus! {

/// The value of a 16-bit big-endian integer with the given bytes.
pub open spec fn be_u16(hi: u8, lo: u8) -> u16 {
    (hi * 256 + lo) as u16
}

/// The two big-endian bytes of a 16-bit integer.
pub open spec fn be_bytes(n: u16) -> Seq<u8> {
    seq![(n / 256) as u8, (n % 256) as u8]
}

/// Reading back the two big-endian bytes of a number yields the number.
pub proof fn lemma_be_round_trip(n: u16)
    ensures
        be_u16(be_bytes(n)[0], be_bytes(n)[1]) == n,
{
}

/// The wire form of a text field: its UTF-8 bytes followed by NUL.
pub open spec fn encoded_text(text: Seq<char>) -> Seq<u8> {
    encode_utf8(text) + seq![0u8]
}

/// The wire encoding of a packet.
pub open spec fn spec_encode(packet: PacketModel) -> Seq<u8> {
    match packet {
        PacketModel::RRQ { filename, mode } => be_bytes(1) + encoded_text(filename)
            + encoded_text(mode),
        PacketModel::WRQ { filename, mode } => be_bytes(2) + encoded_text(filename)
            + encoded_text(mode),
        PacketModel::Data { block_no, payload } => be_bytes(3) + be_bytes(block_no) + payload,
        PacketModel::ACK { block_no } => be_bytes(4) + be_bytes(block_no),
        PacketModel::ERROR { code, message } => be_bytes(5) + be_bytes(spec_code_to_u16(code))
            + encoded_text(message),
    }
}

/// The position of the first NUL byte at or after `from`, if any.
pub open spec fn find_nul(bytes: Seq<u8>, from: int) -> Option<int>
    decreases bytes.len() - from,
{
    if from < 0 || from >= bytes.len() {
        Option::None
    } else if bytes[from] == 0 {
        Option::Some(from)
    } else {
        find_nul(bytes, from + 1)
    }
}

/// What parsing a NUL-terminated text field starting at `from` yields:
/// the decoded characters and the position after the NUL, `Truncated`
/// when no NUL follows, `InvalidText` when the field is not valid UTF-8.
pub open spec fn spec_decode_text(bytes: Seq<u8>, from: int) -> Result<(Seq<char>, int), DecodeError> {
    match find_nul(bytes, from) {
        Option::None => Result::Err(DecodeError::Truncated),
        Option::Some(end) => {
            let field = bytes.subrange(from, end);
            if valid_utf8(field) {
                Result::Ok((decode_utf8(field), end + 1))
            } else {
                Result::Err(DecodeError::InvalidText)
            }
        },
    }
}

/// What decoding a buffer yields: the packet it spells, or the reason it
/// is rejected. Bytes past a complete RRQ/WRQ/ACK/ERROR packet are
/// ignored, as is the second text field's effect on a failed first one.
pub open spec fn spec_decode(bytes: Seq<u8>) -> Result<PacketModel, DecodeError> {
    if bytes.len() < 2 {
        Result::Err(DecodeError::Truncated)
    } else {
        let opcode = be_u16(bytes[0], bytes[1]);
        if opcode == 1 || opcode == 2 {
            match spec_decode_text(bytes, 2) {
                Result::Err(e) => Result::Err(e),
                Result::Ok(first) => match spec_decode_text(bytes, first.1) {
                    Result::Err(e) => Result::Err(e),
                    Result::Ok(second) => Result::Ok(
                        if opcode == 1 {
                            PacketModel::RRQ { filename: first.0, mode: second.0 }
                        } else {
                            PacketModel::WRQ { filename: first.0, mode: second.0 }
                        },
                    ),
                },
            }
        } else if opcode == 3 {
            if bytes.len() < 4 {
                Result::Err(DecodeError::Truncated)
            } else {
                Result::Ok(
                    PacketModel::Data {
                        block_no: be_u16(bytes[2], bytes[3]),
                        payload: bytes.subrange(4, bytes.len() as int),
                    },
                )
            }
        } else if opcode == 4 {
            if bytes.len() < 4 {
                Result::Err(DecodeError::Truncated)
            } else {
                Result::Ok(PacketModel::ACK { block_no: be_u16(bytes[2], bytes[3]) })
            }
        } else if opcode == 5 {
            if bytes.len() < 4 {
                Result::Err(DecodeError::Truncated)
            } else {
                match spec_decode_text(bytes, 4) {
                    Result::Err(e) => Result::Err(e),
                    Result::Ok(msg) => Result::Ok(
                        PacketModel::ERROR {
                            code: spec_code_from_u16(be_u16(bytes[2], bytes[3])),
                            message: msg.0,
                        },
                    ),
                }
            }
        } else {
            Result::Err(DecodeError::UnknownOpcode)
        }
    }
}

/// Relies on std's `str::from_utf8`: it returns `Ok` exactly when the
/// bytes are valid UTF-8, and the resulting string spells the characters
/// those bytes encode (`to_owned` then copies them into a `String`).
#[verifier::external_body]
fn utf8_to_string(bytes: &[u8]) -> (r: Option<String>)
    ensures
        r is Some <==> valid_utf8(bytes@),
        r matches Some(text) ==> text@ == decode_utf8(bytes@),
{
    match core::str::from_utf8(bytes) {
        Ok(text) => Some(text.to_owned()),
        Err(_) => None,
    }
}

/// Scanning a stretch of non-NUL bytes settles what `find_nul` yields:
/// the first NUL at its end, or nothing when the buffer ends first.
proof fn lemma_find_nul_scan(bytes: Seq<u8>, from: int, end: int)
    requires
        0 <= from <= end <= bytes.len(),
        forall|k: int| from <= k < end ==> bytes[k] != 0,
        end == bytes.len() || bytes[end] == 0,
    ensures
        find_nul(bytes, from) == (if end == bytes.len() {
            Option::<int>::None
        } else {
            Option::Some(end)
        }),
    decreases end - from,
{
    if from < end {
        lemma_find_nul_scan(bytes, from + 1, end);
    }
}

/// True when no character of the text is NUL; only such text survives
/// the wire's NUL-terminated fields unchanged.
pub open spec fn nul_free(text: Seq<char>) -> bool {
    forall|i: int| 0 <= i < text.len() ==> text[i] != '\0'
}

/// True when every text field of the packet is NUL-free.
pub open spec fn texts_nul_free(packet: PacketModel) -> bool {
    match packet {
        PacketModel::RRQ { filename, mode } => nul_free(filename) && nul_free(mode),
        PacketModel::WRQ { filename, mode } => nul_free(filename) && nul_free(mode),
        PacketModel::ERROR { message, .. } => nul_free(message),
        PacketModel::ACK { .. } => true,
        PacketModel::Data { .. } => true,
    }
}

/// The UTF-8 encoding of a character other than NUL contains no zero
/// byte: a one-byte encoding is the scalar itself, and every byte of a
/// longer encoding has its high bit set.
proof fn lemma_encode_scalar_nul_free(c: char)
    requires
        c != '\0',
    ensures
        forall|i: int| 0 <= i < encode_scalar(c as u32).len() ==> #[trigger] encode_scalar(c as u32)[i] != 0,
{
    vstd::utf8::char_is_scalar(c);
    let s = c as u32;
    if s == 0 {
        vstd::utf8::char_u32_cast(c, s);
        assert(0u32 as char == '\0');
        assert(false);
    }
    if has_width_1_encoding(s) {
        assert((s & 0x7F) as u8 != 0) by (bit_vector)
            requires
                s <= 0x7F && s != 0,
        ;
    } else {
        assert(0xC0u8 | ((s >> 6) & 0x1F) as u8 != 0) by (bit_vector);
        assert(0xE0u8 | ((s >> 12) & 0x0F) as u8 != 0) by (bit_vector);
        assert(0xF0u8 | ((s >> 18) & 0x7) as u8 != 0) by (bit_vector);
        assert(0x80u8 | (s & 0x3F) as u8 != 0) by (bit_vector);
        assert(0x80u8 | ((s >> 6) & 0x3F) as u8 != 0) by (bit_vector);
        assert(0x80u8 | ((s >> 12) & 0x3F) as u8 != 0) by (bit_vector);
    }
}

/// The UTF-8 encoding of NUL-free text contains no zero byte.
proof fn lemma_encode_utf8_nul_free(text: Seq<char>)
    requires
        nul_free(text),
    ensures
        forall|i: int| 0 <= i < encode_utf8(text).len() ==> #[trigger] encode_utf8(text)[i] != 0,
    decreases text.len(),
{
    if text.len() > 0 {
        lemma_encode_scalar_nul_free(text[0]);
        assert(nul_free(text.drop_first()));
        lemma_encode_utf8_nul_free(text.drop_first());
        assert(encode_utf8(text) == encode_scalar(text[0] as u32) + encode_utf8(
            text.drop_first(),
        ));
    }
}

/// Where a buffer holds a zero-free stretch `field` at `from` followed
/// by a NUL, parsing the text field at `from` finds exactly that NUL,
/// and yields the field's characters or rejects its encoding.
proof fn lemma_decode_text_at(b: Seq<u8>, from: int, field: Seq<u8>)
    requires
        0 <= from,
        from + field.len() < b.len(),
        b.subrange(from, from + field.len()) == field,
        b[from + field.len()] == 0,
        forall|k: int| 0 <= k < field.len() ==> field[k] != 0,
    ensures
        find_nul(b, from) == Option::Some(from + field.len()),
        spec_decode_text(b, from) == (if valid_utf8(field) {
            Result::<(Seq<char>, int), DecodeError>::Ok((decode_utf8(field), from + field.len() + 1))
        } else {
            Result::<(Seq<char>, int), DecodeError>::Err(DecodeError::InvalidText)
        }),
{
    assert(forall|k: int| from <= k < from + field.len() ==> b[k] == field[k - from]);
    lemma_find_nul_scan(b, from, from + field.len());
}

/// Round trip: decoding the encoding of any packet with NUL-free text
/// fields yields the packet itself.
pub proof fn lemma_encode_decode_round_trip(packet: PacketModel)
    requires
        texts_nul_free(packet),
    ensures
        spec_decode(spec_encode(packet)) == Result::<PacketModel, DecodeError>::Ok(packet),
{
    broadcast use vstd::utf8::encode_utf8_valid_utf8;
    broadcast use vstd::utf8::encode_utf8_decode_utf8;

    let b = spec_encode(packet);
    match packet {
        PacketModel::RRQ { filename, mode } => {
            lemma_request_round_trip(packet, filename, mode);
        },
        PacketModel::WRQ { filename, mode } => {
            lemma_request_round_trip(packet, filename, mode);
        },
        PacketModel::Data { block_no, payload } => {
            assert(b[0] == 0 && b[1] == 3);
            assert(b[2] == be_bytes(block_no)[0] && b[3] == be_bytes(block_no)[1]);
            lemma_be_round_trip(block_no);
            assert(b.subrange(4, b.len() as int) =~= payload);
        },
        PacketModel::ACK { block_no } => {
            assert(b[0] == 0 && b[1] == 4);
            assert(b[2] == be_bytes(block_no)[0] && b[3] == be_bytes(block_no)[1]);
            lemma_be_round_trip(block_no);
        },
        PacketModel::ERROR { code, message } => {
            let num = spec_code_to_u16(code);
            let em = encode_utf8(message);
            assert(b =~= seq![0u8, 5u8] + be_bytes(num) + em + seq![0u8]);
            assert(b[0] == 0 && b[1] == 5);
            assert(b[2] == be_bytes(num)[0] && b[3] == be_bytes(num)[1]);
            lemma_be_round_trip(num);
            lemma_code_round_trip(code);
            lemma_encode_utf8_nul_free(message);
            assert(b.subrange(4, 4 + em.len() as int) =~= em);
            lemma_decode_text_at(b, 4, em);
        },
    }
}

/// The shared RRQ/WRQ case of the round-trip proof: both fields parse
/// back at their offsets.
proof fn lemma_request_round_trip(packet: PacketModel, filename: Seq<char>, mode: Seq<char>)
    requires
        packet == (PacketModel::RRQ { filename, mode }) || packet == (PacketModel::WRQ {
            filename,
            mode,
        }),
        nul_free(filename),
        nul_free(mode),
    ensures
        spec_decode(spec_encode(packet)) == Result::<PacketModel, DecodeError>::Ok(packet),
{
    broadcast use vstd::utf8::encode_utf8_valid_utf8;
    broadcast use vstd::utf8::encode_utf8_decode_utf8;

    let b = spec_encode(packet);
    let opbyte: u8 = if packet is RRQ {
        1
    } else {
        2
    };
    let ef = encode_utf8(filename);
    let em = encode_utf8(mode);
    assert(b =~= seq![0u8, opbyte] + ef + seq![0u8] + em + seq![0u8]);
    assert(b[0] == 0 && b[1] == opbyte);
    lemma_encode_utf8_nul_free(filename);
    lemma_encode_utf8_nul_free(mode);
    assert(b.subrange(2, 2 + ef.len() as int) =~= ef);
    lemma_decode_text_at(b, 2, ef);
    let next: int = 3 + ef.len() as int;
    assert(b.subrange(next, next + em.len() as int) =~= em);
    lemma_decode_text_at(b, next, em);
}

/// Truncation: decoding any strict prefix of an encoded packet is
/// rejected as truncated. The one exception is cutting a DATA packet
/// behind its header: the payload is all remaining bytes, so such a
/// prefix decodes as a DATA packet with a shorter payload, and the
/// statement therefore confines a DATA cut to its 4-byte header.
pub proof fn lemma_decode_truncated(packet: PacketModel, cut: int)
    requires
        texts_nul_free(packet),
        0 <= cut < spec_encode(packet).len(),
        packet is Data ==> cut < 4,
    ensures
        spec_decode(spec_encode(packet).subrange(0, cut)) == Result::<PacketModel, DecodeError>::Err(
            DecodeError::Truncated,
        ),
{
    broadcast use vstd::utf8::encode_utf8_valid_utf8;

    let b = spec_encode(packet);
    let t = b.subrange(0, cut);
    if cut < 2 {
        return;
    }
    match packet {
        PacketModel::RRQ { filename, mode } => {
            lemma_request_truncated(packet, filename, mode, cut);
        },
        PacketModel::WRQ { filename, mode } => {
            lemma_request_truncated(packet, filename, mode, cut);
        },
        PacketModel::Data { block_no, payload } => {
            assert(t.len() < 4);
        },
        PacketModel::ACK { block_no } => {
            assert(t.len() < 4);
        },
        PacketModel::ERROR { code, message } => {
            let em = encode_utf8(message);
            assert(b =~= seq![0u8, 5u8] + be_bytes(spec_code_to_u16(code)) + em + seq![0u8]);
            if cut >= 4 {
                lemma_encode_utf8_nul_free(message);
                assert(forall|k: int| 4 <= k < cut ==> t[k] == em[k - 4] && t[k] != 0);
                lemma_find_nul_scan(t, 4, cut);
            }
        },
    }
}

/// The shared RRQ/WRQ case of the truncation proof: the cut removes at
/// least the final NUL, so one of the two fields fails to terminate.
proof fn lemma_request_truncated(packet: PacketModel, filename: Seq<char>, mode: Seq<char>, cut: int)
    requires
        packet == (PacketModel::RRQ { filename, mode }) || packet == (PacketModel::WRQ {
            filename,
            mode,
        }),
        nul_free(filename),
        nul_free(mode),
        2 <= cut < spec_encode(packet).len(),
    ensures
        spec_decode(spec_encode(packet).subrange(0, cut)) == Result::<PacketModel, DecodeError>::Err(
            DecodeError::Truncated,
        ),
{
    broadcast use vstd::utf8::encode_utf8_valid_utf8;

    let b = spec_encode(packet);
    let t = b.subrange(0, cut);
    let opbyte: u8 = if packet is RRQ {
        1
    } else {
        2
    };
    let ef = encode_utf8(filename);
    let em = encode_utf8(mode);
    assert(b =~= seq![0u8, opbyte] + ef + seq![0u8] + em + seq![0u8]);
    lemma_encode_utf8_nul_free(filename);
    lemma_encode_utf8_nul_free(mode);
    if cut <= 2 + ef.len() {
        assert(forall|k: int| 2 <= k < cut ==> t[k] == ef[k - 2] && t[k] != 0);
        lemma_find_nul_scan(t, 2, cut);
    } else {
        assert(t.subrange(2, 2 + ef.len() as int) =~= ef);
        assert(forall|k: int| 0 <= k < ef.len() ==> ef[k] != 0);
        lemma_decode_text_at(t, 2, ef);
        let next: int = 3 + ef.len() as int;
        assert(forall|k: int| next <= k < cut ==> t[k] == em[k - next] && t[k] != 0);
        lemma_find_nul_scan(t, next, cut);
    }
}

/// Invalid text: a request whose filename field is not valid UTF-8 is
/// rejected as invalid text, not as an unknown opcode, whatever follows
/// the field's terminator.
pub proof fn lemma_decode_invalid_request_text(opbyte: u8, field: Seq<u8>, rest: Seq<u8>)
    requires
        opbyte == 1 || opbyte == 2,
        forall|k: int| 0 <= k < field.len() ==> field[k] != 0,
        !valid_utf8(field),
    ensures
        spec_decode(seq![0u8, opbyte] + field + seq![0u8] + rest) == Result::<
            PacketModel,
            DecodeError,
        >::Err(DecodeError::InvalidText),
{
    let b = seq![0u8, opbyte] + field + seq![0u8] + rest;
    assert(b[0] == 0 && b[1] == opbyte);
    assert(b.subrange(2, 2 + field.len() as int) =~= field);
    lemma_decode_text_at(b, 2, field);
}

/// Invalid text: an ERROR packet whose message field is not valid UTF-8
/// is rejected as invalid text.
pub proof fn lemma_decode_invalid_error_text(code_hi: u8, code_lo: u8, field: Seq<u8>)
    requires
        forall|k: int| 0 <= k < field.len() ==> field[k] != 0,
        !valid_utf8(field),
    ensures
        spec_decode(seq![0u8, 5u8, code_hi, code_lo] + field + seq![0u8]) == Result::<
            PacketModel,
            DecodeError,
        >::Err(DecodeError::InvalidText),
{
    let b = seq![0u8, 5u8, code_hi, code_lo] + field + seq![0u8];
    assert(b[0] == 0 && b[1] == 5);
    assert(b.subrange(4, 4 + field.len() as int) =~= field);
    lemma_decode_text_at(b, 4, field);
}

/// The codec over byte buffers.
pub struct Protocol;

impl Protocol {
    /// Append the two big-endian bytes of `n`.
    fn push_be_u16(buf: &mut Vec<u8>, n: u16)
        ensures
            final(buf)@ == old(buf)@ + be_bytes(n),
    {
        buf.push((n / 256) as u8);
        buf.push((n % 256) as u8);
        proof {
            assert(buf@ =~= old(buf)@ + be_bytes(n));
        }
    }

    /// Append the wire form of a text field: its UTF-8 bytes, then NUL.
    pub fn encode_string(buf: &mut Vec<u8>, string: &String)
        ensures
            final(buf)@ == old(buf)@ + encoded_text(string@),
    {
        buf.extend_from_slice(string.as_str().as_bytes());
        buf.push(0);
        proof {
            assert(buf@ =~= old(buf)@ + encoded_text(string@));
        }
    }

    /// Encode a packet into its wire bytes; every variant encodes.
    pub fn encode(packet: Packet) -> (buf: Vec<u8>)
        ensures
            buf@ == spec_encode(packet@),
    {
        let mut buf: Vec<u8> = Vec::new();
        match packet {
            Packet::RRQ(filename, mode) => {
                Self::push_be_u16(&mut buf, 1);
                Self::encode_string(&mut buf, &filename);
                Self::encode_string(&mut buf, &mode);
                proof {
                    assert(buf@ =~= be_bytes(1) + encoded_text(filename@) + encoded_text(mode@));
                }
            },
            Packet::WRQ(filename, mode) => {
                Self::push_be_u16(&mut buf, 2);
                Self::encode_string(&mut buf, &filename);
                Self::encode_string(&mut buf, &mode);
                proof {
                    assert(buf@ =~= be_bytes(2) + encoded_text(filename@) + encoded_text(mode@));
                }
            },
            Packet::Data(block_no, payload) => {
                Self::push_be_u16(&mut buf, 3);
                Self::push_be_u16(&mut buf, block_no);
                buf.extend_from_slice(payload.as_slice());
                proof {
                    assert(buf@ =~= be_bytes(3) + be_bytes(block_no) + payload@);
                }
            },
            Packet::ACK(block_no) => {
                Self::push_be_u16(&mut buf, 4);
                Self::push_be_u16(&mut buf, block_no);
                proof {
                    assert(buf@ =~= be_bytes(4) + be_bytes(block_no));
                }
            },
            Packet::ERROR(code, message) => {
                Self::push_be_u16(&mut buf, 5);
                let num = code.to_u16();
                Self::push_be_u16(&mut buf, num);
                Self::encode_string(&mut buf, &message);
                proof {
                    assert(buf@ =~= be_bytes(5) + be_bytes(spec_code_to_u16(code))
                        + encoded_text(message@));
                }
            },
        }
        buf
    }

    /// Read the 16-bit big-endian integer at offset `at`.
    fn read_be_u16(bytes: &[u8], at: usize) -> (n: u16)
        requires
            at + 2 <= bytes@.len(),
        ensures
            n == be_u16(bytes@[at as int], bytes@[at as int + 1]),
    {
        let hi = bytes[at];
        let lo = bytes[at + 1];
        (hi as u16) * 256 + (lo as u16)
    }

    /// Parse the NUL-terminated text field starting at `from`, yielding
    /// the text and the position just past its NUL.
    pub fn decode_string(bytes: &[u8], from: usize) -> (r: Result<(String, usize), DecodeError>)
        requires
            from <= bytes@.len(),
        ensures
            (match spec_decode_text(bytes@, from as int) {
                Result::Ok(parsed) => r matches Ok(got) && got.0@ == parsed.0 && got.1 == parsed.1
                    && got.1 <= bytes@.len(),
                Result::Err(e) => r matches Err(got) && got == e,
            }),
    {
        let len = bytes.len();
        let mut i = from;
        while i < len && *vstd::slice::slice_index_get(bytes, i) != 0
            invariant
                from <= i <= len,
                len == bytes@.len(),
                forall|k: int| from <= k < i ==> bytes@[k] != 0,
            decreases len - i,
        {
            i = i + 1;
        }
        proof {
            lemma_find_nul_scan(bytes@, from as int, i as int);
        }
        if i == len {
            return Result::Err(DecodeError::Truncated);
        }
        let field = vstd::slice::slice_subrange(bytes, from, i);
        match utf8_to_string(field) {
            Some(text) => Result::Ok((text, i + 1)),
            None => Result::Err(DecodeError::InvalidText),
        }
    }

    /// Decode a buffer into the packet it spells, or the reason it is
    /// rejected; decoding never mutates anything on failure.
    pub fn decode(p: &[u8]) -> (r: Result<Packet, DecodeError>)
        ensures
            (match spec_decode(p@) {
                Result::Ok(m) => r matches Ok(pkt) && pkt@ == m,
                Result::Err(e) => r matches Err(got) && got == e,
            }),
    {
        if p.len() < 2 {
            return Result::Err(DecodeError::Truncated);
        }
        let opcode = Self::read_be_u16(p, 0);
        if opcode == 1 || opcode == 2 {
            match Self::decode_string(p, 2) {
                Result::Err(e) => Result::Err(e),
                Result::Ok((filename, next)) => match Self::decode_string(p, next) {
                    Result::Err(e) => Result::Err(e),
                    Result::Ok((mode, _)) => {
                        if opcode == 1 {
                            Result::Ok(Packet::RRQ(filename, mode))
                        } else {
                            Result::Ok(Packet::WRQ(filename, mode))
                        }
                    },
                },
            }
        } else if opcode == 3 {
            if p.len() < 4 {
                return Result::Err(DecodeError::Truncated);
            }
            let block_no = Self::read_be_u16(p, 2);
            let rest = vstd::slice::slice_subrange(p, 4, p.len());
            let payload = slice_to_vec(rest);
            Result::Ok(Packet::Data(block_no, Box::new(payload)))
        } else if opcode == 4 {
            if p.len() < 4 {
                return Result::Err(DecodeError::Truncated);
            }
            Result::Ok(Packet::ACK(Self::read_be_u16(p, 2)))
        } else if opcode == 5 {
            if p.len() < 4 {
                return Result::Err(DecodeError::Truncated);
            }
            let code = ErrorCode::from_u16(Self::read_be_u16(p, 2));
            match Self::decode_string(p, 4) {
                Result::Err(e) => Result::Err(e),
                Result::Ok((message, _)) => Result::Ok(Packet::ERROR(code, message)),
            }
        } else {
            Result::Err(DecodeError::UnknownOpcode)
        }
    }
}

} // verus!

